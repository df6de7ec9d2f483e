//! Decoding of ESC/POS printer byte streams into typed print commands,
//! barcode symbology encoders, and the job-framing logic for captured
//! printer connections.

pub mod model;
pub mod text;
pub mod escpos;
pub mod barcode;
pub mod code128;
pub mod capture;
pub mod hex_dump;
pub mod printer_setup;
pub mod window_control;
pub mod viewer;
