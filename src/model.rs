//! The printer's formatting context and the commands the decoder emits.

use vstd::prelude::*;

verus! {

/// Horizontal alignment of printed text.
#[derive(Clone, Copy, PartialEq, Eq, Structural, Debug)]
pub enum Align {
    Left,
    Center,
    Right,
}

/// Where the human-readable label of a barcode is printed.
#[derive(Clone, Copy, PartialEq, Eq, Structural, Debug)]
pub enum BarcodeHriPosition {
    Hidden,
    Above,
    Below,
    Both,
}

/// Paper roll width of the emulated printer.
#[derive(Clone, Copy, PartialEq, Eq, Structural, Debug)]
pub enum PaperWidth {
    W58mm,
    W80mm,
}

/// Text encoding used to turn printable byte runs into text.
#[derive(Clone, Copy, PartialEq, Eq, Structural, Debug)]
pub enum CodePage {
    /// Strict UTF-8, falling back to Windows-1252 when the run is not valid UTF-8.
    Utf8Lossy,
    Cp437,
    Cp850,
    Windows1252,
    Pc858,
    Iso88591,
    Cp866,
    Cp860,
    Cp865,
}

/// The printer's live formatting context.
#[derive(Clone, Copy, PartialEq, Eq, Structural, Debug)]
pub struct PrinterState {
    pub is_bold: bool,
    pub alignment: Align,
    pub char_width_mul: u8,
    pub char_height_mul: u8,
    pub barcode_hri: BarcodeHriPosition,
    pub barcode_height: u8,
    pub barcode_module_width: u8,
    pub barcode_hri_font: u8,
}

impl PrinterState {
    /// The state a printer starts in, and returns to on reset.
    pub open spec fn initial() -> PrinterState {
        PrinterState {
            is_bold: false,
            alignment: Align::Left,
            char_width_mul: 1,
            char_height_mul: 1,
            barcode_hri: BarcodeHriPosition::Hidden,
            barcode_height: 80,
            barcode_module_width: 3,
            barcode_hri_font: 0,
        }
    }

    /// Character multipliers are never below one.
    pub open spec fn wf(self) -> bool {
        self.char_width_mul >= 1 && self.char_height_mul >= 1
    }

    /// Whether two snapshots format a line identically, so that consecutive
    /// text runs carrying them may share one line.
    pub open spec fn spec_same_line_style(self, other: PrinterState) -> bool {
        self.is_bold == other.is_bold && self.alignment == other.alignment
            && self.char_width_mul == other.char_width_mul
            && self.char_height_mul == other.char_height_mul
    }

    pub fn same_line_style(&self, other: &PrinterState) -> (r: bool)
        ensures
            r == self.spec_same_line_style(*other),
    {
        self.is_bold == other.is_bold && self.alignment == other.alignment
            && self.char_width_mul == other.char_width_mul
            && self.char_height_mul == other.char_height_mul
    }
}

impl Default for PrinterState {
    fn default() -> (r: PrinterState)
        ensures
            r == PrinterState::initial(),
    {
        PrinterState {
            is_bold: false,
            alignment: Align::Left,
            char_width_mul: 1,
            char_height_mul: 1,
            barcode_hri: BarcodeHriPosition::Hidden,
            barcode_height: 80,
            barcode_module_width: 3,
            barcode_hri_font: 0,
        }
    }
}

/// A control command decoded from the byte stream.
#[derive(Clone, PartialEq, Eq, Debug)]
pub enum Control {
    Newline,
    /// Horizontal tab.
    Tab,
    /// Printer reset (`ESC @`).
    Init,
    Bold(bool),
    Align(Align),
    /// Character size (`GS ! n`): the raw argument and the resulting multipliers.
    Size { raw: u8, width: u8, height: u8 },
    Cut,
    /// Raster bit image (`GS v 0`); `width_bytes` bytes per row.
    RasterImage { m: u8, width_bytes: u16, height: u16, data: Vec<u8> },
    /// A QR symbol assembled with the `GS ( k` sub-protocol.
    Qr { model: u8, module_size: u8, ecc: u8, data: Vec<u8> },
    /// Barcode data (`GS k`).
    Barcode { m: u8, data: Vec<u8> },
    BarcodeHriPosition(BarcodeHriPosition),
    BarcodeHeight(u8),
    BarcodeModuleWidth(u8),
    BarcodeHriFont(u8),
    EscUnknown(u8),
    GsUnknown(u8),
}

/// The mathematical value of a [`Control`].
pub enum ControlV {
    Newline,
    Tab,
    Init,
    Bold(bool),
    Align(Align),
    Size { raw: u8, width: u8, height: u8 },
    Cut,
    RasterImage { m: u8, width_bytes: u16, height: u16, data: Seq<u8> },
    Qr { model: u8, module_size: u8, ecc: u8, data: Seq<u8> },
    Barcode { m: u8, data: Seq<u8> },
    BarcodeHriPosition(BarcodeHriPosition),
    BarcodeHeight(u8),
    BarcodeModuleWidth(u8),
    BarcodeHriFont(u8),
    EscUnknown(u8),
    GsUnknown(u8),
}

impl View for Control {
    type V = ControlV;

    open spec fn view(&self) -> ControlV {
        match self {
            Control::Newline => ControlV::Newline,
            Control::Tab => ControlV::Tab,
            Control::Init => ControlV::Init,
            Control::Bold(b) => ControlV::Bold(*b),
            Control::Align(a) => ControlV::Align(*a),
            Control::Size { raw, width, height } => ControlV::Size {
                raw: *raw,
                width: *width,
                height: *height,
            },
            Control::Cut => ControlV::Cut,
            Control::RasterImage { m, width_bytes, height, data } => ControlV::RasterImage {
                m: *m,
                width_bytes: *width_bytes,
                height: *height,
                data: data@,
            },
            Control::Qr { model, module_size, ecc, data } => ControlV::Qr {
                model: *model,
                module_size: *module_size,
                ecc: *ecc,
                data: data@,
            },
            Control::Barcode { m, data } => ControlV::Barcode { m: *m, data: data@ },
            Control::BarcodeHriPosition(p) => ControlV::BarcodeHriPosition(*p),
            Control::BarcodeHeight(n) => ControlV::BarcodeHeight(*n),
            Control::BarcodeModuleWidth(n) => ControlV::BarcodeModuleWidth(*n),
            Control::BarcodeHriFont(n) => ControlV::BarcodeHriFont(*n),
            Control::EscUnknown(b) => ControlV::EscUnknown(*b),
            Control::GsUnknown(b) => ControlV::GsUnknown(*b),
        }
    }
}

/// One decoded command.
#[derive(Clone, Debug)]
pub enum CommandType {
    /// A run of printable bytes, decoded with the selected code page.
    Text(String),
    Control(Control),
    /// A control byte that starts no known command.
    Unknown(u8),
}

/// The mathematical value of a [`CommandType`].
pub enum CommandV {
    Text(Seq<char>),
    Control(ControlV),
    Unknown(u8),
}

impl View for CommandType {
    type V = CommandV;

    open spec fn view(&self) -> CommandV {
        match self {
            CommandType::Text(s) => CommandV::Text(s@),
            CommandType::Control(c) => CommandV::Control(c@),
            CommandType::Unknown(b) => CommandV::Unknown(*b),
        }
    }
}

} // verus!
