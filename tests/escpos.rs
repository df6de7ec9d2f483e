use escpos_viewer::escpos::{decode_step, parse_escpos, DecoderState, ParsedCommand};
use escpos_viewer::model::{Align, BarcodeHriPosition, CodePage, CommandType, Control, PrinterState};
use oem_cp::{Cp850, StringExt};

fn collect_text(parsed: &[ParsedCommand]) -> Vec<String> {
    parsed
        .iter()
        .filter_map(|(_, c)| match c {
            CommandType::Text(t) => Some(t.clone()),
            _ => None,
        })
        .collect()
}

fn qr_commands(parsed: &[ParsedCommand]) -> Vec<(u8, u8, u8, Vec<u8>)> {
    parsed
        .iter()
        .filter_map(|(_, c)| match c {
            CommandType::Control(Control::Qr { model, module_size, ecc, data }) => {
                Some((*model, *module_size, *ecc, data.clone()))
            }
            _ => None,
        })
        .collect()
}

#[test]
fn parses_basic_text_and_newline() {
    let data = b"Hola\n";
    let parsed = parse_escpos(data, CodePage::Utf8Lossy);
    assert!(parsed.iter().any(|(_, c)| matches!(c, CommandType::Text(t) if t.contains("Hola"))));
    assert!(parsed.iter().any(|(_, c)| matches!(c, CommandType::Control(Control::Newline))));
}

#[test]
fn esc_init_resets_state() {
    let data = [0x1B, 0x45, 0x01, b'A', 0x1B, 0x40, b'B'];
    let parsed = parse_escpos(&data, CodePage::Utf8Lossy);
    let a_state = parsed
        .iter()
        .find(|(_, c)| matches!(c, CommandType::Text(t) if t.contains('A')))
        .map(|(s, _)| s)
        .unwrap();
    assert!(a_state.is_bold);
    let b_state = parsed
        .iter()
        .find(|(_, c)| matches!(c, CommandType::Text(t) if t.contains('B')))
        .map(|(s, _)| s)
        .unwrap();
    assert!(!b_state.is_bold);
}

#[test]
fn codepage_cp437_decodes_extended_bytes() {
    let data = [0xFB, 0xAC, 0x3D, 0xAB];
    let parsed_cp437 = parse_escpos(&data, CodePage::Cp437);
    let texts_cp437 = collect_text(&parsed_cp437);
    assert_eq!(texts_cp437, vec!["√¼=½".to_string()]);
    let parsed_utf8 = parse_escpos(&data, CodePage::Utf8Lossy);
    let texts_utf8 = collect_text(&parsed_utf8);
    assert_eq!(texts_utf8.len(), 1);
    assert_ne!(texts_utf8[0], "√¼=½");
    assert!(!texts_utf8[0].contains('\u{FFFD}'));
}

#[test]
fn codepage_cp850_decodes_extended_bytes() {
    let data = [0x82];
    let expected = String::from_cp::<Cp850>(&data);
    let parsed_cp850 = parse_escpos(&data, CodePage::Cp850);
    let texts_cp850 = collect_text(&parsed_cp850);
    assert_eq!(texts_cp850, vec![expected.clone()]);
    let parsed_utf8 = parse_escpos(&data, CodePage::Utf8Lossy);
    let texts_utf8 = collect_text(&parsed_utf8);
    assert_eq!(texts_utf8.len(), 1);
    assert!(!texts_utf8[0].contains('\u{FFFD}'));
    assert_ne!(texts_utf8[0], expected);
}

#[test]
fn utf8_auto_fallback_decodes_inverted_exclamation_from_cp1252() {
    let data = [0xA1, b'G', b'r', b'a', b'c', b'i', b'a', b's'];
    let parsed = parse_escpos(&data, CodePage::Utf8Lossy);
    let text = collect_text(&parsed).concat();
    assert!(text.contains("¡Gracias"));
}

#[test]
fn parses_raster_image_gs_v_0() {
    let data = [0x1D, 0x76, 0x30, 0x00, 0x01, 0x00, 0x01, 0x00, 0x80];
    let parsed = parse_escpos(&data, CodePage::Utf8Lossy);
    assert!(parsed.iter().any(|(_, c)| match c {
        CommandType::Control(Control::RasterImage { m: _, width_bytes, height, data }) => {
            *width_bytes == 1 && *height == 1 && data.len() == 1
        }
        _ => false,
    }));
}

fn qr_sequence(model: u8) -> Vec<u8> {
    let mut bytes = Vec::new();
    bytes.extend_from_slice(&[0x1D, 0x28, 0x6B, 0x04, 0x00, 0x31, 0x41, model, 0x00]);
    bytes.extend_from_slice(&[0x1D, 0x28, 0x6B, 0x03, 0x00, 0x31, 0x43, 0x04]);
    bytes.extend_from_slice(&[0x1D, 0x28, 0x6B, 0x03, 0x00, 0x31, 0x45, 0x30]);
    bytes.extend_from_slice(&[0x1D, 0x28, 0x6B, 0x05, 0x00, 0x31, 0x50, 0x30, b'H', b'I']);
    bytes.extend_from_slice(&[0x1D, 0x28, 0x6B, 0x03, 0x00, 0x31, 0x51, 0x30]);
    bytes
}

#[test]
fn parses_qr_gs_paren_k_store_and_print() {
    let bytes = qr_sequence(0x32);
    let parsed = parse_escpos(&bytes, CodePage::Utf8Lossy);
    assert!(parsed.iter().any(|(_, c)| match c {
        CommandType::Control(Control::Qr { data, .. }) => data == b"HI",
        _ => false,
    }));
}

#[test]
fn gs_bang_size_0x10_is_double_height_not_double_width() {
    let data = [0x1D, 0x21, 0x10, b'A'];
    let parsed = parse_escpos(&data, CodePage::Utf8Lossy);
    let a_state = parsed
        .iter()
        .find(|(_, c)| matches!(c, CommandType::Text(t) if t.contains('A')))
        .map(|(s, _)| s)
        .unwrap();
    assert_eq!(a_state.char_width_mul, 1);
    assert_eq!(a_state.char_height_mul, 2);
}

#[test]
fn gs_h_parameter_is_consumed_not_emitted_as_text() {
    let data = [0x1D, 0x48, b'2', b'A'];
    let parsed = parse_escpos(&data, CodePage::Utf8Lossy);
    let texts = collect_text(&parsed).concat();
    assert!(!texts.contains('2'));
    assert!(texts.contains('A'));
}

#[test]
fn qr_sequence_yields_one_symbol_and_empty_print_adds_none() {
    let mut bytes = qr_sequence(2);
    bytes.extend_from_slice(&[0x1D, 0x28, 0x6B, 0x03, 0x00, 0x31, 0x51, 0x30]);
    let parsed = parse_escpos(&bytes, CodePage::Utf8Lossy);
    assert_eq!(qr_commands(&parsed), vec![(2, 4, 48, b"HI".to_vec())]);
    assert_eq!(parsed.len(), 1);
}

#[test]
fn reset_clears_stored_qr_payload() {
    let mut bytes = Vec::new();
    bytes.extend_from_slice(&[0x1D, 0x28, 0x6B, 0x05, 0x00, 0x31, 0x50, 0x30, b'H', b'I']);
    bytes.extend_from_slice(&[0x1B, 0x40]);
    bytes.extend_from_slice(&[0x1D, 0x28, 0x6B, 0x03, 0x00, 0x31, 0x51, 0x30]);
    let parsed = parse_escpos(&bytes, CodePage::Utf8Lossy);
    assert!(qr_commands(&parsed).is_empty());
    assert_eq!(parsed.len(), 1);
    assert!(matches!(parsed[0].1, CommandType::Control(Control::Init)));
}

#[test]
fn reset_restores_every_setting() {
    let data = [
        0x1B, 0x45, 0x01, 0x1B, 0x61, 0x02, 0x1D, 0x21, 0x33, 0x1D, 0x48, 0x02, 0x1D, 0x68, 0x20,
        0x1D, 0x77, 0x05, 0x1D, 0x66, 0x01, 0x1B, 0x40, b'X',
    ];
    let parsed = parse_escpos(&data, CodePage::Utf8Lossy);
    let last = parsed.last().unwrap();
    assert!(matches!(&last.1, CommandType::Text(t) if t == "X"));
    assert_eq!(last.0, PrinterState::default());
    let init = &parsed[parsed.len() - 2];
    assert!(matches!(init.1, CommandType::Control(Control::Init)));
    assert!(init.0.is_bold);
    assert_eq!(init.0.alignment, Align::Right);
    assert_eq!(init.0.char_width_mul, 4);
    assert_eq!(init.0.char_height_mul, 4);
    assert_eq!(init.0.barcode_hri, BarcodeHriPosition::Below);
    assert_eq!(init.0.barcode_height, 0x20);
    assert_eq!(init.0.barcode_module_width, 5);
    assert_eq!(init.0.barcode_hri_font, 1);
}

#[test]
fn size_command_reports_raw_byte_and_multipliers() {
    let data = [0x1D, 0x21, 0x10];
    let parsed = parse_escpos(&data, CodePage::Utf8Lossy);
    assert_eq!(parsed.len(), 1);
    assert!(matches!(
        parsed[0].1,
        CommandType::Control(Control::Size { raw: 0x10, width: 1, height: 2 })
    ));
}

#[test]
fn hri_argument_becomes_position_command() {
    let data = [0x1D, 0x48, b'2', b'A'];
    let parsed = parse_escpos(&data, CodePage::Utf8Lossy);
    assert_eq!(parsed.len(), 2);
    assert!(matches!(
        parsed[0].1,
        CommandType::Control(Control::BarcodeHriPosition(BarcodeHriPosition::Hidden))
    ));
    assert!(matches!(&parsed[1].1, CommandType::Text(t) if t == "A"));
}

#[test]
fn truncated_and_empty_inputs_decode_without_fault() {
    assert!(parse_escpos(&[], CodePage::Utf8Lossy).is_empty());
    assert!(parse_escpos(&[0x1B], CodePage::Utf8Lossy).is_empty());
    assert!(parse_escpos(&[0x1D], CodePage::Utf8Lossy).is_empty());
    assert!(parse_escpos(&[0x1B, 0x45], CodePage::Utf8Lossy).is_empty());
    let raster = parse_escpos(&[0x1D, 0x76, 0x30, 0x00, 0x02, 0x00, 0x02, 0x00, 0x80], CodePage::Utf8Lossy);
    assert!(!raster.iter().any(|(_, c)| matches!(c, CommandType::Control(Control::RasterImage { .. }))));
    assert!(matches!(&raster[0].1, CommandType::Text(t) if t == "0"));
    assert_eq!(raster.len(), 7);
    let qr = parse_escpos(&[0x1D, 0x28, 0x6B, 0x09, 0x00, 0x31, 0x50], CodePage::Utf8Lossy);
    assert!(qr_commands(&qr).is_empty());
    assert!(matches!(&qr[0].1, CommandType::Text(t) if t == "k"));
    let cut = parse_escpos(&[0x1D, 0x56], CodePage::Utf8Lossy);
    assert_eq!(cut.len(), 1);
    assert!(matches!(cut[0].1, CommandType::Control(Control::Cut)));
}

#[test]
fn unknown_bytes_and_opcodes_are_reported() {
    let data = [0x07, 0x1B, 0x99, 0x1D, 0x99, 0x0D];
    let parsed = parse_escpos(&data, CodePage::Utf8Lossy);
    assert_eq!(parsed.len(), 3);
    assert!(matches!(parsed[0].1, CommandType::Unknown(0x07)));
    assert!(matches!(parsed[1].1, CommandType::Control(Control::EscUnknown(0x99))));
    assert!(matches!(parsed[2].1, CommandType::Control(Control::GsUnknown(0x99))));
}

#[test]
fn barcode_payload_framings() {
    let nul = [0x1D, 0x6B, 0x02, b'1', b'2', 0x00, b'Z'];
    let parsed = parse_escpos(&nul, CodePage::Utf8Lossy);
    assert_eq!(parsed.len(), 2);
    assert!(matches!(&parsed[0].1, CommandType::Control(Control::Barcode { m: 2, data }) if data == b"12"));
    let prefixed = [0x1D, 0x6B, 0x49, 0x03, b'{', b'B', b'x', b'Y'];
    let parsed = parse_escpos(&prefixed, CodePage::Utf8Lossy);
    assert_eq!(parsed.len(), 2);
    assert!(matches!(&parsed[0].1, CommandType::Control(Control::Barcode { m: 0x49, data }) if data == b"{Bx"));
    let unterminated = [0x1D, 0x6B, 0x00, b'9', b'9'];
    let parsed = parse_escpos(&unterminated, CodePage::Utf8Lossy);
    assert_eq!(parsed.len(), 1);
    assert!(matches!(&parsed[0].1, CommandType::Control(Control::Barcode { m: 0, data }) if data == b"99"));
}

#[test]
fn alignment_and_barcode_settings() {
    let data = [0x1B, 0x61, 0x31, 0x1D, 0x68, 0x00, 0x1D, 0x77, 0x00];
    let parsed = parse_escpos(&data, CodePage::Utf8Lossy);
    assert_eq!(parsed.len(), 3);
    assert!(matches!(parsed[0].1, CommandType::Control(Control::Align(Align::Center))));
    assert!(matches!(parsed[1].1, CommandType::Control(Control::BarcodeHeight(1))));
    assert!(matches!(parsed[2].1, CommandType::Control(Control::BarcodeModuleWidth(1))));
    assert_eq!(parsed[2].0.alignment, Align::Center);
}

#[test]
fn decode_step_resumes_from_returned_position() {
    let data = b"AB\nC";
    let mut st = DecoderState::new();
    let (first, next) = decode_step(data, 0, &mut st, CodePage::Utf8Lossy);
    assert_eq!(next, 2);
    assert!(matches!(first, Some((_, CommandType::Text(ref t))) if t == "AB"));
    let (second, next) = decode_step(data, next, &mut st, CodePage::Utf8Lossy);
    assert_eq!(next, 3);
    assert!(matches!(second, Some((_, CommandType::Control(Control::Newline)))));
}

#[test]
fn latin1_and_windows1252_code_pages() {
    let data = [0x80, 0xE9];
    let latin1 = collect_text(&parse_escpos(&data, CodePage::Iso88591));
    assert_eq!(latin1, vec!["\u{80}é".to_string()]);
    let cp1252 = collect_text(&parse_escpos(&data, CodePage::Windows1252));
    assert_eq!(cp1252, vec!["€é".to_string()]);
}
