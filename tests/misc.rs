use escpos_viewer::escpos::parse_escpos;
use escpos_viewer::hex_dump::pretty_hex;
use escpos_viewer::model::{CodePage, CommandType, PaperWidth, PrinterState};
use escpos_viewer::printer_setup::{install_printer, setup_outcome, uninstall_printer};
use escpos_viewer::model::Align;
use escpos_viewer::viewer::{
    alignment_padding, base_columns, effective_columns, format_age_short, should_ignore_tcp_job,
    split_and_wrap,
};
use escpos_viewer::window_control::{ShowMode, WindowControl, WindowOp, WindowRect};

#[test]
fn hex_dump_lines_of_sixteen() {
    let data: Vec<u8> = (0u8..18).collect();
    assert_eq!(
        pretty_hex(&data),
        "0000: 00 01 02 03 04 05 06 07 08 09 0a 0b 0c 0d 0e 0f \n0010: 10 11 \n"
    );
    assert_eq!(pretty_hex(&[]), "");
}

#[test]
fn hex_dump_wide_offsets() {
    let data = vec![0xABu8; 0x10001];
    let dump = pretty_hex(&data);
    assert!(dump.ends_with("\n10000: ab \n"));
}

#[test]
fn printer_setup_outcomes() {
    assert_eq!(install_printer(), Err("Instalación de impresora solo soportada en Windows".to_string()));
    assert_eq!(uninstall_printer(), Err("Desinstalación de impresora solo soportada en Windows".to_string()));
    assert_eq!(setup_outcome(true, "t", "o", "e"), Ok(()));
    assert_eq!(setup_outcome(false, "Fallo", "out", "err"), Err("Fallo\nSTDOUT:\nout\nSTDERR:\nerr".to_string()));
}

#[test]
fn noise_jobs_are_ignored() {
    assert!(should_ignore_tcp_job(&[], CodePage::Utf8Lossy, true, 32));
    assert!(should_ignore_tcp_job(&[0x10, 0x04, 0x01, b' '], CodePage::Utf8Lossy, true, 32));
    assert!(!should_ignore_tcp_job(&[0x10, 0x04, 0x01, b' '], CodePage::Utf8Lossy, false, 32));
    assert!(!should_ignore_tcp_job(b"ok", CodePage::Utf8Lossy, true, 32));
    assert!(!should_ignore_tcp_job(&[0x1D, 0x56, 0x00], CodePage::Utf8Lossy, true, 32));
    assert!(!should_ignore_tcp_job(&[0x10; 40], CodePage::Utf8Lossy, true, 32));
}

#[test]
fn columns_follow_width_only() {
    assert_eq!(base_columns(PaperWidth::W58mm), 32);
    assert_eq!(base_columns(PaperWidth::W80mm), 48);
    let mut st = PrinterState::default();
    st.char_height_mul = 2;
    assert_eq!(effective_columns(PaperWidth::W58mm, &st), 32);
    st.char_width_mul = 3;
    assert_eq!(effective_columns(PaperWidth::W80mm, &st), 16);
    st.char_width_mul = 0;
    assert_eq!(effective_columns(PaperWidth::W58mm, &st), 32);
    st.char_width_mul = 100;
    assert_eq!(effective_columns(PaperWidth::W58mm, &st), 1);
}

#[test]
fn window_operations_need_a_handle() {
    let mut w = WindowControl::new();
    assert!(w.hide_to_tray().is_empty());
    assert!(w.show_and_focus().is_empty());
    w.try_update_from_handle(42);
    w.try_update_from_handle(0);
    assert_eq!(w.hwnd, 42);
    assert_eq!(w.hide_to_tray(), vec![WindowOp::SetTaskbarVisible(false), WindowOp::Show(ShowMode::Hide)]);
    assert_eq!(w.show_and_focus().len(), 7);
}

#[test]
fn window_placement() {
    let w = WindowControl { hwnd: 7 };
    let win = WindowRect { left: 0, top: 0, right: 400, bottom: 300 };
    let work = WindowRect { left: 0, top: 0, right: 1920, bottom: 1040 };
    assert_eq!(w.snap_near_right(10, win, work), Some((1510, 730)));
    assert_eq!(w.center_on_screen(win, work), Some((760, 370)));
    assert_eq!(WindowControl::new().center_on_screen(win, work), None);
}

#[test]
fn wrapping_at_newlines_and_width() {
    assert_eq!(split_and_wrap("abcdef\ngh", 4), vec!["abcd", "ef", "gh"]);
    assert_eq!(split_and_wrap("", 4), vec![""]);
    assert_eq!(split_and_wrap("ab\n", 4), vec!["ab"]);
    assert_eq!(split_and_wrap("abc", 0), vec!["abc"]);
    assert_eq!(split_and_wrap("\n\nx", 2), vec!["", "", "x"]);
}

#[test]
fn oem_code_pages_decode_high_bytes() {
    let text = |data: &[u8], cp: CodePage| -> String {
        parse_escpos(data, cp)
            .into_iter()
            .filter_map(|(_, c)| match c {
                CommandType::Text(t) => Some(t),
                _ => None,
            })
            .collect()
    };
    assert_eq!(text(&[0xD5], CodePage::Pc858), "€");
    assert_eq!(text(&[0x84], CodePage::Cp860), "ã");
    assert_eq!(text(&[0x9B], CodePage::Cp865), "ø");
    assert_eq!(text(&[0x80], CodePage::Cp866), "А");
    assert_eq!(text(&[b'a', 0x82], CodePage::Cp437), "aé");
}

#[test]
fn short_ages() {
    assert_eq!(format_age_short(0), "0s");
    assert_eq!(format_age_short(59), "59s");
    assert_eq!(format_age_short(60), "1m");
    assert_eq!(format_age_short(3599), "59m");
    assert_eq!(format_age_short(7200), "2h");
    assert_eq!(format_age_short(360000), "100h");
}

#[test]
fn alignment_pads_short_lines() {
    assert_eq!(alignment_padding(10, 32, Align::Left), 0);
    assert_eq!(alignment_padding(10, 32, Align::Center), 11);
    assert_eq!(alignment_padding(10, 32, Align::Right), 22);
    assert_eq!(alignment_padding(40, 32, Align::Right), 0);
}
