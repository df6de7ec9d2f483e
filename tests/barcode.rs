use escpos_viewer::barcode::{bits01_to_runs, encode_barcode, encode_ean_runs, encode_itf_runs, ean_check_digit_of};
use escpos_viewer::code128::{clean_code128_hri, code128_checksum, encode_code128_runs, encode_code128_text};

#[test]
fn runs_of_bit_string() {
    assert_eq!(bits01_to_runs(&[]), None);
    assert_eq!(bits01_to_runs(&[1, 1, 0, 1, 1, 1]), Some((vec![2, 1, 3], true)));
    assert_eq!(bits01_to_runs(&[0, 0, 0]), Some((vec![3], false)));
    let long = vec![1u8; 300];
    assert_eq!(bits01_to_runs(&long), Some((vec![255], true)));
}

#[test]
fn ean13_from_twelve_digit_payload() {
    let (runs, label) = encode_ean_runs("401234567890").unwrap();
    assert_eq!(label, "4012345678901");
    assert_eq!(runs.iter().map(|&r| r as u32).sum::<u32>(), 95);
    assert_eq!(
        runs,
        vec![
            1, 1, 1, 3, 2, 1, 1, 1, 2, 2, 2, 2, 1, 2, 2, 1, 4, 1, 1, 2, 3, 1, 1, 1, 3, 2, 1, 1, 1,
            1, 1, 1, 1, 1, 1, 4, 1, 3, 1, 2, 1, 2, 1, 3, 3, 1, 1, 2, 3, 2, 1, 1, 2, 2, 2, 1, 1, 1, 1
        ]
    );
}

#[test]
fn ean_check_digit_weights_from_the_right() {
    let digits = vec![4, 0, 1, 2, 3, 4, 5, 6, 7, 8, 9, 0];
    assert_eq!(ean_check_digit_of(&digits), 1);
    assert_eq!(ean_check_digit_of(&vec![4, 0, 1, 2, 3, 4, 5]), 5);
}

#[test]
fn ean_eleven_digits_is_rejected() {
    assert_eq!(encode_ean_runs("40123456789"), None);
    assert_eq!(encode_ean_runs(""), None);
}

#[test]
fn ean8_from_seven_digits_and_non_digits_dropped() {
    let (runs, label) = encode_ean_runs("40-12 345").unwrap();
    assert_eq!(label, "40123455");
    assert_eq!(runs.iter().map(|&r| r as u32).sum::<u32>(), 67);
    assert_eq!(
        runs,
        vec![
            1, 1, 1, 1, 1, 3, 2, 3, 2, 1, 1, 2, 2, 2, 1, 2, 1, 2, 2, 1, 1, 1, 1, 1, 1, 4, 1, 1, 1,
            1, 3, 2, 1, 2, 3, 1, 1, 2, 3, 1, 1, 1, 1
        ]
    );
}

#[test]
fn itf_pads_odd_digit_count() {
    let (runs, label) = encode_itf_runs("123").unwrap();
    assert_eq!(label, "0123");
    assert_eq!(
        runs,
        vec![1, 1, 1, 1, 1, 3, 1, 1, 3, 1, 3, 1, 1, 3, 1, 3, 3, 3, 1, 1, 1, 1, 3, 1, 3, 1, 1]
    );
    assert_eq!(encode_itf_runs("abc"), None);
}

#[test]
fn code128_checksum_of_set_b_payload() {
    // "Hello" in code set B: values 40, 69, 76, 76, 79 after start 104.
    let codes = [40u8, 69, 76, 76, 79];
    let expected = (104u32 + 40 + 69 * 2 + 76 * 3 + 76 * 4 + 79 * 5) % 103;
    assert_eq!(expected, 76);
    assert_eq!(code128_checksum(104, &codes), 76);
}

#[test]
fn code128_single_character_edits_change_checksum() {
    let base = b"Hello";
    let unedited = code128_checksum(104, &base.iter().map(|b| b - 32).collect::<Vec<u8>>());
    for pos in 0..base.len() {
        for c in 32u8..=126 {
            if c == base[pos] {
                continue;
            }
            let mut edited = base.to_vec();
            edited[pos] = c;
            let codes: Vec<u8> = edited.iter().map(|b| b - 32).collect();
            assert_ne!(code128_checksum(104, &codes), unedited);
        }
    }
}

#[test]
fn code128_runs_of_set_b_payload() {
    let (runs, label) = encode_code128_runs(b"{BHello").unwrap();
    assert_eq!(label, "Hello");
    assert_eq!(runs.len(), 6 * 7 + 7);
    assert_eq!(&runs[0..6], &[2, 1, 1, 2, 1, 4]);
    assert_eq!(&runs[36..42], &[2, 2, 1, 1, 1, 4]);
    assert_eq!(&runs[42..49], &[2, 3, 3, 1, 1, 1, 2]);
}

#[test]
fn code128_set_c_digit_pairs_and_markers() {
    let (runs, label) = encode_code128_text("{C1234{{x").unwrap();
    // start C (105), 12, 34, switch to B (100), '{' (91), 'x' (88), check, stop
    let check = (105u32 + 12 + 34 * 2 + 100 * 3 + 91 * 4 + 88 * 5) % 103;
    assert_eq!(runs.len(), 6 * 7 + 7);
    assert_eq!(label, "1234{x");
    let mut with_check = encode_code128_text("{C1234{{x").unwrap().0;
    with_check.truncate(42);
    assert_eq!(check, 53);
    assert_eq!(&with_check[36..42], &[2, 1, 3, 1, 3, 1]);
    assert_eq!(encode_code128_text(""), None);
    assert_eq!(encode_code128_text("{B"), None);
}

#[test]
fn code128_label_drops_markers() {
    assert_eq!(clean_code128_hri(b"{Aab{1c{{d{Ze"), "abc{d{Ze");
}

#[test]
fn barcode_dispatch_by_symbology() {
    let ean = encode_barcode(0x43, b"401234567890").unwrap();
    assert!(ean.1);
    assert_eq!(ean.2, "4012345678901");
    let itf = encode_barcode(0x46, b"12").unwrap();
    assert_eq!(itf.2, "12");
    let c128 = encode_barcode(0x49, b"{BHi").unwrap();
    assert_eq!(c128.2, "Hi");
    assert_eq!(encode_barcode(0x41, b"123"), None);
}

#[test]
fn code128_label_reads_invalid_utf8_lossily() {
    assert_eq!(clean_code128_hri(b"a\xFFb"), "a\u{FFFD}b");
    let (_, label) = encode_code128_runs(b"{Bx\xFFy").unwrap();
    assert_eq!(label, "x\u{FFFD}y");
}
