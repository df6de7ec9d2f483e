//! Code 128 encoding: code-set switching through `{A`, `{B`, `{C`, `{1` and
//! `{{` markers, the modulo-103 checksum, and the human-readable label.

use vstd::prelude::*;
use vstd::arithmetic::div_mod::{
    lemma_add_mod_noop, lemma_mul_mod_noop_left, lemma_mul_mod_noop_right, lemma_sub_mod_noop,
};
use vstd::arithmetic::mul::{lemma_mul_is_associative, lemma_mul_is_distributive_sub_other_way};
use vstd::string::StringSliceAdditionalSpecFns;
use vstd::utf8::encode_utf8;
use crate::text::{lossy_text, push_char, str_chars, utf8_lossy};

verus! {

/// The three Code 128 symbol-interpretation tables.
#[derive(Clone, Copy, PartialEq, Eq, Structural, Debug)]
pub enum CodeSet {
    A,
    B,
    C,
}

/// The start symbol of a code set.
pub open spec fn c128_start(set: CodeSet) -> u8 {
    match set {
        CodeSet::A => 103,
        CodeSet::B => 104,
        CodeSet::C => 105,
    }
}

/// The code set a payload starts in and the length of the `{A`/`{B`/`{C`
/// prefix that selects it (code set B, no prefix, otherwise).
pub open spec fn c128_prefix(bytes: Seq<u8>) -> (CodeSet, int) {
    if bytes.len() >= 2 && bytes[0] == 0x7B && bytes[1] == 0x41 {
        (CodeSet::A, 2)
    } else if bytes.len() >= 2 && bytes[0] == 0x7B && bytes[1] == 0x42 {
        (CodeSet::B, 2)
    } else if bytes.len() >= 2 && bytes[0] == 0x7B && bytes[1] == 0x43 {
        (CodeSet::C, 2)
    } else {
        (CodeSet::B, 0)
    }
}

pub open spec fn is_digit_byte(b: u8) -> bool {
    0x30 <= b <= 0x39
}

/// A byte after `{` that makes a two-byte marker: `{`, `A`, `B`, `C` or `1`.
pub open spec fn is_marker_byte(b: u8) -> bool {
    b == 0x7B || b == 0x41 || b == 0x42 || b == 0x43 || b == 0x31
}

/// One encoding step at position `i` in code set `set`: the symbol values
/// emitted, the next position and the next code set.
pub open spec fn c128_step(bytes: Seq<u8>, i: int, set: CodeSet) -> (Seq<u8>, int, CodeSet) {
    let b = bytes[i];
    if b == 0x7B && i + 1 < bytes.len() && is_marker_byte(bytes[i + 1]) {
        let n = bytes[i + 1];
        if n == 0x7B {
            if set == CodeSet::C {
                (seq![100u8, 91], i + 2, CodeSet::B)
            } else {
                (seq![91u8], i + 2, set)
            }
        } else if n == 0x41 {
            (seq![101u8], i + 2, CodeSet::A)
        } else if n == 0x42 {
            (seq![100u8], i + 2, CodeSet::B)
        } else if n == 0x43 {
            (seq![99u8], i + 2, CodeSet::C)
        } else {
            (seq![102u8], i + 2, set)
        }
    } else {
        match set {
            CodeSet::C => if i + 1 < bytes.len() && is_digit_byte(b) && is_digit_byte(bytes[i + 1]) {
                (seq![((b - 48) * 10 + (bytes[i + 1] - 48)) as u8], i + 2, CodeSet::C)
            } else {
                (seq![100u8], i, CodeSet::B)
            },
            CodeSet::B => (
                seq![
                    if 32 <= b <= 127 {
                        (b - 32) as u8
                    } else {
                        31u8
                    },
                ],
                i + 1,
                CodeSet::B,
            ),
            CodeSet::A => (
                seq![
                    if b < 32 {
                        (b + 64) as u8
                    } else if b <= 95 {
                        (b - 32) as u8
                    } else {
                        31u8
                    },
                ],
                i + 1,
                CodeSet::A,
            ),
        }
    }
}

pub open spec fn set_rank(set: CodeSet) -> int {
    if set == CodeSet::C {
        1
    } else {
        0
    }
}

/// The symbol values of the payload from position `i` on, in code set `set`.
pub open spec fn c128_codes(bytes: Seq<u8>, i: int, set: CodeSet) -> Seq<u8>
    decreases bytes.len() - i, set_rank(set),
{
    if i < 0 || i >= bytes.len() {
        Seq::empty()
    } else {
        let s = c128_step(bytes, i, set);
        if i < s.1 <= bytes.len() || (s.1 == i && set_rank(s.2) < set_rank(set)) {
            s.0 + c128_codes(bytes, s.1, s.2)
        } else {
            s.0
        }
    }
}

/// `Σ codes[k] × (k + 1)` over the first `n` symbol values.
pub open spec fn weighted_sum(codes: Seq<u8>, n: int) -> int
    decreases n,
{
    if n <= 0 {
        0
    } else {
        weighted_sum(codes, n - 1) + codes[n - 1] * n
    }
}

/// The Code 128 check symbol: `(start + Σ value_i × i) mod 103`, positions from 1.
pub open spec fn c128_checksum(start: u8, codes: Seq<u8>) -> int {
    (start + weighted_sum(codes, codes.len() as int)) % 103
}

/// Bar and space widths of each Code 128 symbol value; the stop symbol (106) has seven.
pub open spec fn c128_pattern(code: u8) -> Seq<u8> {
    match code {
        0 => seq![2, 1, 2, 2, 2, 2],
        1 => seq![2, 2, 2, 1, 2, 2],
        2 => seq![2, 2, 2, 2, 2, 1],
        3 => seq![1, 2, 1, 2, 2, 3],
        4 => seq![1, 2, 1, 3, 2, 2],
        5 => seq![1, 3, 1, 2, 2, 2],
        6 => seq![1, 2, 2, 2, 1, 3],
        7 => seq![1, 2, 2, 3, 1, 2],
        8 => seq![1, 3, 2, 2, 1, 2],
        9 => seq![2, 2, 1, 2, 1, 3],
        10 => seq![2, 2, 1, 3, 1, 2],
        11 => seq![2, 3, 1, 2, 1, 2],
        12 => seq![1, 1, 2, 2, 3, 2],
        13 => seq![1, 2, 2, 1, 3, 2],
        14 => seq![1, 2, 2, 2, 3, 1],
        15 => seq![1, 1, 3, 2, 2, 2],
        16 => seq![1, 2, 3, 1, 2, 2],
        17 => seq![1, 2, 3, 2, 2, 1],
        18 => seq![2, 2, 3, 2, 1, 1],
        19 => seq![2, 2, 1, 1, 3, 2],
        20 => seq![2, 2, 1, 2, 3, 1],
        21 => seq![2, 1, 3, 2, 1, 2],
        22 => seq![2, 2, 3, 1, 1, 2],
        23 => seq![3, 1, 2, 1, 3, 1],
        24 => seq![3, 1, 1, 2, 2, 2],
        25 => seq![3, 2, 1, 1, 2, 2],
        26 => seq![3, 2, 1, 2, 2, 1],
        27 => seq![3, 1, 2, 2, 1, 2],
        28 => seq![3, 2, 2, 1, 1, 2],
        29 => seq![3, 2, 2, 2, 1, 1],
        30 => seq![2, 1, 2, 1, 2, 3],
        31 => seq![2, 1, 2, 3, 2, 1],
        32 => seq![2, 3, 2, 1, 2, 1],
        33 => seq![1, 1, 1, 3, 2, 3],
        34 => seq![1, 3, 1, 1, 2, 3],
        35 => seq![1, 3, 1, 3, 2, 1],
        36 => seq![1, 1, 2, 3, 1, 3],
        37 => seq![1, 3, 2, 1, 1, 3],
        38 => seq![1, 3, 2, 3, 1, 1],
        39 => seq![2, 1, 1, 3, 1, 3],
        40 => seq![2, 3, 1, 1, 1, 3],
        41 => seq![2, 3, 1, 3, 1, 1],
        42 => seq![1, 1, 2, 1, 3, 3],
        43 => seq![1, 1, 2, 3, 3, 1],
        44 => seq![1, 3, 2, 1, 3, 1],
        45 => seq![1, 1, 3, 1, 2, 3],
        46 => seq![1, 1, 3, 3, 2, 1],
        47 => seq![1, 3, 3, 1, 2, 1],
        48 => seq![3, 1, 3, 1, 2, 1],
        49 => seq![2, 1, 1, 3, 3, 1],
        50 => seq![2, 3, 1, 1, 3, 1],
        51 => seq![2, 1, 3, 1, 1, 3],
        52 => seq![2, 1, 3, 3, 1, 1],
        53 => seq![2, 1, 3, 1, 3, 1],
        54 => seq![3, 1, 1, 1, 2, 3],
        55 => seq![3, 1, 1, 3, 2, 1],
        56 => seq![3, 3, 1, 1, 2, 1],
        57 => seq![3, 1, 2, 1, 1, 3],
        58 => seq![3, 1, 2, 3, 1, 1],
        59 => seq![3, 3, 2, 1, 1, 1],
        60 => seq![3, 1, 4, 1, 1, 1],
        61 => seq![2, 2, 1, 4, 1, 1],
        62 => seq![4, 3, 1, 1, 1, 1],
        63 => seq![1, 1, 1, 2, 2, 4],
        64 => seq![1, 1, 1, 4, 2, 2],
        65 => seq![1, 2, 1, 1, 2, 4],
        66 => seq![1, 2, 1, 4, 2, 1],
        67 => seq![1, 4, 1, 1, 2, 2],
        68 => seq![1, 4, 1, 2, 2, 1],
        69 => seq![1, 1, 2, 2, 1, 4],
        70 => seq![1, 1, 2, 4, 1, 2],
        71 => seq![1, 2, 2, 1, 1, 4],
        72 => seq![1, 2, 2, 4, 1, 1],
        73 => seq![1, 4, 2, 1, 1, 2],
        74 => seq![1, 4, 2, 2, 1, 1],
        75 => seq![2, 4, 1, 2, 1, 1],
        76 => seq![2, 2, 1, 1, 1, 4],
        77 => seq![4, 1, 3, 1, 1, 1],
        78 => seq![2, 4, 1, 1, 1, 2],
        79 => seq![1, 3, 4, 1, 1, 1],
        80 => seq![1, 1, 1, 2, 4, 2],
        81 => seq![1, 2, 1, 1, 4, 2],
        82 => seq![1, 2, 1, 2, 4, 1],
        83 => seq![1, 1, 4, 2, 1, 2],
        84 => seq![1, 2, 4, 1, 1, 2],
        85 => seq![1, 2, 4, 2, 1, 1],
        86 => seq![4, 1, 1, 2, 1, 2],
        87 => seq![4, 2, 1, 1, 1, 2],
        88 => seq![4, 2, 1, 2, 1, 1],
        89 => seq![2, 1, 2, 1, 4, 1],
        90 => seq![2, 1, 4, 1, 2, 1],
        91 => seq![4, 1, 2, 1, 2, 1],
        92 => seq![1, 1, 1, 1, 4, 3],
        93 => seq![1, 1, 1, 3, 4, 1],
        94 => seq![1, 3, 1, 1, 4, 1],
        95 => seq![1, 1, 4, 1, 1, 3],
        96 => seq![1, 1, 4, 3, 1, 1],
        97 => seq![4, 1, 1, 1, 1, 3],
        98 => seq![4, 1, 1, 3, 1, 1],
        99 => seq![1, 1, 3, 1, 4, 1],
        100 => seq![1, 1, 4, 1, 3, 1],
        101 => seq![3, 1, 1, 1, 4, 1],
        102 => seq![4, 1, 1, 1, 3, 1],
        103 => seq![2, 1, 1, 4, 1, 2],
        104 => seq![2, 1, 1, 2, 1, 4],
        105 => seq![2, 1, 1, 2, 3, 2],
        _ => seq![2, 3, 3, 1, 1, 1, 2],
    }
}


/// The widths of the first `n` symbols, concatenated.
pub open spec fn c128_runs(syms: Seq<u8>, n: int) -> Seq<u8>
    decreases n,
{
    if n <= 0 {
        Seq::empty()
    } else {
        c128_runs(syms, n - 1) + c128_pattern(syms[n - 1])
    }
}

/// The symbol values of a whole payload: start, data, check symbol, stop.
pub open spec fn c128_symbols(bytes: Seq<u8>) -> Seq<u8> {
    let (set, skip) = c128_prefix(bytes);
    let codes = c128_codes(bytes, skip, set);
    seq![c128_start(set)] + codes + seq![c128_checksum(c128_start(set), codes) as u8, 106u8]
}

/// The human-readable label from position `i` on: `{{` prints one brace,
/// code-set and FNC markers are dropped, any other `{` prints as itself.
pub open spec fn hri_chars(cs: Seq<char>, i: int) -> Seq<char>
    decreases cs.len() - i,
{
    if i < 0 || i >= cs.len() {
        Seq::empty()
    } else if cs[i] == '{' && i + 1 < cs.len() && cs[i + 1] == '{' {
        seq!['{'] + hri_chars(cs, i + 2)
    } else if cs[i] == '{' && i + 1 < cs.len() && ('A' <= cs[i + 1] <= 'C' || '1' <= cs[i + 1]
        <= '4') {
        hri_chars(cs, i + 2)
    } else {
        seq![cs[i]] + hri_chars(cs, i + 1)
    }
}

/// Runs and label of a Code 128 payload given as text; nothing when the
/// payload is empty once its code-set prefix is removed.
pub open spec fn c128_encoding(text: Seq<char>) -> Option<(Seq<u8>, Seq<char>)> {
    let bytes = encode_utf8(text);
    if bytes.len() <= c128_prefix(bytes).1 {
        None
    } else {
        let syms = c128_symbols(bytes);
        Some((c128_runs(syms, syms.len() as int), hri_chars(text, 0)))
    }
}

pub open spec fn all_symbols(codes: Seq<u8>) -> bool {
    forall|k: int| 0 <= k < codes.len() ==> #[trigger] codes[k] <= 105
}

fn c128_pattern_exec(code: u8) -> (r: Vec<u8>)
    requires
        code <= 106,
    ensures
        r@ == c128_pattern(code),
{
    let r = match code {
        0 => vec![2, 1, 2, 2, 2, 2],
        1 => vec![2, 2, 2, 1, 2, 2],
        2 => vec![2, 2, 2, 2, 2, 1],
        3 => vec![1, 2, 1, 2, 2, 3],
        4 => vec![1, 2, 1, 3, 2, 2],
        5 => vec![1, 3, 1, 2, 2, 2],
        6 => vec![1, 2, 2, 2, 1, 3],
        7 => vec![1, 2, 2, 3, 1, 2],
        8 => vec![1, 3, 2, 2, 1, 2],
        9 => vec![2, 2, 1, 2, 1, 3],
        10 => vec![2, 2, 1, 3, 1, 2],
        11 => vec![2, 3, 1, 2, 1, 2],
        12 => vec![1, 1, 2, 2, 3, 2],
        13 => vec![1, 2, 2, 1, 3, 2],
        14 => vec![1, 2, 2, 2, 3, 1],
        15 => vec![1, 1, 3, 2, 2, 2],
        16 => vec![1, 2, 3, 1, 2, 2],
        17 => vec![1, 2, 3, 2, 2, 1],
        18 => vec![2, 2, 3, 2, 1, 1],
        19 => vec![2, 2, 1, 1, 3, 2],
        20 => vec![2, 2, 1, 2, 3, 1],
        21 => vec![2, 1, 3, 2, 1, 2],
        22 => vec![2, 2, 3, 1, 1, 2],
        23 => vec![3, 1, 2, 1, 3, 1],
        24 => vec![3, 1, 1, 2, 2, 2],
        25 => vec![3, 2, 1, 1, 2, 2],
        26 => vec![3, 2, 1, 2, 2, 1],
        27 => vec![3, 1, 2, 2, 1, 2],
        28 => vec![3, 2, 2, 1, 1, 2],
        29 => vec![3, 2, 2, 2, 1, 1],
        30 => vec![2, 1, 2, 1, 2, 3],
        31 => vec![2, 1, 2, 3, 2, 1],
        32 => vec![2, 3, 2, 1, 2, 1],
        33 => vec![1, 1, 1, 3, 2, 3],
        34 => vec![1, 3, 1, 1, 2, 3],
        35 => vec![1, 3, 1, 3, 2, 1],
        36 => vec![1, 1, 2, 3, 1, 3],
        37 => vec![1, 3, 2, 1, 1, 3],
        38 => vec![1, 3, 2, 3, 1, 1],
        39 => vec![2, 1, 1, 3, 1, 3],
        40 => vec![2, 3, 1, 1, 1, 3],
        41 => vec![2, 3, 1, 3, 1, 1],
        42 => vec![1, 1, 2, 1, 3, 3],
        43 => vec![1, 1, 2, 3, 3, 1],
        44 => vec![1, 3, 2, 1, 3, 1],
        45 => vec![1, 1, 3, 1, 2, 3],
        46 => vec![1, 1, 3, 3, 2, 1],
        47 => vec![1, 3, 3, 1, 2, 1],
        48 => vec![3, 1, 3, 1, 2, 1],
        49 => vec![2, 1, 1, 3, 3, 1],
        50 => vec![2, 3, 1, 1, 3, 1],
        51 => vec![2, 1, 3, 1, 1, 3],
        52 => vec![2, 1, 3, 3, 1, 1],
        53 => vec![2, 1, 3, 1, 3, 1],
        54 => vec![3, 1, 1, 1, 2, 3],
        55 => vec![3, 1, 1, 3, 2, 1],
        56 => vec![3, 3, 1, 1, 2, 1],
        57 => vec![3, 1, 2, 1, 1, 3],
        58 => vec![3, 1, 2, 3, 1, 1],
        59 => vec![3, 3, 2, 1, 1, 1],
        60 => vec![3, 1, 4, 1, 1, 1],
        61 => vec![2, 2, 1, 4, 1, 1],
        62 => vec![4, 3, 1, 1, 1, 1],
        63 => vec![1, 1, 1, 2, 2, 4],
        64 => vec![1, 1, 1, 4, 2, 2],
        65 => vec![1, 2, 1, 1, 2, 4],
        66 => vec![1, 2, 1, 4, 2, 1],
        67 => vec![1, 4, 1, 1, 2, 2],
        68 => vec![1, 4, 1, 2, 2, 1],
        69 => vec![1, 1, 2, 2, 1, 4],
        70 => vec![1, 1, 2, 4, 1, 2],
        71 => vec![1, 2, 2, 1, 1, 4],
        72 => vec![1, 2, 2, 4, 1, 1],
        73 => vec![1, 4, 2, 1, 1, 2],
        74 => vec![1, 4, 2, 2, 1, 1],
        75 => vec![2, 4, 1, 2, 1, 1],
        76 => vec![2, 2, 1, 1, 1, 4],
        77 => vec![4, 1, 3, 1, 1, 1],
        78 => vec![2, 4, 1, 1, 1, 2],
        79 => vec![1, 3, 4, 1, 1, 1],
        80 => vec![1, 1, 1, 2, 4, 2],
        81 => vec![1, 2, 1, 1, 4, 2],
        82 => vec![1, 2, 1, 2, 4, 1],
        83 => vec![1, 1, 4, 2, 1, 2],
        84 => vec![1, 2, 4, 1, 1, 2],
        85 => vec![1, 2, 4, 2, 1, 1],
        86 => vec![4, 1, 1, 2, 1, 2],
        87 => vec![4, 2, 1, 1, 1, 2],
        88 => vec![4, 2, 1, 2, 1, 1],
        89 => vec![2, 1, 2, 1, 4, 1],
        90 => vec![2, 1, 4, 1, 2, 1],
        91 => vec![4, 1, 2, 1, 2, 1],
        92 => vec![1, 1, 1, 1, 4, 3],
        93 => vec![1, 1, 1, 3, 4, 1],
        94 => vec![1, 3, 1, 1, 4, 1],
        95 => vec![1, 1, 4, 1, 1, 3],
        96 => vec![1, 1, 4, 3, 1, 1],
        97 => vec![4, 1, 1, 1, 1, 3],
        98 => vec![4, 1, 1, 3, 1, 1],
        99 => vec![1, 1, 3, 1, 4, 1],
        100 => vec![1, 1, 4, 1, 3, 1],
        101 => vec![3, 1, 1, 1, 4, 1],
        102 => vec![4, 1, 1, 1, 3, 1],
        103 => vec![2, 1, 1, 4, 1, 2],
        104 => vec![2, 1, 1, 2, 1, 4],
        105 => vec![2, 1, 1, 2, 3, 2],
        _ => vec![2, 3, 3, 1, 1, 1, 2],
    };
    assert(r@ =~= c128_pattern(code));
    r
}

/// Computes the Code 128 check symbol of the data symbols `codes` after the start symbol `start`.
pub fn code128_checksum(start: u8, codes: &[u8]) -> (r: u8)
    ensures
        r == c128_checksum(start, codes@),
        r < 103,
{
    let mut acc: u32 = (start % 103) as u32;
    let mut k: usize = 0;
    while k < codes.len()
        invariant
            k <= codes@.len(),
            acc == (start + weighted_sum(codes@, k as int)) % 103,
            acc < 103,
        decreases codes@.len() - k,
    {
        let c = codes[k] as u32;
        let w: u32 = ((k % 103) + 1) as u32;
        let ghost x = start + weighted_sum(codes@, k as int);
        let ghost y = c * (k + 1);
        proof {
            lemma_add_mod_noop(x, y, 103);
            lemma_add_mod_noop(acc as int, c * (((k + 1) as int) % 103), 103);
            lemma_mul_mod_noop_right(c as int, (k + 1) as int, 103);
            assert(((k % 103) + 1) % 103 == ((k + 1) as int) % 103) by {
                lemma_add_mod_noop(k as int, 1, 103);
            }
            lemma_mul_mod_noop_right(c as int, ((k % 103) + 1) as int, 103);
            lemma_add_mod_noop(acc as int, c * (((k % 103) + 1) as int), 103);
            assert(acc % 103 == acc);
        }
        assert(c * w <= 255 * 103) by (nonlinear_arith)
            requires
                c <= 255,
                w <= 103,
        ;
        acc = (acc + c * w) % 103;
        k = k + 1;
    }
    acc as u8
}

fn c128_step_exec(bytes: &[u8], i: usize, set: CodeSet, codes: &mut Vec<u8>) -> (r: (usize, CodeSet))
    requires
        i < bytes@.len(),
    ensures
        final(codes)@ == old(codes)@ + c128_step(bytes@, i as int, set).0,
        r.0 == c128_step(bytes@, i as int, set).1,
        r.1 == c128_step(bytes@, i as int, set).2,
        all_symbols(c128_step(bytes@, i as int, set).0),
{
    let b = bytes[i];
    let ghost before = codes@;
    if b == 0x7B && i + 1 < bytes.len() && (bytes[i + 1] == 0x7B || bytes[i + 1] == 0x41
        || bytes[i + 1] == 0x42 || bytes[i + 1] == 0x43 || bytes[i + 1] == 0x31) {
        let n = bytes[i + 1];
        if n == 0x7B {
            if set == CodeSet::C {
                codes.push(100);
                codes.push(91);
                assert(codes@ =~= before + seq![100u8, 91]);
                (i + 2, CodeSet::B)
            } else {
                codes.push(91);
                assert(codes@ =~= before + seq![91u8]);
                (i + 2, set)
            }
        } else if n == 0x41 {
            codes.push(101);
            assert(codes@ =~= before + seq![101u8]);
            (i + 2, CodeSet::A)
        } else if n == 0x42 {
            codes.push(100);
            assert(codes@ =~= before + seq![100u8]);
            (i + 2, CodeSet::B)
        } else if n == 0x43 {
            codes.push(99);
            assert(codes@ =~= before + seq![99u8]);
            (i + 2, CodeSet::C)
        } else {
            codes.push(102);
            assert(codes@ =~= before + seq![102u8]);
            (i + 2, set)
        }
    } else {
        match set {
            CodeSet::C => {
                if i + 1 < bytes.len() && 0x30 <= b && b <= 0x39 && 0x30 <= bytes[i + 1]
                    && bytes[i + 1] <= 0x39 {
                    let v = (b - 48) * 10 + (bytes[i + 1] - 48);
                    codes.push(v);
                    assert(codes@ =~= before + seq![v]);
                    (i + 2, CodeSet::C)
                } else {
                    codes.push(100);
                    assert(codes@ =~= before + seq![100u8]);
                    (i, CodeSet::B)
                }
            },
            CodeSet::B => {
                let v: u8 = if 32 <= b && b <= 127 {
                    b - 32
                } else {
                    31
                };
                codes.push(v);
                assert(codes@ =~= before + seq![v]);
                (i + 1, CodeSet::B)
            },
            CodeSet::A => {
                let v: u8 = if b < 32 {
                    b + 64
                } else if b <= 95 {
                    b - 32
                } else {
                    31
                };
                codes.push(v);
                assert(codes@ =~= before + seq![v]);
                (i + 1, CodeSet::A)
            },
        }
    }
}

/// The data symbol values of a payload's bytes and its start code set.
fn c128_codes_exec(bytes: &[u8]) -> (r: (Vec<u8>, CodeSet))
    ensures
        r.1 == c128_prefix(bytes@).0,
        r.0@ == c128_codes(bytes@, c128_prefix(bytes@).1, r.1),
        all_symbols(r.0@),
{
    let n = bytes.len();
    let mut set = CodeSet::B;
    let mut i: usize = 0;
    if n >= 2 && bytes[0] == 0x7B {
        if bytes[1] == 0x41 {
            set = CodeSet::A;
            i = 2;
        } else if bytes[1] == 0x42 {
            i = 2;
        } else if bytes[1] == 0x43 {
            set = CodeSet::C;
            i = 2;
        }
    }
    let start_set = set;
    let ghost set0 = set;
    let ghost i0 = i as int;
    let mut codes: Vec<u8> = Vec::new();
    assert(codes@ + c128_codes(bytes@, i as int, set) =~= c128_codes(bytes@, i0, set0));
    while i < n
        invariant
            n == bytes@.len(),
            i <= n,
            codes@ + c128_codes(bytes@, i as int, set) == c128_codes(bytes@, i0, set0),
            all_symbols(codes@),
        decreases n - i, set_rank(set),
    {
        let ghost prev = codes@;
        let ghost rest = c128_codes(bytes@, i as int, set);
        let ghost s = c128_step(bytes@, i as int, set);
        let (j, next_set) = c128_step_exec(bytes, i, set, &mut codes);
        assert(i < j <= n || (j == i && set_rank(next_set) < set_rank(set)));
        assert(rest == s.0 + c128_codes(bytes@, j as int, next_set));
        assert(codes@ + c128_codes(bytes@, j as int, next_set) =~= prev + rest);
        i = j;
        set = next_set;
    }
    (codes, start_set)
}

fn start_symbol(set: CodeSet) -> (r: u8)
    ensures
        r == c128_start(set),
{
    match set {
        CodeSet::A => 103,
        CodeSet::B => 104,
        CodeSet::C => 105,
    }
}

/// The human-readable label of Code 128 payload text, with code-set and FNC
/// markers removed and `{{` printed as one brace.
pub fn clean_code128_text(text: &str) -> (r: String)
    ensures
        r@ == hri_chars(text@, 0),
{
    let cs = str_chars(text);
    let n = cs.len();
    let mut out = String::new();
    let mut i: usize = 0;
    assert(out@ + hri_chars(cs@, 0) =~= hri_chars(cs@, 0));
    while i < n
        invariant
            n == cs@.len(),
            i <= n,
            out@ + hri_chars(cs@, i as int) == hri_chars(cs@, 0),
        decreases n - i,
    {
        let ghost prev = out@;
        let c = cs[i];
        if c == '{' && i + 1 < n && cs[i + 1] == '{' {
            push_char(&mut out, '{');
            i = i + 2;
            assert(out@ + hri_chars(cs@, i as int) =~= prev + hri_chars(cs@, i - 2));
        } else if c == '{' && i + 1 < n && (('A' <= cs[i + 1] && cs[i + 1] <= 'C') || ('1' <= cs[
            i + 1] && cs[i + 1] <= '4')) {
            i = i + 2;
        } else {
            push_char(&mut out, c);
            i = i + 1;
            assert(out@ + hri_chars(cs@, i as int) =~= prev + hri_chars(cs@, i - 1));
        }
    }
    assert(out@ =~= out@ + hri_chars(cs@, i as int));
    out
}

/// The human-readable label of a Code 128 payload, read as lossy UTF-8.
pub fn clean_code128_hri(data: &[u8]) -> (r: String)
    ensures
        r@ == hri_chars(lossy_text(data@), 0),
{
    let text = utf8_lossy(data);
    clean_code128_text(text.as_str())
}

/// Encodes Code 128 payload text into module runs (starting dark) and its
/// human-readable label.
pub fn encode_code128_text(text: &str) -> (r: Option<(Vec<u8>, String)>)
    ensures
        match r {
            Some(p) => c128_encoding(text@) == Some((p.0@, p.1@)),
            None => c128_encoding(text@).is_none(),
        },
{
    let bytes = text.as_bytes();
    proof {
        assert(bytes@ == encode_utf8(text@));
    }
    let (codes, set) = c128_codes_exec(bytes);
    let skip: usize = if bytes.len() >= 2 && bytes[0] == 0x7B && (bytes[1] == 0x41 || bytes[1]
        == 0x42 || bytes[1] == 0x43) {
        2
    } else {
        0
    };
    if bytes.len() <= skip {
        return None;
    }
    let start = start_symbol(set);
    let checksum = code128_checksum(start, codes.as_slice());
    let mut syms: Vec<u8> = Vec::new();
    syms.push(start);
    let mut k: usize = 0;
    while k < codes.len()
        invariant
            k <= codes@.len(),
            syms@ == seq![start] + codes@.subrange(0, k as int),
        decreases codes@.len() - k,
    {
        syms.push(codes[k]);
        k = k + 1;
        assert(syms@ =~= seq![start] + codes@.subrange(0, k as int));
    }
    syms.push(checksum);
    syms.push(106);
    assert(codes@.subrange(0, codes@.len() as int) =~= codes@);
    assert(syms@ =~= c128_symbols(bytes@));
    let mut runs: Vec<u8> = Vec::new();
    let mut m: usize = 0;
    while m < syms.len()
        invariant
            m <= syms@.len(),
            syms@ == c128_symbols(bytes@),
            syms@.len() == codes@.len() + 3,
            all_symbols(codes@),
            start >= 103 && start <= 105,
            checksum < 103,
            syms@[0] == start,
            syms@[syms@.len() - 1] == 106,
            syms@[syms@.len() - 2] == checksum,
            forall|q: int| 1 <= q < syms@.len() - 2 ==> syms@[q] == codes@[q - 1],
            runs@ == c128_runs(syms@, m as int),
        decreases syms@.len() - m,
    {
        let sym = syms[m];
        assert(sym <= 106) by {
            if 1 <= m < syms@.len() - 2 {
                assert(codes@[m - 1] <= 105);
            }
        }
        let mut p = c128_pattern_exec(sym);
        runs.append(&mut p);
        m = m + 1;
    }
    let label = clean_code128_text(text);
    Some((runs, label))
}

/// Encodes a Code 128 payload, read as lossy UTF-8, into module runs
/// (starting dark) and its human-readable label.
pub fn encode_code128_runs(data: &[u8]) -> (r: Option<(Vec<u8>, String)>)
    ensures
        match r {
            Some(p) => c128_encoding(lossy_text(data@)) == Some((p.0@, p.1@)),
            None => c128_encoding(lossy_text(data@)).is_none(),
        },
{
    let text = utf8_lossy(data);
    encode_code128_text(text.as_str())
}

/// The inverse of `b` modulo the prime 103.
pub open spec fn inverse_mod_103(b: int) -> int {
    if b == 1 {
        1
    } else if b == 2 {
        52
    } else if b == 3 {
        69
    } else if b == 4 {
        26
    } else if b == 5 {
        62
    } else if b == 6 {
        86
    } else if b == 7 {
        59
    } else if b == 8 {
        13
    } else if b == 9 {
        23
    } else if b == 10 {
        31
    } else if b == 11 {
        75
    } else if b == 12 {
        43
    } else if b == 13 {
        8
    } else if b == 14 {
        81
    } else if b == 15 {
        55
    } else if b == 16 {
        58
    } else if b == 17 {
        97
    } else if b == 18 {
        63
    } else if b == 19 {
        38
    } else if b == 20 {
        67
    } else if b == 21 {
        54
    } else if b == 22 {
        89
    } else if b == 23 {
        9
    } else if b == 24 {
        73
    } else if b == 25 {
        33
    } else if b == 26 {
        4
    } else if b == 27 {
        42
    } else if b == 28 {
        92
    } else if b == 29 {
        32
    } else if b == 30 {
        79
    } else if b == 31 {
        10
    } else if b == 32 {
        29
    } else if b == 33 {
        25
    } else if b == 34 {
        100
    } else if b == 35 {
        53
    } else if b == 36 {
        83
    } else if b == 37 {
        39
    } else if b == 38 {
        19
    } else if b == 39 {
        37
    } else if b == 40 {
        85
    } else if b == 41 {
        98
    } else if b == 42 {
        27
    } else if b == 43 {
        12
    } else if b == 44 {
        96
    } else if b == 45 {
        87
    } else if b == 46 {
        56
    } else if b == 47 {
        57
    } else if b == 48 {
        88
    } else if b == 49 {
        82
    } else if b == 50 {
        68
    } else if b == 51 {
        101
    } else if b == 52 {
        2
    } else if b == 53 {
        35
    } else if b == 54 {
        21
    } else if b == 55 {
        15
    } else if b == 56 {
        46
    } else if b == 57 {
        47
    } else if b == 58 {
        16
    } else if b == 59 {
        7
    } else if b == 60 {
        91
    } else if b == 61 {
        76
    } else if b == 62 {
        5
    } else if b == 63 {
        18
    } else if b == 64 {
        66
    } else if b == 65 {
        84
    } else if b == 66 {
        64
    } else if b == 67 {
        20
    } else if b == 68 {
        50
    } else if b == 69 {
        3
    } else if b == 70 {
        78
    } else if b == 71 {
        74
    } else if b == 72 {
        93
    } else if b == 73 {
        24
    } else if b == 74 {
        71
    } else if b == 75 {
        11
    } else if b == 76 {
        61
    } else if b == 77 {
        99
    } else if b == 78 {
        70
    } else if b == 79 {
        30
    } else if b == 80 {
        94
    } else if b == 81 {
        14
    } else if b == 82 {
        49
    } else if b == 83 {
        36
    } else if b == 84 {
        65
    } else if b == 85 {
        40
    } else if b == 86 {
        6
    } else if b == 87 {
        45
    } else if b == 88 {
        48
    } else if b == 89 {
        22
    } else if b == 90 {
        95
    } else if b == 91 {
        60
    } else if b == 92 {
        28
    } else if b == 93 {
        72
    } else if b == 94 {
        80
    } else if b == 95 {
        90
    } else if b == 96 {
        44
    } else if b == 97 {
        17
    } else if b == 98 {
        41
    } else if b == 99 {
        77
    } else if b == 100 {
        34
    } else if b == 101 {
        51
    } else {
        102
    }
}

proof fn inverse_mod_103_is_inverse(b: int)
    requires
        1 <= b <= 102,
    ensures
        (b * inverse_mod_103(b)) % 103 == 1,
{
}

/// 103 is prime: no product of two non-multiples of 103 is a multiple of it.
proof fn no_zero_divisors_mod_103(a: int, b: int)
    requires
        1 <= a <= 102,
        1 <= b <= 102,
    ensures
        (a * b) % 103 != 0,
{
    let c = inverse_mod_103(b);
    inverse_mod_103_is_inverse(b);
    lemma_mul_is_associative(a, b, c);
    lemma_mul_mod_noop_left(a * b, c, 103);
    lemma_mul_mod_noop_right(a, b * c, 103);
    if (a * b) % 103 == 0 {
        assert(((a * b) % 103) * c == 0);
        assert((a * (b * c)) % 103 == 0);
        assert((a * ((b * c) % 103)) % 103 == a % 103);
    }
}

proof fn weighted_sum_update(codes: Seq<u8>, k: int, v: u8, n: int)
    requires
        0 <= k < codes.len(),
        0 <= n <= codes.len(),
    ensures
        weighted_sum(codes.update(k, v), n) == weighted_sum(codes, n) + (if k < n {
            (v - codes[k]) * (k + 1)
        } else {
            0
        }),
    decreases n,
{
    if n > 0 {
        weighted_sum_update(codes, k, v, n - 1);
        if n - 1 == k {
            lemma_mul_is_distributive_sub_other_way(n, v as int, codes[k] as int);
        }
    }
}

/// The check symbol catches any single substituted data symbol among the
/// first 102: changing one value (every data value is below 103) changes
/// the checksum.
pub proof fn checksum_detects_single_substitution(start: u8, codes: Seq<u8>, k: int, v: u8)
    requires
        0 <= k < codes.len(),
        k < 102,
        codes[k] < 103,
        v < 103,
        v != codes[k],
    ensures
        c128_checksum(start, codes.update(k, v)) != c128_checksum(start, codes),
{
    let n = codes.len() as int;
    let u = codes.update(k, v);
    weighted_sum_update(codes, k, v, n);
    assert(u.len() == n);
    let x = start + weighted_sum(codes, n);
    let d = (v - codes[k]) * (k + 1);
    assert(c128_checksum(start, u) == (x + d) % 103);
    if (x + d) % 103 == x % 103 {
        lemma_sub_mod_noop(x + d, x, 103);
        assert(d % 103 == 0);
        if v > codes[k] {
            no_zero_divisors_mod_103(v - codes[k], k + 1);
        } else {
            let a = codes[k] - v;
            assert(d == -(a * (k + 1))) by (nonlinear_arith)
                requires
                    d == (v - codes[k]) * (k + 1),
                    a == codes[k] - v,
            ;
            lemma_sub_mod_noop(0, d, 103);
            assert((0 - d) % 103 == 0);
            no_zero_divisors_mod_103(a, k + 1);
        }
    }
}

} // verus!
