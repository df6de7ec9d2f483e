//! Barcode symbology encoders: EAN-13 / EAN-8 and Interleaved 2 of 5, and
//! the collapse of a module bit string into alternating-colour run lengths.

use vstd::prelude::*;
use vstd::arithmetic::div_mod::lemma_add_mod_noop;
use crate::code128::{c128_encoding, encode_code128_runs};
use crate::text::{lossy_text, push_char, str_chars, utf8_lossy};

verus! {

/// Lengths of the maximal runs of equal values in `bits`, from left to right.
pub open spec fn runs_of(bits: Seq<u8>) -> Seq<nat>
    decreases bits.len(),
{
    if bits.len() == 0 {
        Seq::empty()
    } else {
        let r = runs_of(bits.drop_last());
        if bits.len() >= 2 && bits[bits.len() - 1] == bits[bits.len() - 2] {
            r.update(r.len() - 1, r.last() + 1)
        } else {
            r.push(1)
        }
    }
}

/// Run lengths as bytes, each capped at 255.
pub open spec fn capped(runs: Seq<nat>) -> Seq<u8> {
    runs.map_values(|n: nat| if n > 255 { 255u8 } else { n as u8 })
}

pub open spec fn sum_runs(runs: Seq<nat>) -> nat
    decreases runs.len(),
{
    if runs.len() == 0 {
        0
    } else {
        sum_runs(runs.drop_last()) + runs.last()
    }
}

pub open spec fn sum_bytes(runs: Seq<u8>) -> nat
    decreases runs.len(),
{
    if runs.len() == 0 {
        0
    } else {
        sum_bytes(runs.drop_last()) + runs.last() as nat
    }
}

/// A non-empty bit string has at least one run, none of them empty or longer
/// than the string; together the runs cover the string exactly.
pub proof fn runs_cover_bits(bits: Seq<u8>)
    ensures
        bits.len() > 0 ==> runs_of(bits).len() > 0,
        forall|k: int| 0 <= k < runs_of(bits).len() ==> 1 <= #[trigger] runs_of(bits)[k] <= bits.len(),
        sum_runs(runs_of(bits)) == bits.len(),
    decreases bits.len(),
{
    if bits.len() > 0 {
        let r = runs_of(bits.drop_last());
        runs_cover_bits(bits.drop_last());
        if bits.len() >= 2 && bits[bits.len() - 1] == bits[bits.len() - 2] {
            let u = r.update(r.len() - 1, r.last() + 1);
            assert(u.drop_last() =~= r.drop_last());
        } else {
            assert(r.push(1).drop_last() =~= r);
        }
    }
}

/// When no run is longer than 255 the capped runs add up to the string's length.
pub proof fn capped_runs_cover_bits(bits: Seq<u8>)
    requires
        bits.len() <= 255,
    ensures
        sum_bytes(capped(runs_of(bits))) == bits.len(),
{
    runs_cover_bits(bits);
    sum_capped(runs_of(bits));
}

proof fn sum_capped(runs: Seq<nat>)
    requires
        forall|k: int| 0 <= k < runs.len() ==> #[trigger] runs[k] <= 255,
    ensures
        sum_bytes(capped(runs)) == sum_runs(runs),
    decreases runs.len(),
{
    if runs.len() > 0 {
        sum_capped(runs.drop_last());
        assert(capped(runs).drop_last() =~= capped(runs.drop_last()));
    }
}

/// Collapses a string of 0/1 modules into run lengths (each capped at 255)
/// and whether the first run is dark; nothing for an empty string.
pub fn bits01_to_runs(bits: &[u8]) -> (r: Option<(Vec<u8>, bool)>)
    ensures
        bits@.len() == 0 ==> r.is_none(),
        bits@.len() > 0 ==> r.is_some() && r.unwrap().0@ == capped(runs_of(bits@)) && r.unwrap().1
            == (bits@[0] == 1),
{
    if bits.len() == 0 {
        return None;
    }
    let mut runs: Vec<u8> = Vec::new();
    let mut current = bits[0];
    let mut len: usize = 1;
    let mut k: usize = 1;
    assert(bits@.subrange(0, 1).drop_last() =~= Seq::<u8>::empty());
    assert(runs_of(bits@.subrange(0, 1).drop_last()) =~= Seq::<nat>::empty());
    assert(runs_of(bits@.subrange(0, 1)) =~= seq![1nat]);
    assert(runs@ =~= capped(runs_of(bits@.subrange(0, 1)).drop_last()));
    while k < bits.len()
        invariant
            1 <= k <= bits@.len(),
            current == bits@[k - 1],
            runs_of(bits@.subrange(0, k as int)).len() >= 1,
            runs@ == capped(runs_of(bits@.subrange(0, k as int)).drop_last()),
            len == runs_of(bits@.subrange(0, k as int)).last(),
            len <= k,
        decreases bits@.len() - k,
    {
        let ghost before = runs_of(bits@.subrange(0, k as int));
        let b = bits[k];
        assert(bits@.subrange(0, k + 1).drop_last() =~= bits@.subrange(0, k as int));
        if b == current {
            len = len + 1;
            assert(runs_of(bits@.subrange(0, k + 1)).drop_last() =~= before.drop_last());
        } else {
            runs.push(if len > 255 {
                255
            } else {
                len as u8
            });
            assert(runs_of(bits@.subrange(0, k + 1)).drop_last() =~= before);
            assert(runs@ =~= capped(before));
            current = b;
            len = 1;
        }
        k = k + 1;
    }
    let ghost all = runs_of(bits@.subrange(0, k as int));
    runs.push(if len > 255 {
        255
    } else {
        len as u8
    });
    assert(bits@.subrange(0, k as int) =~= bits@);
    assert(runs@ =~= capped(all));
    Some((runs, bits[0] == 1))
}

pub open spec fn is_ascii_digit(c: char) -> bool {
    '0' <= c <= '9'
}

pub open spec fn digit_value(c: char) -> u8 {
    ((c as u32) - 48) as u8
}

pub open spec fn digit_char(d: u8) -> char {
    ((d + 48) as u8) as char
}

/// The values of the ASCII digits of `s`, in order; other characters are dropped.
pub open spec fn digit_values(s: Seq<char>) -> Seq<u8>
    decreases s.len(),
{
    if s.len() == 0 {
        Seq::empty()
    } else {
        let r = digit_values(s.drop_last());
        if is_ascii_digit(s.last()) {
            r.push(digit_value(s.last()))
        } else {
            r
        }
    }
}

pub open spec fn digit_text(ds: Seq<u8>) -> Seq<char> {
    Seq::new(ds.len(), |i: int| digit_char(ds[i]))
}

pub open spec fn all_digits(ds: Seq<u8>) -> bool {
    forall|i: int| 0 <= i < ds.len() ==> #[trigger] ds[i] <= 9
}

proof fn digit_values_are_digits(s: Seq<char>)
    ensures
        all_digits(digit_values(s)),
    decreases s.len(),
{
    if s.len() > 0 {
        digit_values_are_digits(s.drop_last());
    }
}

fn ascii_digits(chars: &Vec<char>) -> (r: Vec<u8>)
    ensures
        r@ == digit_values(chars@),
        all_digits(r@),
{
    let mut r: Vec<u8> = Vec::new();
    let mut k: usize = 0;
    while k < chars.len()
        invariant
            k <= chars@.len(),
            r@ == digit_values(chars@.subrange(0, k as int)),
        decreases chars@.len() - k,
    {
        let c = chars[k];
        assert(chars@.subrange(0, k + 1).drop_last() =~= chars@.subrange(0, k as int));
        if '0' <= c && c <= '9' {
            r.push((c as u32 - 48) as u8);
        }
        k = k + 1;
    }
    assert(chars@.subrange(0, k as int) =~= chars@);
    proof {
        digit_values_are_digits(chars@);
    }
    r
}

fn digit_string(ds: &Vec<u8>) -> (r: String)
    requires
        all_digits(ds@),
    ensures
        r@ == digit_text(ds@),
{
    let mut s = String::new();
    let mut k: usize = 0;
    while k < ds.len()
        invariant
            k <= ds@.len(),
            all_digits(ds@),
            s@ == digit_text(ds@.subrange(0, k as int)),
        decreases ds@.len() - k,
    {
        assert(ds@[k as int] <= 9);
        push_char(&mut s, (ds[k] + 48) as char);
        k = k + 1;
        assert(s@ =~= digit_text(ds@.subrange(0, k as int)));
    }
    assert(ds@.subrange(0, k as int) =~= ds@);
    s
}

/// The EAN weighted sum of the first `k` digits: weight 3 on the rightmost
/// digit of `ds`, then 1 and 3 alternately leftwards.
pub open spec fn ean_weighted_sum(ds: Seq<u8>, k: int) -> int
    decreases k,
{
    if k <= 0 {
        0
    } else {
        ean_weighted_sum(ds, k - 1) + ds[k - 1] * (if (ds.len() - k) % 2 == 0 {
            3int
        } else {
            1int
        })
    }
}

/// The EAN check digit that completes `ds`.
pub open spec fn ean_check_digit(ds: Seq<u8>) -> u8 {
    ((10 - ean_weighted_sum(ds, ds.len() as int) % 10) % 10) as u8
}

/// Computes the EAN check digit of a digit string.
pub fn ean_check_digit_of(ds: &Vec<u8>) -> (r: u8)
    ensures
        r == ean_check_digit(ds@),
        r <= 9,
{
    let n = ds.len();
    let mut acc: u32 = 0;
    let mut k: usize = 0;
    while k < n
        invariant
            k <= n == ds@.len(),
            acc == ean_weighted_sum(ds@, k as int) % 10,
        decreases n - k,
    {
        let w: u32 = if (n - (k + 1)) % 2 == 0 {
            3
        } else {
            1
        };
        let term = (ds[k] as u32) * w;
        proof {
            lemma_add_mod_noop(ean_weighted_sum(ds@, k as int), term as int, 10);
            lemma_add_mod_noop(acc as int, term as int, 10);
            assert(acc % 10 == acc);
        }
        acc = (acc + term) % 10;
        k = k + 1;
    }
    ((10 - acc) % 10) as u8
}

/// Digit strings of 7 or 12 digits are completed with their check digit.
pub open spec fn ean_completed(ds: Seq<u8>) -> Seq<u8> {
    if ds.len() == 7 || ds.len() == 12 {
        ds.push(ean_check_digit(ds))
    } else {
        ds
    }
}

/// Left-half odd-parity (set A) patterns of the EAN digits.
pub open spec fn ean_l(d: u8) -> Seq<u8> {
    if d == 0 {
        seq![0, 0, 0, 1, 1, 0, 1]
    } else if d == 1 {
        seq![0, 0, 1, 1, 0, 0, 1]
    } else if d == 2 {
        seq![0, 0, 1, 0, 0, 1, 1]
    } else if d == 3 {
        seq![0, 1, 1, 1, 1, 0, 1]
    } else if d == 4 {
        seq![0, 1, 0, 0, 0, 1, 1]
    } else if d == 5 {
        seq![0, 1, 1, 0, 0, 0, 1]
    } else if d == 6 {
        seq![0, 1, 0, 1, 1, 1, 1]
    } else if d == 7 {
        seq![0, 1, 1, 1, 0, 1, 1]
    } else if d == 8 {
        seq![0, 1, 1, 0, 1, 1, 1]
    } else {
        seq![0, 0, 0, 1, 0, 1, 1]
    }
}

/// Left-half even-parity (set B) patterns of the EAN digits.
pub open spec fn ean_g(d: u8) -> Seq<u8> {
    if d == 0 {
        seq![0, 1, 0, 0, 1, 1, 1]
    } else if d == 1 {
        seq![0, 1, 1, 0, 0, 1, 1]
    } else if d == 2 {
        seq![0, 0, 1, 1, 0, 1, 1]
    } else if d == 3 {
        seq![0, 1, 0, 0, 0, 0, 1]
    } else if d == 4 {
        seq![0, 0, 1, 1, 1, 0, 1]
    } else if d == 5 {
        seq![0, 1, 1, 1, 0, 0, 1]
    } else if d == 6 {
        seq![0, 0, 0, 0, 1, 0, 1]
    } else if d == 7 {
        seq![0, 0, 1, 0, 0, 0, 1]
    } else if d == 8 {
        seq![0, 0, 0, 1, 0, 0, 1]
    } else {
        seq![0, 0, 1, 0, 1, 1, 1]
    }
}

/// Right-half (set C) patterns of the EAN digits.
pub open spec fn ean_r(d: u8) -> Seq<u8> {
    if d == 0 {
        seq![1, 1, 1, 0, 0, 1, 0]
    } else if d == 1 {
        seq![1, 1, 0, 0, 1, 1, 0]
    } else if d == 2 {
        seq![1, 1, 0, 1, 1, 0, 0]
    } else if d == 3 {
        seq![1, 0, 0, 0, 0, 1, 0]
    } else if d == 4 {
        seq![1, 0, 1, 1, 1, 0, 0]
    } else if d == 5 {
        seq![1, 0, 0, 1, 1, 1, 0]
    } else if d == 6 {
        seq![1, 0, 1, 0, 0, 0, 0]
    } else if d == 7 {
        seq![1, 0, 0, 0, 1, 0, 0]
    } else if d == 8 {
        seq![1, 0, 0, 1, 0, 0, 0]
    } else {
        seq![1, 1, 1, 0, 1, 0, 0]
    }
}

/// The parity pattern (0 odd, 1 even) of the left half of an EAN-13, chosen by its first digit.
pub open spec fn ean13_parity(first: u8) -> Seq<u8> {
    if first == 0 {
        seq![0, 0, 0, 0, 0, 0]
    } else if first == 1 {
        seq![0, 0, 1, 0, 1, 1]
    } else if first == 2 {
        seq![0, 0, 1, 1, 0, 1]
    } else if first == 3 {
        seq![0, 0, 1, 1, 1, 0]
    } else if first == 4 {
        seq![0, 1, 0, 0, 1, 1]
    } else if first == 5 {
        seq![0, 1, 1, 0, 0, 1]
    } else if first == 6 {
        seq![0, 1, 1, 1, 0, 0]
    } else if first == 7 {
        seq![0, 1, 0, 1, 0, 1]
    } else if first == 8 {
        seq![0, 1, 0, 1, 1, 0]
    } else {
        seq![0, 1, 1, 0, 1, 0]
    }
}

/// Bar or space widths of an Interleaved 2 of 5 digit (narrow 1, wide 3).
pub open spec fn itf_pattern(d: u8) -> Seq<u8> {
    if d == 0 {
        seq![1, 1, 3, 3, 1]
    } else if d == 1 {
        seq![3, 1, 1, 1, 3]
    } else if d == 2 {
        seq![1, 3, 1, 1, 3]
    } else if d == 3 {
        seq![3, 3, 1, 1, 1]
    } else if d == 4 {
        seq![1, 1, 3, 1, 3]
    } else if d == 5 {
        seq![3, 1, 3, 1, 1]
    } else if d == 6 {
        seq![1, 3, 3, 1, 1]
    } else if d == 7 {
        seq![1, 1, 1, 3, 3]
    } else if d == 8 {
        seq![3, 1, 1, 3, 1]
    } else {
        seq![1, 3, 1, 3, 1]
    }
}


/// The pattern of digit `d` in set 0 (odd parity), 1 (even parity) or 2 (right half).
pub open spec fn ean_pattern(set: u8, d: u8) -> Seq<u8> {
    if set == 0 {
        ean_l(d)
    } else if set == 1 {
        ean_g(d)
    } else {
        ean_r(d)
    }
}

/// The patterns of the `n` digits of `ds` from `start` on, the k-th in set `sets[k]`.
pub open spec fn ean_digit_bits(ds: Seq<u8>, start: int, sets: Seq<u8>, n: int) -> Seq<u8>
    decreases n,
{
    if n <= 0 {
        Seq::empty()
    } else {
        ean_digit_bits(ds, start, sets, n - 1) + ean_pattern(sets[n - 1], ds[start + n - 1])
    }
}

/// The 95 modules of an EAN-13: guards, six left digits in the parity set by
/// the first digit, six right digits.
pub open spec fn ean13_bits(ds: Seq<u8>) -> Seq<u8> {
    seq![1u8, 0, 1] + ean_digit_bits(ds, 1, ean13_parity(ds[0]), 6) + seq![0u8, 1, 0, 1, 0]
        + ean_digit_bits(ds, 7, Seq::new(6, |k: int| 2u8), 6) + seq![1u8, 0, 1]
}

/// The 67 modules of an EAN-8: guards, four odd-parity digits, four right digits.
pub open spec fn ean8_bits(ds: Seq<u8>) -> Seq<u8> {
    seq![1u8, 0, 1] + ean_digit_bits(ds, 0, Seq::new(4, |k: int| 0u8), 4) + seq![0u8, 1, 0, 1, 0]
        + ean_digit_bits(ds, 4, Seq::new(4, |k: int| 2u8), 4) + seq![1u8, 0, 1]
}

/// Runs and label of an EAN payload: its ASCII digits, completed with a check
/// digit when there are 7 or 12, encoded as EAN-13 or EAN-8; nothing for any
/// other number of digits.
pub open spec fn ean_encoding(text: Seq<char>) -> Option<(Seq<u8>, Seq<char>)> {
    let ds = ean_completed(digit_values(text));
    if ds.len() == 13 {
        Some((capped(runs_of(ean13_bits(ds))), digit_text(ds)))
    } else if ds.len() == 8 {
        Some((capped(runs_of(ean8_bits(ds))), digit_text(ds)))
    } else {
        None
    }
}

pub open spec fn runs_label_view(r: Option<(Vec<u8>, String)>) -> Option<(Seq<u8>, Seq<char>)> {
    match r {
        Some(p) => Some((p.0@, p.1@)),
        None => None,
    }
}

fn ean_l_exec(d: u8) -> (r: Vec<u8>)
    ensures
        r@ == ean_l(d),
{
    let r = if d == 0 {
        vec![0, 0, 0, 1, 1, 0, 1]
    } else if d == 1 {
        vec![0, 0, 1, 1, 0, 0, 1]
    } else if d == 2 {
        vec![0, 0, 1, 0, 0, 1, 1]
    } else if d == 3 {
        vec![0, 1, 1, 1, 1, 0, 1]
    } else if d == 4 {
        vec![0, 1, 0, 0, 0, 1, 1]
    } else if d == 5 {
        vec![0, 1, 1, 0, 0, 0, 1]
    } else if d == 6 {
        vec![0, 1, 0, 1, 1, 1, 1]
    } else if d == 7 {
        vec![0, 1, 1, 1, 0, 1, 1]
    } else if d == 8 {
        vec![0, 1, 1, 0, 1, 1, 1]
    } else {
        vec![0, 0, 0, 1, 0, 1, 1]
    };
    assert(r@ =~= ean_l(d));
    r
}

fn ean_g_exec(d: u8) -> (r: Vec<u8>)
    ensures
        r@ == ean_g(d),
{
    let r = if d == 0 {
        vec![0, 1, 0, 0, 1, 1, 1]
    } else if d == 1 {
        vec![0, 1, 1, 0, 0, 1, 1]
    } else if d == 2 {
        vec![0, 0, 1, 1, 0, 1, 1]
    } else if d == 3 {
        vec![0, 1, 0, 0, 0, 0, 1]
    } else if d == 4 {
        vec![0, 0, 1, 1, 1, 0, 1]
    } else if d == 5 {
        vec![0, 1, 1, 1, 0, 0, 1]
    } else if d == 6 {
        vec![0, 0, 0, 0, 1, 0, 1]
    } else if d == 7 {
        vec![0, 0, 1, 0, 0, 0, 1]
    } else if d == 8 {
        vec![0, 0, 0, 1, 0, 0, 1]
    } else {
        vec![0, 0, 1, 0, 1, 1, 1]
    };
    assert(r@ =~= ean_g(d));
    r
}

fn ean_r_exec(d: u8) -> (r: Vec<u8>)
    ensures
        r@ == ean_r(d),
{
    let r = if d == 0 {
        vec![1, 1, 1, 0, 0, 1, 0]
    } else if d == 1 {
        vec![1, 1, 0, 0, 1, 1, 0]
    } else if d == 2 {
        vec![1, 1, 0, 1, 1, 0, 0]
    } else if d == 3 {
        vec![1, 0, 0, 0, 0, 1, 0]
    } else if d == 4 {
        vec![1, 0, 1, 1, 1, 0, 0]
    } else if d == 5 {
        vec![1, 0, 0, 1, 1, 1, 0]
    } else if d == 6 {
        vec![1, 0, 1, 0, 0, 0, 0]
    } else if d == 7 {
        vec![1, 0, 0, 0, 1, 0, 0]
    } else if d == 8 {
        vec![1, 0, 0, 1, 0, 0, 0]
    } else {
        vec![1, 1, 1, 0, 1, 0, 0]
    };
    assert(r@ =~= ean_r(d));
    r
}

fn ean13_parity_exec(first: u8) -> (r: Vec<u8>)
    ensures
        r@ == ean13_parity(first),
{
    let r = if first == 0 {
        vec![0, 0, 0, 0, 0, 0]
    } else if first == 1 {
        vec![0, 0, 1, 0, 1, 1]
    } else if first == 2 {
        vec![0, 0, 1, 1, 0, 1]
    } else if first == 3 {
        vec![0, 0, 1, 1, 1, 0]
    } else if first == 4 {
        vec![0, 1, 0, 0, 1, 1]
    } else if first == 5 {
        vec![0, 1, 1, 0, 0, 1]
    } else if first == 6 {
        vec![0, 1, 1, 1, 0, 0]
    } else if first == 7 {
        vec![0, 1, 0, 1, 0, 1]
    } else if first == 8 {
        vec![0, 1, 0, 1, 1, 0]
    } else {
        vec![0, 1, 1, 0, 1, 0]
    };
    assert(r@ =~= ean13_parity(first));
    r
}

fn itf_pattern_exec(d: u8) -> (r: Vec<u8>)
    ensures
        r@ == itf_pattern(d),
{
    let r = if d == 0 {
        vec![1, 1, 3, 3, 1]
    } else if d == 1 {
        vec![3, 1, 1, 1, 3]
    } else if d == 2 {
        vec![1, 3, 1, 1, 3]
    } else if d == 3 {
        vec![3, 3, 1, 1, 1]
    } else if d == 4 {
        vec![1, 1, 3, 1, 3]
    } else if d == 5 {
        vec![3, 1, 3, 1, 1]
    } else if d == 6 {
        vec![1, 3, 3, 1, 1]
    } else if d == 7 {
        vec![1, 1, 1, 3, 3]
    } else if d == 8 {
        vec![3, 1, 1, 3, 1]
    } else {
        vec![1, 3, 1, 3, 1]
    };
    assert(r@ =~= itf_pattern(d));
    r
}

fn ean_pattern_exec(set: u8, d: u8) -> (r: Vec<u8>)
    ensures
        r@ == ean_pattern(set, d),
{
    if set == 0 {
        ean_l_exec(d)
    } else if set == 1 {
        ean_g_exec(d)
    } else {
        ean_r_exec(d)
    }
}

fn push_ean_digits(bits: &mut Vec<u8>, ds: &Vec<u8>, start: usize, sets: &Vec<u8>, n: usize)
    requires
        start + n <= ds@.len(),
        n <= sets@.len(),
    ensures
        final(bits)@ == old(bits)@ + ean_digit_bits(ds@, start as int, sets@, n as int),
{
    let ghost first = bits@;
    let total = ds.len();
    let mut k: usize = 0;
    while k < n
        invariant
            k <= n,
            total == ds@.len(),
            start + n <= ds@.len(),
            n <= sets@.len(),
            bits@ == first + ean_digit_bits(ds@, start as int, sets@, k as int),
        decreases n - k,
    {
        let idx: usize = start + k;
        let mut p = ean_pattern_exec(sets[k], ds[idx]);
        bits.append(&mut p);
        k = k + 1;
        assert(bits@ =~= first + ean_digit_bits(ds@, start as int, sets@, k as int));
    }
}

/// Encodes an EAN-13 or EAN-8 payload into module runs (starting dark) and
/// its digit label.
pub fn encode_ean_runs(digits: &str) -> (r: Option<(Vec<u8>, String)>)
    ensures
        runs_label_view(r) == ean_encoding(digits@),
{
    let chars = str_chars(digits);
    let mut ds = ascii_digits(&chars);
    if ds.len() == 7 || ds.len() == 12 {
        let c = ean_check_digit_of(&ds);
        ds.push(c);
    }
    assert(all_digits(ds@));
    let ghost full = ds@;
    assert(full == ean_completed(digit_values(digits@)));
    if ds.len() == 13 {
        let mut bits: Vec<u8> = vec![1, 0, 1];
        let parity = ean13_parity_exec(ds[0]);
        push_ean_digits(&mut bits, &ds, 1, &parity, 6);
        let mut middle: Vec<u8> = vec![0, 1, 0, 1, 0];
        bits.append(&mut middle);
        let right: Vec<u8> = vec![2, 2, 2, 2, 2, 2];
        assert(right@ =~= Seq::new(6, |k: int| 2u8));
        push_ean_digits(&mut bits, &ds, 7, &right, 6);
        let mut end: Vec<u8> = vec![1, 0, 1];
        bits.append(&mut end);
        assert(bits@ =~= ean13_bits(full));
        match bits01_to_runs(&bits) {
            Some((runs, _)) => Some((runs, digit_string(&ds))),
            None => None,
        }
    } else if ds.len() == 8 {
        let mut bits: Vec<u8> = vec![1, 0, 1];
        let left: Vec<u8> = vec![0, 0, 0, 0];
        assert(left@ =~= Seq::new(4, |k: int| 0u8));
        push_ean_digits(&mut bits, &ds, 0, &left, 4);
        let mut middle: Vec<u8> = vec![0, 1, 0, 1, 0];
        bits.append(&mut middle);
        let right: Vec<u8> = vec![2, 2, 2, 2];
        assert(right@ =~= Seq::new(4, |k: int| 2u8));
        push_ean_digits(&mut bits, &ds, 4, &right, 4);
        let mut end: Vec<u8> = vec![1, 0, 1];
        bits.append(&mut end);
        assert(bits@ =~= ean8_bits(full));
        match bits01_to_runs(&bits) {
            Some((runs, _)) => Some((runs, digit_string(&ds))),
            None => None,
        }
    } else {
        None
    }
}

proof fn ean_digit_bits_len(ds: Seq<u8>, start: int, sets: Seq<u8>, n: int)
    requires
        n >= 0,
    ensures
        ean_digit_bits(ds, start, sets, n).len() == 7 * n,
    decreases n,
{
    if n > 0 {
        ean_digit_bits_len(ds, start, sets, n - 1);
    }
}

/// A payload with exactly twelve ASCII digits encodes as an EAN-13: the label
/// is those twelve digits followed by their weighted check digit, and the runs
/// add up to 95 modules (3 + 42 + 5 + 42 + 3).
pub proof fn ean13_from_twelve_digits(text: Seq<char>)
    requires
        digit_values(text).len() == 12,
    ensures
        ean_encoding(text) is Some,
        ean_encoding(text).unwrap().1.len() == 13,
        ean_encoding(text).unwrap().1.subrange(0, 12) == digit_text(digit_values(text)),
        ean_encoding(text).unwrap().1[12] == digit_char(ean_check_digit(digit_values(text))),
        sum_bytes(ean_encoding(text).unwrap().0) == 95,
{
    let ds = digit_values(text);
    let full = ean_completed(ds);
    ean_digit_bits_len(full, 1, ean13_parity(full[0]), 6);
    ean_digit_bits_len(full, 7, Seq::new(6, |k: int| 2u8), 6);
    assert(ean13_bits(full).len() == 95);
    capped_runs_cover_bits(ean13_bits(full));
    assert(digit_text(full).subrange(0, 12) =~= digit_text(ds));
}

/// Digits of an Interleaved 2 of 5 payload: its ASCII digits, with a leading
/// zero when their number is odd.
pub open spec fn itf_digits(text: Seq<char>) -> Seq<u8> {
    let ds = digit_values(text);
    if ds.len() % 2 == 1 {
        seq![0u8] + ds
    } else {
        ds
    }
}

/// A digit pair: the bar widths of `a` interleaved with the space widths of `b`.
pub open spec fn itf_pair(a: u8, b: u8) -> Seq<u8> {
    Seq::new(
        10,
        |k: int|
            if k % 2 == 0 {
                itf_pattern(a)[k / 2]
            } else {
                itf_pattern(b)[k / 2]
            },
    )
}

/// The runs of the first `n` digit pairs of `ds`.
pub open spec fn itf_body(ds: Seq<u8>, n: int) -> Seq<u8>
    decreases n,
{
    if n <= 0 {
        Seq::empty()
    } else {
        itf_body(ds, n - 1) + itf_pair(ds[2 * n - 2], ds[2 * n - 1])
    }
}

/// Runs and label of an Interleaved 2 of 5 payload: start pattern, digit
/// pairs, stop pattern; nothing when the payload holds no digit.
pub open spec fn itf_encoding(text: Seq<char>) -> Option<(Seq<u8>, Seq<char>)> {
    let ds = itf_digits(text);
    if ds.len() == 0 {
        None
    } else {
        Some((seq![1u8, 1, 1, 1] + itf_body(ds, ds.len() as int / 2) + seq![3u8, 1, 1], digit_text(ds)))
    }
}

/// Encodes an Interleaved 2 of 5 payload into module runs (starting dark)
/// and its digit label.
pub fn encode_itf_runs(digits: &str) -> (r: Option<(Vec<u8>, String)>)
    ensures
        runs_label_view(r) == itf_encoding(digits@),
{
    let chars = str_chars(digits);
    let mut raw = ascii_digits(&chars);
    if raw.len() == 0 {
        return None;
    }
    let ds: Vec<u8> = if raw.len() % 2 == 1 {
        let mut v: Vec<u8> = vec![0];
        v.append(&mut raw);
        v
    } else {
        raw
    };
    assert(ds@ =~= itf_digits(digits@));
    let n = ds.len();
    let mut runs: Vec<u8> = vec![1, 1, 1, 1];
    let mut i: usize = 0;
    while i < n
        invariant
            n == ds@.len(),
            n % 2 == 0,
            i % 2 == 0,
            i <= n,
            runs@ == seq![1u8, 1, 1, 1] + itf_body(ds@, i as int / 2),
        decreases n - i,
    {
        let a = ds[i];
        let b = ds[i + 1];
        let pa = itf_pattern_exec(a);
        let pb = itf_pattern_exec(b);
        let ghost base = runs@;
        let mut k: usize = 0;
        while k < 5
            invariant
                k <= 5,
                pa@ == itf_pattern(a),
                pb@ == itf_pattern(b),
                runs@ == base + itf_pair(a, b).subrange(0, 2 * k),
            decreases 5 - k,
        {
            runs.push(pa[k]);
            runs.push(pb[k]);
            k = k + 1;
            assert(runs@ =~= base + itf_pair(a, b).subrange(0, 2 * k));
        }
        assert(itf_pair(a, b).subrange(0, 10) =~= itf_pair(a, b));
        i = i + 2;
        assert(itf_body(ds@, i as int / 2) == itf_body(ds@, i as int / 2 - 1) + itf_pair(a, b));
        assert(runs@ =~= seq![1u8, 1, 1, 1] + itf_body(ds@, i as int / 2));
    }
    let mut stop: Vec<u8> = vec![3, 1, 1];
    runs.append(&mut stop);
    let label = digit_string(&ds);
    assert(runs@ =~= seq![1u8, 1, 1, 1] + itf_body(ds@, ds@.len() as int / 2) + seq![3u8, 1, 1]);
    Some((runs, label))
}

/// Runs and label of barcode data under the `GS k` symbology `m`: Code 128
/// (0x49), EAN-13 / EAN-8 (0x43, 0x44) or Interleaved 2 of 5 (0x46), the data
/// read as lossy UTF-8; nothing for other symbologies.
pub open spec fn barcode_encoding(m: u8, data: Seq<u8>) -> Option<(Seq<u8>, Seq<char>)> {
    if m == 0x49 {
        c128_encoding(lossy_text(data))
    } else if m == 0x43 || m == 0x44 {
        ean_encoding(lossy_text(data))
    } else if m == 0x46 {
        itf_encoding(lossy_text(data))
    } else {
        None
    }
}

/// Encodes the data of a barcode command into module runs, whether the first
/// run is dark (always, for these symbologies), and the human-readable label.
pub fn encode_barcode(m: u8, data: &[u8]) -> (r: Option<(Vec<u8>, bool, String)>)
    ensures
        match r {
            Some(p) => barcode_encoding(m, data@) == Some((p.0@, p.2@)) && p.1,
            None => barcode_encoding(m, data@).is_none(),
        },
{
    let found = if m == 0x49 {
        encode_code128_runs(data)
    } else if m == 0x43 || m == 0x44 {
        let text = utf8_lossy(data);
        encode_ean_runs(text.as_str())
    } else if m == 0x46 {
        let text = utf8_lossy(data);
        encode_itf_runs(text.as_str())
    } else {
        None
    };
    match found {
        Some((runs, label)) => Some((runs, true, label)),
        None => None,
    }
}

} // verus!
