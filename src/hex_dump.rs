//! A classic hex dump: sixteen bytes per line, each line led by its offset.

use vstd::prelude::*;
use crate::text::push_char;

verus! {

/// The lowercase hexadecimal digit of a value below 16.
pub open spec fn hex_char(d: nat) -> char {
    if d < 10 {
        ((d + 48) as u8) as char
    } else {
        ((d + 87) as u8) as char
    }
}

/// The hexadecimal numeral of `n`, without leading zeros ("0" for zero).
pub open spec fn hex_digits(n: nat) -> Seq<char>
    decreases n,
{
    if n < 16 {
        seq![hex_char(n)]
    } else {
        hex_digits(n / 16) + seq![hex_char(n % 16)]
    }
}

/// The numeral of `n` left-padded with zeros to at least four digits.
pub open spec fn hex_offset(n: nat) -> Seq<char> {
    let h = hex_digits(n);
    if h.len() < 4 {
        Seq::new((4 - h.len()) as nat, |i: int| '0') + h
    } else {
        h
    }
}

/// Two hex digits and a space for each byte of `data[a..b]`.
pub open spec fn hex_bytes(data: Seq<u8>, a: int, b: int) -> Seq<char>
    decreases b - a,
{
    if b <= a {
        Seq::empty()
    } else {
        hex_bytes(data, a, b - 1) + seq![
            hex_char((data[b - 1] / 16) as nat),
            hex_char((data[b - 1] % 16) as nat),
            ' ',
        ]
    }
}

/// Line `k` of the dump: offset, colon, the bytes of the `k`-th chunk of 16, newline.
pub open spec fn hex_line(data: Seq<u8>, k: int) -> Seq<char> {
    let a = 16 * k;
    let b = if a + 16 <= data.len() {
        a + 16
    } else {
        data.len() as int
    };
    hex_offset(a as nat) + seq![':', ' '] + hex_bytes(data, a, b) + seq!['\n']
}

/// The first `m` lines of the dump.
pub open spec fn hex_lines(data: Seq<u8>, m: int) -> Seq<char>
    decreases m,
{
    if m <= 0 {
        Seq::empty()
    } else {
        hex_lines(data, m - 1) + hex_line(data, m - 1)
    }
}

/// The whole dump: one line per chunk of 16 bytes, the last chunk possibly shorter.
pub open spec fn hex_dump(data: Seq<u8>) -> Seq<char> {
    hex_lines(data, (data.len() as int + 15) / 16)
}

fn hex_char_of(d: u8) -> (r: char)
    requires
        d < 16,
    ensures
        r == hex_char(d as nat),
{
    if d < 10 {
        (d + 48) as char
    } else {
        (d + 87) as char
    }
}

fn push_hex_digits(s: &mut String, n: usize)
    ensures
        final(s)@ == old(s)@ + hex_digits(n as nat),
    decreases n,
{
    let ghost start = s@;
    if n >= 16 {
        push_hex_digits(s, n / 16);
    }
    push_char(s, hex_char_of((n % 16) as u8));
    assert(s@ =~= start + hex_digits(n as nat));
}

fn hex_digit_count(n: usize) -> (r: usize)
    ensures
        r == hex_digits(n as nat).len(),
    decreases n,
{
    if n >= 16 {
        let k = hex_digit_count(n / 16);
        proof {
            hex_digits_len_bound((n / 16) as nat);
        }
        k + 1
    } else {
        1
    }
}

proof fn hex_digits_len_bound(n: nat)
    ensures
        hex_digits(n).len() <= n + 1,
    decreases n,
{
    if n >= 16 {
        hex_digits_len_bound(n / 16);
    }
}

/// Formats bytes as a hex dump: per chunk of 16 bytes, the chunk's offset in
/// at least four lowercase hex digits, `": "`, each byte as two hex digits
/// and a space, and a newline.
pub fn pretty_hex(data: &[u8]) -> (r: String)
    ensures
        r@ == hex_dump(data@),
{
    let n = data.len();
    let lines = n / 16 + if n % 16 == 0 {
        0
    } else {
        1
    };
    assert(lines == (n + 15) / 16);
    let mut out = String::new();
    let mut k: usize = 0;
    while k < lines
        invariant
            n == data@.len(),
            lines == (n + 15) / 16,
            k <= lines,
            out@ == hex_lines(data@, k as int),
        decreases lines - k,
    {
        let ghost before = out@;
        let a = 16 * k;
        let b = if n - a >= 16 {
            a + 16
        } else {
            n
        };
        let width = hex_digit_count(a);
        let mut pad = width;
        while pad < 4
            invariant
                width <= pad <= 4 || (width >= 4 && pad == width),
                out@ == before + Seq::new((pad - width) as nat, |i: int| '0'),
            decreases 4 - pad,
        {
            push_char(&mut out, '0');
            pad = pad + 1;
            assert(out@ =~= before + Seq::new((pad - width) as nat, |i: int| '0'));
        }
        push_hex_digits(&mut out, a);
        assert(out@ =~= before + hex_offset(a as nat));
        push_char(&mut out, ':');
        push_char(&mut out, ' ');
        let ghost head = out@;
        let mut j: usize = a;
        while j < b
            invariant
                a <= j <= b <= n == data@.len(),
                out@ == head + hex_bytes(data@, a as int, j as int),
            decreases b - j,
        {
            let byte = data[j];
            push_char(&mut out, hex_char_of(byte / 16));
            push_char(&mut out, hex_char_of(byte % 16));
            push_char(&mut out, ' ');
            j = j + 1;
            assert(out@ =~= head + hex_bytes(data@, a as int, j as int));
        }
        push_char(&mut out, '\n');
        k = k + 1;
        assert(out@ =~= hex_lines(data@, k as int));
    }
    out
}

} // verus!
