//! Text decoding of printable byte runs under the selectable code pages.

use vstd::prelude::*;
use vstd::utf8::{decode_utf8, valid_utf8};
use crate::model::CodePage;
use oem_cp::StringExt;
use vstd::std_specs::iter::IteratorSpec;

verus! {

/// What `encoding_rs::WINDOWS_1252.decode` yields for a byte sequence
/// (including its byte-order-mark sniffing).
pub uninterp spec fn windows1252_text(b: Seq<u8>) -> Seq<char>;

/// What `String::from_utf8_lossy` yields for a byte sequence.
pub uninterp spec fn lossy_text(b: Seq<u8>) -> Seq<char>;

/// Whether `char::is_whitespace` holds of a character (the Unicode White_Space property).
pub uninterp spec fn white_space(c: char) -> bool;

/// The character that code page 437 assigns to a byte at or above 0x80.
pub uninterp spec fn cp437_char(b: u8) -> char;

/// The character that code page 850 assigns to a byte at or above 0x80.
pub uninterp spec fn cp850_char(b: u8) -> char;

/// The character that code page 858 assigns to a byte at or above 0x80.
pub uninterp spec fn cp858_char(b: u8) -> char;

/// The character that code page 860 assigns to a byte at or above 0x80.
pub uninterp spec fn cp860_char(b: u8) -> char;

/// The character that code page 865 assigns to a byte at or above 0x80.
pub uninterp spec fn cp865_char(b: u8) -> char;

/// The character that code page 866 assigns to a byte at or above 0x80.
pub uninterp spec fn cp866_char(b: u8) -> char;

/// Bytes below 0x80 are ASCII in every OEM code page; the others go through `high`.
pub open spec fn oem_char(b: u8, high: char) -> char {
    if b < 0x80 {
        b as char
    } else {
        high
    }
}

/// The Latin-1 character of a byte: the code point with the same value.
pub open spec fn latin1_text(b: Seq<u8>) -> Seq<char> {
    Seq::new(b.len(), |i: int| b[i] as char)
}

/// The text a byte run stands for under a code page.
pub open spec fn decoded_text(cp: CodePage, b: Seq<u8>) -> Seq<char> {
    match cp {
        CodePage::Utf8Lossy => if valid_utf8(b) {
            decode_utf8(b)
        } else {
            windows1252_text(b)
        },
        CodePage::Windows1252 => windows1252_text(b),
        CodePage::Iso88591 => latin1_text(b),
        CodePage::Cp437 => Seq::new(b.len(), |i: int| oem_char(b[i], cp437_char(b[i]))),
        CodePage::Cp850 => Seq::new(b.len(), |i: int| oem_char(b[i], cp850_char(b[i]))),
        CodePage::Pc858 => Seq::new(b.len(), |i: int| oem_char(b[i], cp858_char(b[i]))),
        CodePage::Cp860 => Seq::new(b.len(), |i: int| oem_char(b[i], cp860_char(b[i]))),
        CodePage::Cp865 => Seq::new(b.len(), |i: int| oem_char(b[i], cp865_char(b[i]))),
        CodePage::Cp866 => Seq::new(b.len(), |i: int| oem_char(b[i], cp866_char(b[i]))),
    }
}

/// Longest byte run handed to the Windows-1252 decoder. Its output-size
/// computation panics when it overflows `usize`, which happens only for runs
/// several times longer than this.
pub const MAX_DECODE_LEN: usize = usize::MAX / 8;

/// Relies on `std::str::from_utf8`: it succeeds exactly on valid UTF-8, and
/// the text is then the UTF-8 decoding of the bytes.
#[verifier::external_body]
fn utf8_text(b: &[u8]) -> (r: Option<String>)
    ensures
        r.is_some() == valid_utf8(b@),
        r.is_some() ==> r.unwrap()@ == decode_utf8(b@),
{
    std::str::from_utf8(b).ok().map(|s| s.to_string())
}

/// Relies on `encoding_rs::Encoding::decode` on `WINDOWS_1252`, which panics
/// only when the output size overflows `usize`.
#[verifier::external_body]
fn windows1252_decode(b: &[u8]) -> (r: String)
    requires
        b@.len() <= MAX_DECODE_LEN,
    ensures
        r@ == windows1252_text(b@),
{
    let (text, _, _) = encoding_rs::WINDOWS_1252.decode(b);
    text.into_owned()
}

/// Relies on `oem_cp::StringExt::from_cp::<Cp437>`: one character per byte.
#[verifier::external_body]
fn cp437_decode(b: &[u8]) -> (r: String)
    ensures
        r@.len() == b@.len(),
        forall|i: int| 0 <= i < b@.len() ==> r@[i] == oem_char(b@[i], cp437_char(b@[i])),
{
    String::from_cp::<oem_cp::Cp437>(b)
}

/// Relies on `oem_cp::StringExt::from_cp::<Cp850>`: one character per byte.
#[verifier::external_body]
fn cp850_decode(b: &[u8]) -> (r: String)
    ensures
        r@.len() == b@.len(),
        forall|i: int| 0 <= i < b@.len() ==> r@[i] == oem_char(b@[i], cp850_char(b@[i])),
{
    String::from_cp::<oem_cp::Cp850>(b)
}

/// Relies on `oem_cp::StringExt::from_cp::<Cp858>`: one character per byte.
#[verifier::external_body]
fn cp858_decode(b: &[u8]) -> (r: String)
    ensures
        r@.len() == b@.len(),
        forall|i: int| 0 <= i < b@.len() ==> r@[i] == oem_char(b@[i], cp858_char(b@[i])),
{
    String::from_cp::<oem_cp::Cp858>(b)
}

/// Relies on `oem_cp::StringExt::from_cp::<Cp860>`: one character per byte.
#[verifier::external_body]
fn cp860_decode(b: &[u8]) -> (r: String)
    ensures
        r@.len() == b@.len(),
        forall|i: int| 0 <= i < b@.len() ==> r@[i] == oem_char(b@[i], cp860_char(b@[i])),
{
    String::from_cp::<oem_cp::Cp860>(b)
}

/// Relies on `oem_cp::StringExt::from_cp::<Cp865>`: one character per byte.
#[verifier::external_body]
fn cp865_decode(b: &[u8]) -> (r: String)
    ensures
        r@.len() == b@.len(),
        forall|i: int| 0 <= i < b@.len() ==> r@[i] == oem_char(b@[i], cp865_char(b@[i])),
{
    String::from_cp::<oem_cp::Cp865>(b)
}

/// Relies on `oem_cp::StringExt::from_cp::<Cp866>`: one character per byte.
#[verifier::external_body]
fn cp866_decode(b: &[u8]) -> (r: String)
    ensures
        r@.len() == b@.len(),
        forall|i: int| 0 <= i < b@.len() ==> r@[i] == oem_char(b@[i], cp866_char(b@[i])),
{
    String::from_cp::<oem_cp::Cp866>(b)
}

/// Relies on `String::push`: appends one character.
#[verifier::external_body]
pub(crate) fn push_char(s: &mut String, c: char)
    ensures
        final(s)@ == old(s)@.push(c),
{
    s.push(c)
}

/// Relies on `String::from_utf8_lossy`: valid UTF-8 is decoded unchanged.
#[verifier::external_body]
pub(crate) fn utf8_lossy(b: &[u8]) -> (r: String)
    ensures
        r@ == lossy_text(b@),
        valid_utf8(b@) ==> r@ == decode_utf8(b@),
{
    String::from_utf8_lossy(b).into_owned()
}

/// Relies on `char::is_whitespace`.
#[verifier::external_body]
pub(crate) fn char_is_whitespace(c: char) -> (r: bool)
    ensures
        r == white_space(c),
{
    c.is_whitespace()
}

/// The characters of a string, in order.
pub fn str_chars(s: &str) -> (r: Vec<char>)
    ensures
        r@ == s@,
{
    broadcast use vstd::string::group_string_axioms;

    let mut it = s.chars();
    let mut r: Vec<char> = Vec::new();
    loop
        invariant
            r@ + it.remaining() == s@,
            it.decrease() is Some,
        ensures
            r@ == s@,
        decreases it.decrease()->0,
    {
        match it.next() {
            Some(c) => {
                r.push(c);
            },
            None => {
                assert(r@ =~= s@);
                break;
            },
        }
    }
    r
}

/// Decodes bytes as ISO-8859-1, where every byte is the code point of equal value.
pub fn latin1_decode(b: &[u8]) -> (r: String)
    ensures
        r@ == latin1_text(b@),
{
    let mut s = String::new();
    let mut i: usize = 0;
    while i < b.len()
        invariant
            i <= b@.len(),
            s@ == latin1_text(b@.subrange(0, i as int)),
        decreases b@.len() - i,
    {
        push_char(&mut s, b[i] as char);
        i = i + 1;
        assert(s@ =~= latin1_text(b@.subrange(0, i as int)));
    }
    assert(b@.subrange(0, i as int) =~= b@);
    s
}

/// Decodes a run of printable bytes under the selected code page.
pub fn decode_text(bytes: &[u8], codepage: CodePage) -> (r: String)
    requires
        bytes@.len() <= MAX_DECODE_LEN,
    ensures
        r@ == decoded_text(codepage, bytes@),
{
    let r = match codepage {
        CodePage::Utf8Lossy => match utf8_text(bytes) {
            Some(s) => s,
            None => windows1252_decode(bytes),
        },
        CodePage::Windows1252 => windows1252_decode(bytes),
        CodePage::Iso88591 => latin1_decode(bytes),
        CodePage::Cp437 => cp437_decode(bytes),
        CodePage::Cp850 => cp850_decode(bytes),
        CodePage::Pc858 => cp858_decode(bytes),
        CodePage::Cp860 => cp860_decode(bytes),
        CodePage::Cp865 => cp865_decode(bytes),
        CodePage::Cp866 => cp866_decode(bytes),
    };
    assert(r@ =~= decoded_text(codepage, bytes@));
    r
}

} // verus!
