//! What the viewer decides about decoded jobs: which captured jobs are noise,
//! and how many columns a line of text gets on the emulated paper.

use vstd::prelude::*;
use crate::escpos::{parse_escpos, parsed, parsed_view, ParsedCommand};
use crate::model::{
    Align, CodePage, CommandType, CommandV, Control, ControlV, PaperWidth, PrinterState,
};
use crate::text::{char_is_whitespace, push_char, str_chars, white_space, MAX_DECODE_LEN};

verus! {

/// Text with at least one character that is not white space.
pub open spec fn has_ink(t: Seq<char>) -> bool {
    exists|i: int| 0 <= i < t.len() && !white_space(#[trigger] t[i])
}

/// A command that leaves a mark: text with ink, an image, a QR symbol, a
/// barcode or a cut.
pub open spec fn is_visible(c: CommandV) -> bool {
    match c {
        CommandV::Text(t) => has_ink(t),
        CommandV::Control(k) => match k {
            ControlV::RasterImage { .. } | ControlV::Qr { .. } | ControlV::Barcode { .. }
            | ControlV::Cut => true,
            _ => false,
        },
        CommandV::Unknown(_) => false,
    }
}

pub open spec fn any_visible(cmds: Seq<(PrinterState, CommandV)>) -> bool {
    exists|k: int| 0 <= k < cmds.len() && is_visible(#[trigger] cmds[k].1)
}

/// A captured job is noise when filtering is on and it is empty, or it is
/// at most `max_bytes` long and decodes to nothing visible (status queries
/// that some point-of-sale systems send).
pub open spec fn ignored_job(bytes: Seq<u8>, cp: CodePage, enabled: bool, max_bytes: usize) -> bool {
    enabled && (bytes.len() == 0 || (bytes.len() <= max_bytes && !any_visible(parsed(cp, bytes))))
}

fn text_has_ink(t: &String) -> (r: bool)
    ensures
        r == has_ink(t@),
{
    let cs = str_chars(t.as_str());
    let mut i: usize = 0;
    while i < cs.len()
        invariant
            i <= cs@.len(),
            cs@ == t@,
            forall|j: int| 0 <= j < i ==> white_space(#[trigger] cs@[j]),
        decreases cs@.len() - i,
    {
        if !char_is_whitespace(cs[i]) {
            return true;
        }
        i = i + 1;
    }
    false
}

/// Whether any of the decoded commands leaves a mark.
pub fn has_visible_output(cmds: &Vec<ParsedCommand>) -> (r: bool)
    ensures
        r == any_visible(parsed_view(cmds@)),
{
    let mut k: usize = 0;
    while k < cmds.len()
        invariant
            k <= cmds@.len(),
            forall|j: int| 0 <= j < k ==> !is_visible(#[trigger] parsed_view(cmds@)[j].1),
        decreases cmds@.len() - k,
    {
        let visible = match &cmds[k].1 {
            CommandType::Text(t) => text_has_ink(t),
            CommandType::Control(c) => match c {
                Control::RasterImage { .. } | Control::Qr { .. } | Control::Barcode { .. }
                | Control::Cut => true,
                _ => false,
            },
            CommandType::Unknown(_) => false,
        };
        assert(parsed_view(cmds@)[k as int].1 == cmds@[k as int].1@);
        if visible {
            return true;
        }
        k = k + 1;
    }
    false
}

/// Whether a captured job is noise to be dropped rather than shown.
pub fn should_ignore_tcp_job(bytes: &[u8], codepage: CodePage, ignore_noise: bool, max_bytes: usize) -> (r:
    bool)
    requires
        bytes@.len() <= MAX_DECODE_LEN,
    ensures
        r == ignored_job(bytes@, codepage, ignore_noise, max_bytes),
{
    if !ignore_noise {
        return false;
    }
    if bytes.len() == 0 {
        return true;
    }
    if bytes.len() > max_bytes {
        return false;
    }
    let cmds = parse_escpos(bytes, codepage);
    !has_visible_output(&cmds)
}

/// Characters per line at normal width.
pub open spec fn spec_base_columns(paper: PaperWidth) -> usize {
    match paper {
        PaperWidth::W58mm => 32,
        PaperWidth::W80mm => 48,
    }
}

pub fn base_columns(paper: PaperWidth) -> (r: usize)
    ensures
        r == spec_base_columns(paper),
{
    match paper {
        PaperWidth::W58mm => 32,
        PaperWidth::W80mm => 48,
    }
}

/// Characters per line under a formatting state: the base columns divided by
/// the width multiplier (a zero multiplier counts as one), and at least one.
/// The height multiplier does not change the columns.
pub open spec fn spec_effective_columns(paper: PaperWidth, state: PrinterState) -> usize {
    let div = if state.char_width_mul == 0 {
        1
    } else {
        state.char_width_mul as usize
    };
    let c = spec_base_columns(paper) / div;
    if c == 0 {
        1
    } else {
        c
    }
}

pub fn effective_columns(paper: PaperWidth, state: &PrinterState) -> (r: usize)
    ensures
        r == spec_effective_columns(paper, *state),
        r >= 1,
{
    let base = base_columns(paper);
    let div: usize = if state.char_width_mul == 0 {
        1
    } else {
        state.char_width_mul as usize
    };
    let c = base / div;
    if c == 0 {
        1
    } else {
        c
    }
}

/// The finished lines and the line in progress after the first `n`
/// characters: a newline ends the line, and a line already `width` wide is
/// ended before the next character.
pub open spec fn wrap_state(cs: Seq<char>, n: int, width: nat) -> (Seq<Seq<char>>, Seq<char>)
    decreases n,
{
    if n <= 0 {
        (Seq::empty(), Seq::empty())
    } else {
        let (lines, cur) = wrap_state(cs, n - 1, width);
        let ch = cs[n - 1];
        if ch == '\n' {
            (lines.push(cur), Seq::empty())
        } else if cur.len() >= width {
            (lines.push(cur), seq![ch])
        } else {
            (lines, cur.push(ch))
        }
    }
}

/// Text broken into lines of at most `width` characters (any width for zero)
/// at newlines and where a line is full; a trailing empty line is dropped,
/// and empty text gives one empty line.
pub open spec fn wrapped_lines(cs: Seq<char>, width: nat) -> Seq<Seq<char>> {
    if width == 0 {
        seq![cs]
    } else {
        let (lines, cur) = wrap_state(cs, cs.len() as int, width);
        let all = if cur.len() > 0 {
            lines.push(cur)
        } else {
            lines
        };
        if all.len() == 0 {
            seq![Seq::empty()]
        } else {
            all
        }
    }
}

pub open spec fn strings_view(v: Seq<String>) -> Seq<Seq<char>> {
    v.map_values(|s: String| s@)
}

/// Breaks text into the lines printed on paper `width` characters wide.
pub fn split_and_wrap(text: &str, width: usize) -> (r: Vec<String>)
    ensures
        strings_view(r@) == wrapped_lines(text@, width as nat),
{
    let cs = str_chars(text);
    if width == 0 {
        let mut whole = String::new();
        let mut k: usize = 0;
        while k < cs.len()
            invariant
                k <= cs@.len(),
                whole@ == cs@.subrange(0, k as int),
            decreases cs@.len() - k,
        {
            push_char(&mut whole, cs[k]);
            k = k + 1;
            assert(whole@ =~= cs@.subrange(0, k as int));
        }
        assert(cs@.subrange(0, k as int) =~= text@);
        let r = vec![whole];
        assert(strings_view(r@) =~= wrapped_lines(text@, 0));
        return r;
    }
    let mut out: Vec<String> = Vec::new();
    let mut current = String::new();
    let mut col: usize = 0;
    let mut k: usize = 0;
    while k < cs.len()
        invariant
            width > 0,
            k <= cs@.len(),
            cs@ == text@,
            wrap_state(cs@, k as int, width as nat) == (strings_view(out@), current@),
            col == current@.len(),
            col <= width,
        decreases cs@.len() - k,
    {
        let ch = cs[k];
        let ghost before = out@;
        if ch == '\n' {
            let done = current;
            out.push(done);
            current = String::new();
            col = 0;
            assert(strings_view(out@) =~= strings_view(before).push(done@));
        } else {
            if col >= width {
                let done = current;
                out.push(done);
                current = String::new();
                col = 0;
                assert(strings_view(out@) =~= strings_view(before).push(done@));
            }
            push_char(&mut current, ch);
            col = col + 1;
        }
        k = k + 1;
        assert(current@ =~= wrap_state(cs@, k as int, width as nat).1);
    }
    let ghost lines = out@;
    if col > 0 {
        let last = current;
        out.push(last);
        assert(strings_view(out@) =~= strings_view(lines).push(last@));
    }
    if out.len() == 0 {
        out.push(String::new());
        assert(strings_view(out@) =~= seq![Seq::<char>::empty()]);
    }
    out
}

/// Leading spaces that place a line of `len` characters on a line of `cols`
/// under an alignment; none when the line is full.
pub open spec fn spec_alignment_padding(len: nat, cols: nat, align: Align) -> nat {
    if len >= cols {
        0
    } else {
        match align {
            Align::Left => 0,
            Align::Center => ((cols - len) / 2) as nat,
            Align::Right => (cols - len) as nat,
        }
    }
}

pub fn alignment_padding(len: usize, cols: usize, align: Align) -> (r: usize)
    ensures
        r == spec_alignment_padding(len as nat, cols as nat, align),
{
    if len >= cols {
        0
    } else {
        match align {
            Align::Left => 0,
            Align::Center => (cols - len) / 2,
            Align::Right => cols - len,
        }
    }
}

/// The decimal numeral of `n`.
pub open spec fn decimal(n: nat) -> Seq<char>
    decreases n,
{
    if n < 10 {
        seq![((n + 48) as u8) as char]
    } else {
        decimal(n / 10) + seq![((n % 10 + 48) as u8) as char]
    }
}

/// A short age: seconds below a minute, else minutes below an hour, else
/// whole hours, each with its unit letter.
pub open spec fn age_short(secs: nat) -> Seq<char> {
    if secs < 60 {
        decimal(secs) + seq!['s']
    } else if secs / 60 < 60 {
        decimal(secs / 60) + seq!['m']
    } else {
        decimal(secs / 3600) + seq!['h']
    }
}

fn push_decimal(s: &mut String, n: u64)
    ensures
        final(s)@ == old(s)@ + decimal(n as nat),
    decreases n,
{
    let ghost start = s@;
    if n >= 10 {
        push_decimal(s, n / 10);
    }
    push_char(s, ((n % 10) as u8 + 48) as char);
    assert(s@ =~= start + decimal(n as nat));
}

/// Formats an age in seconds as `"42s"`, `"5m"` or `"3h"`.
pub fn format_age_short(secs: u64) -> (r: String)
    ensures
        r@ == age_short(secs as nat),
{
    let mut s = String::new();
    if secs < 60 {
        push_decimal(&mut s, secs);
        push_char(&mut s, 's');
    } else if secs / 60 < 60 {
        push_decimal(&mut s, secs / 60);
        push_char(&mut s, 'm');
    } else {
        assert(secs / 60 / 60 == secs / 3600);
        push_decimal(&mut s, secs / 60 / 60);
        push_char(&mut s, 'h');
    }
    s
}

} // verus!
