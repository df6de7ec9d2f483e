//! The ESC/POS byte-stream decoder: a single-pass, index-based scan that turns
//! a byte buffer into `(PrinterState, CommandType)` pairs.

use vstd::prelude::*;
use crate::model::{
    Align, BarcodeHriPosition, CodePage, CommandType, CommandV, Control, ControlV, PrinterState,
};
use crate::text::{decode_text, decoded_text, MAX_DECODE_LEN};

verus! {

/// A decoded command together with the formatting state it was emitted under.
pub type ParsedCommand = (PrinterState, CommandType);

/// The settings and the payload of a QR symbol under assembly (`GS ( k`).
pub struct QrAssembly {
    pub model: u8,
    pub module_size: u8,
    pub ecc: u8,
    pub data: Vec<u8>,
}

/// The mathematical value of a [`QrAssembly`].
pub struct QrAssemblyV {
    pub model: u8,
    pub module_size: u8,
    pub ecc: u8,
    pub data: Seq<u8>,
}

impl View for QrAssembly {
    type V = QrAssemblyV;

    open spec fn view(&self) -> QrAssemblyV {
        QrAssemblyV {
            model: self.model,
            module_size: self.module_size,
            ecc: self.ecc,
            data: self.data@,
        }
    }
}

impl QrAssembly {
    /// Model 2, module size 4, error correction 48 (level L), no payload.
    pub open spec fn initial() -> QrAssemblyV {
        QrAssemblyV { model: 2, module_size: 4, ecc: 48, data: Seq::empty() }
    }

    pub fn new() -> (r: QrAssembly)
        ensures
            r@ == QrAssembly::initial(),
    {
        QrAssembly { model: 2, module_size: 4, ecc: 48, data: Vec::new() }
    }

    /// Returns every setting to its initial value and drops the payload.
    pub fn clear(&mut self)
        ensures
            final(self)@ == QrAssembly::initial(),
    {
        self.model = 2;
        self.module_size = 4;
        self.ecc = 48;
        self.data = Vec::new();
        assert(self@.data =~= Seq::<u8>::empty());
    }
}

/// Everything a decode pass carries from one command to the next.
pub struct DecoderState {
    pub printer: PrinterState,
    pub qr: QrAssembly,
}

/// The mathematical value of a [`DecoderState`].
pub struct DecoderV {
    pub printer: PrinterState,
    pub qr: QrAssemblyV,
}

impl View for DecoderState {
    type V = DecoderV;

    open spec fn view(&self) -> DecoderV {
        DecoderV { printer: self.printer, qr: self.qr@ }
    }
}

impl DecoderState {
    pub open spec fn initial() -> DecoderV {
        DecoderV { printer: PrinterState::initial(), qr: QrAssembly::initial() }
    }

    pub fn new() -> (r: DecoderState)
        ensures
            r@ == DecoderState::initial(),
    {
        DecoderState { printer: PrinterState::default(), qr: QrAssembly::new() }
    }
}

/// The outcome of decoding the command that starts at one position.
pub struct StepV {
    /// The command emitted, with the state it carries, if any.
    pub out: Option<(PrinterState, CommandV)>,
    /// Where the next command starts.
    pub next: int,
    /// The decoder state afterwards.
    pub state: DecoderV,
}

pub open spec fn skip(st: DecoderV, next: int) -> StepV {
    StepV { out: None, next, state: st }
}

/// Emits a control command carrying the printer state of `st`.
pub open spec fn emit_control(st: DecoderV, c: ControlV, next: int) -> StepV {
    StepV { out: Some((st.printer, CommandV::Control(c))), next, state: st }
}

pub open spec fn with_printer(st: DecoderV, p: PrinterState) -> DecoderV {
    DecoderV { printer: p, qr: st.qr }
}

pub open spec fn with_qr(st: DecoderV, q: QrAssemblyV) -> DecoderV {
    DecoderV { printer: st.printer, qr: q }
}

/// The alignment selected by the argument of `ESC a`.
pub open spec fn align_of(n: u8) -> Align {
    if n == 1 || n == 49 {
        Align::Center
    } else if n == 2 || n == 50 {
        Align::Right
    } else {
        Align::Left
    }
}

/// The label position selected by the argument of `GS H`.
pub open spec fn hri_of(n: u8) -> BarcodeHriPosition {
    if n == 1 {
        BarcodeHriPosition::Above
    } else if n == 2 {
        BarcodeHriPosition::Below
    } else if n == 3 {
        BarcodeHriPosition::Both
    } else {
        BarcodeHriPosition::Hidden
    }
}

pub open spec fn at_least_one(n: u8) -> u8 {
    if n == 0 {
        1
    } else {
        n
    }
}

/// The end of the run of printable bytes (0x20 and above) that starts at `j`.
pub open spec fn text_end(data: Seq<u8>, j: int) -> int
    decreases data.len() - j,
{
    if j >= data.len() || data[j] < 0x20 {
        j
    } else {
        text_end(data, j + 1)
    }
}

/// The position of the first NUL at or after `j`, or the end of the data.
pub open spec fn nul_end(data: Seq<u8>, j: int) -> int
    decreases data.len() - j,
{
    if j >= data.len() || data[j] == 0 {
        j
    } else {
        nul_end(data, j + 1)
    }
}

/// A byte that is neither LF, CR, ESC nor GS: a text run, or an unknown byte.
pub open spec fn text_step(cp: CodePage, data: Seq<u8>, i: int, st: DecoderV) -> StepV {
    let j = text_end(data, i);
    if j > i {
        StepV {
            out: Some((st.printer, CommandV::Text(decoded_text(cp, data.subrange(i, j))))),
            next: j,
            state: st,
        }
    } else {
        StepV { out: Some((st.printer, CommandV::Unknown(data[i]))), next: i + 1, state: st }
    }
}

/// `ESC` at `i`.
pub open spec fn esc_step(data: Seq<u8>, i: int, st: DecoderV) -> StepV {
    if i + 1 >= data.len() {
        skip(st, i + 1)
    } else {
        let op = data[i + 1];
        if op == 0x40 {
            StepV {
                out: Some((st.printer, CommandV::Control(ControlV::Init))),
                next: i + 2,
                state: DecoderState::initial(),
            }
        } else if op == 0x45 {
            if i + 2 < data.len() {
                let p = PrinterState { is_bold: data[i + 2] == 1, ..st.printer };
                emit_control(with_printer(st, p), ControlV::Bold(p.is_bold), i + 3)
            } else {
                skip(st, i + 2)
            }
        } else if op == 0x61 {
            if i + 2 < data.len() {
                let p = PrinterState { alignment: align_of(data[i + 2]), ..st.printer };
                emit_control(with_printer(st, p), ControlV::Align(p.alignment), i + 3)
            } else {
                skip(st, i + 2)
            }
        } else {
            emit_control(st, ControlV::EscUnknown(op), i + 2)
        }
    }
}

/// `GS v 0 m xL xH yL yH d...` at `i`.
pub open spec fn raster_step(data: Seq<u8>, i: int, st: DecoderV) -> StepV {
    if i + 7 < data.len() && data[i + 2] == 0x30 {
        let w = data[i + 4] + 256 * data[i + 5];
        let h = data[i + 6] + 256 * data[i + 7];
        let end = i + 8 + w * h;
        if end <= data.len() {
            emit_control(
                st,
                ControlV::RasterImage {
                    m: data[i + 3],
                    width_bytes: w as u16,
                    height: h as u16,
                    data: data.subrange(i + 8, end),
                },
                end,
            )
        } else {
            skip(st, i + 2)
        }
    } else {
        skip(st, i + 2)
    }
}

/// One QR function (`fn` byte `f`) with its parameter bytes.
pub open spec fn qr_function(f: u8, payload: Seq<u8>, st: DecoderV) -> (
    Option<(PrinterState, CommandV)>,
    DecoderV,
) {
    let q = st.qr;
    if f == 0x41 && payload.len() >= 1 {
        (None, with_qr(st, QrAssemblyV { model: payload[0], ..q }))
    } else if f == 0x43 && payload.len() >= 1 {
        (None, with_qr(st, QrAssemblyV { module_size: payload[0], ..q }))
    } else if f == 0x45 && payload.len() >= 1 {
        (None, with_qr(st, QrAssemblyV { ecc: payload[0], ..q }))
    } else if f == 0x50 && payload.len() >= 1 && payload[0] == 0x30 {
        (None, with_qr(st, QrAssemblyV { data: q.data + payload.subrange(1, payload.len() as int), ..q }))
    } else if f == 0x51 && q.data.len() > 0 {
        (
            Some(
                (
                    st.printer,
                    CommandV::Control(
                        ControlV::Qr {
                            model: q.model,
                            module_size: q.module_size,
                            ecc: q.ecc,
                            data: q.data,
                        },
                    ),
                ),
            ),
            with_qr(st, QrAssemblyV { data: Seq::empty(), ..q }),
        )
    } else {
        (None, st)
    }
}

/// `GS ( k pL pH cn fn ...` at `i`.
pub open spec fn qr_step(data: Seq<u8>, i: int, st: DecoderV) -> StepV {
    if i + 5 < data.len() && data[i + 2] == 0x6B {
        let total = data[i + 3] + 256 * data[i + 4];
        let start = i + 5;
        let end = start + total;
        if end <= data.len() && total >= 2 {
            if data[start] == 0x31 {
                let r = qr_function(data[start + 1], data.subrange(start + 2, end), st);
                StepV { out: r.0, next: end, state: r.1 }
            } else {
                emit_control(st, ControlV::GsUnknown(0x28), i + 2)
            }
        } else {
            skip(st, i + 2)
        }
    } else {
        skip(st, i + 2)
    }
}

/// `GS k m ...` at `i`: NUL-terminated data for `m <= 6`, length-prefixed above.
pub open spec fn barcode_step(data: Seq<u8>, i: int, st: DecoderV) -> StepV {
    if i + 2 < data.len() {
        let m = data[i + 2];
        if m <= 6 {
            let j = nul_end(data, i + 3);
            emit_control(
                st,
                ControlV::Barcode { m, data: data.subrange(i + 3, j) },
                if j < data.len() {
                    j + 1
                } else {
                    j
                },
            )
        } else if i + 3 < data.len() {
            let end = i + 4 + data[i + 3];
            if end <= data.len() {
                emit_control(st, ControlV::Barcode { m, data: data.subrange(i + 4, end) }, end)
            } else {
                skip(st, i + 2)
            }
        } else {
            skip(st, i + 2)
        }
    } else {
        skip(st, i + 2)
    }
}

/// `GS n` with a one-byte argument that sets one printer setting.
pub open spec fn gs_setting_step(data: Seq<u8>, i: int, st: DecoderV) -> StepV {
    let op = data[i + 1];
    if i + 2 < data.len() {
        let n = data[i + 2];
        if op == 0x48 {
            let p = PrinterState { barcode_hri: hri_of(n), ..st.printer };
            emit_control(with_printer(st, p), ControlV::BarcodeHriPosition(p.barcode_hri), i + 3)
        } else if op == 0x68 {
            let p = PrinterState { barcode_height: at_least_one(n), ..st.printer };
            emit_control(with_printer(st, p), ControlV::BarcodeHeight(p.barcode_height), i + 3)
        } else if op == 0x77 {
            let p = PrinterState { barcode_module_width: at_least_one(n), ..st.printer };
            emit_control(
                with_printer(st, p),
                ControlV::BarcodeModuleWidth(p.barcode_module_width),
                i + 3,
            )
        } else if op == 0x66 {
            let p = PrinterState { barcode_hri_font: n, ..st.printer };
            emit_control(with_printer(st, p), ControlV::BarcodeHriFont(n), i + 3)
        } else {
            // character size: low nibble width, high nibble height
            let p = PrinterState {
                char_width_mul: (n % 16 + 1) as u8,
                char_height_mul: (n / 16 + 1) as u8,
                ..st.printer
            };
            emit_control(
                with_printer(st, p),
                ControlV::Size { raw: n, width: p.char_width_mul, height: p.char_height_mul },
                i + 3,
            )
        }
    } else {
        skip(st, i + 2)
    }
}

pub open spec fn is_gs_setting(op: u8) -> bool {
    op == 0x48 || op == 0x68 || op == 0x77 || op == 0x66 || op == 0x21
}

/// `GS` at `i`.
pub open spec fn gs_step(data: Seq<u8>, i: int, st: DecoderV) -> StepV {
    if i + 1 >= data.len() {
        skip(st, i + 1)
    } else {
        let op = data[i + 1];
        if is_gs_setting(op) {
            gs_setting_step(data, i, st)
        } else if op == 0x76 {
            raster_step(data, i, st)
        } else if op == 0x28 {
            qr_step(data, i, st)
        } else if op == 0x6B {
            barcode_step(data, i, st)
        } else if op == 0x56 {
            emit_control(
                st,
                ControlV::Cut,
                if i + 3 <= data.len() {
                    i + 3
                } else {
                    data.len() as int
                },
            )
        } else {
            emit_control(st, ControlV::GsUnknown(op), i + 2)
        }
    }
}

/// Decoding the command that starts at `i`.
pub open spec fn step(cp: CodePage, data: Seq<u8>, i: int, st: DecoderV) -> StepV {
    let b = data[i];
    if b == 0x0A {
        emit_control(st, ControlV::Newline, i + 1)
    } else if b == 0x0D {
        skip(st, i + 1)
    } else if b == 0x1B {
        esc_step(data, i, st)
    } else if b == 0x1D {
        gs_step(data, i, st)
    } else {
        text_step(cp, data, i, st)
    }
}

/// The commands decoded from position `i` on, starting in state `st`.
pub open spec fn parse_from(cp: CodePage, data: Seq<u8>, i: int, st: DecoderV) -> Seq<
    (PrinterState, CommandV),
>
    decreases data.len() - i,
{
    if i < 0 || i >= data.len() {
        Seq::empty()
    } else {
        let s = step(cp, data, i, st);
        let rest = if i < s.next <= data.len() {
            parse_from(cp, data, s.next, s.state)
        } else {
            Seq::empty()
        };
        match s.out {
            Some(c) => seq![c] + rest,
            None => rest,
        }
    }
}

/// The commands a whole buffer decodes to, from the initial state.
pub open spec fn parsed(cp: CodePage, data: Seq<u8>) -> Seq<(PrinterState, CommandV)> {
    parse_from(cp, data, 0, DecoderState::initial())
}

pub open spec fn parsed_view(v: Seq<ParsedCommand>) -> Seq<(PrinterState, CommandV)> {
    v.map_values(|p: ParsedCommand| (p.0, p.1@))
}

pub open spec fn out_view(o: Option<ParsedCommand>) -> Option<(PrinterState, CommandV)> {
    match o {
        Some(p) => Some((p.0, p.1@)),
        None => None,
    }
}

/// `r` (a command and the next position) and the state `st` are the outcome `s`.
pub open spec fn step_result(r: (Option<ParsedCommand>, usize), st: DecoderV, s: StepV) -> bool {
    out_view(r.0) == s.out && r.1 == s.next && st == s.state
}

fn append_range(v: &mut Vec<u8>, data: &[u8], a: usize, b: usize)
    requires
        a <= b <= data@.len(),
    ensures
        final(v)@ == old(v)@ + data@.subrange(a as int, b as int),
{
    let ghost start = v@;
    let mut k: usize = a;
    while k < b
        invariant
            a <= k <= b <= data@.len(),
            v@ == start + data@.subrange(a as int, k as int),
        decreases b - k,
    {
        v.push(data[k]);
        k = k + 1;
        assert(v@ =~= start + data@.subrange(a as int, k as int));
    }
}

fn copy_range(data: &[u8], a: usize, b: usize) -> (r: Vec<u8>)
    requires
        a <= b <= data@.len(),
    ensures
        r@ == data@.subrange(a as int, b as int),
{
    let mut v: Vec<u8> = Vec::new();
    append_range(&mut v, data, a, b);
    assert(v@ =~= data@.subrange(a as int, b as int));
    v
}

fn align_from(n: u8) -> (r: Align)
    ensures
        r == align_of(n),
{
    if n == 1 || n == 49 {
        Align::Center
    } else if n == 2 || n == 50 {
        Align::Right
    } else {
        Align::Left
    }
}

fn hri_from(n: u8) -> (r: BarcodeHriPosition)
    ensures
        r == hri_of(n),
{
    if n == 1 {
        BarcodeHriPosition::Above
    } else if n == 2 {
        BarcodeHriPosition::Below
    } else if n == 3 {
        BarcodeHriPosition::Both
    } else {
        BarcodeHriPosition::Hidden
    }
}

fn control(p: PrinterState, c: Control) -> (r: Option<ParsedCommand>)
    ensures
        out_view(r) == Some((p, CommandV::Control(c@))),
{
    Some((p, CommandType::Control(c)))
}

fn text_exec(cp: CodePage, data: &[u8], i: usize, st: &DecoderState) -> (r: (
    Option<ParsedCommand>,
    usize,
))
    requires
        i < data@.len() <= MAX_DECODE_LEN,
    ensures
        step_result(r, st@, text_step(cp, data@, i as int, st@)),
        i < r.1 <= data@.len(),
{
    let mut j: usize = i;
    while j < data.len() && data[j] >= 0x20
        invariant
            i <= j <= data@.len(),
            text_end(data@, i as int) == text_end(data@, j as int),
        decreases data@.len() - j,
    {
        j = j + 1;
    }
    if j > i {
        let text = decode_text(&data[i..j], cp);
        (Some((st.printer, CommandType::Text(text))), j)
    } else {
        (Some((st.printer, CommandType::Unknown(data[i]))), i + 1)
    }
}

fn esc_exec(data: &[u8], i: usize, st: &mut DecoderState) -> (r: (Option<ParsedCommand>, usize))
    requires
        i < data@.len() <= MAX_DECODE_LEN,
    ensures
        step_result(r, final(st)@, esc_step(data@, i as int, old(st)@)),
        i < r.1 <= data@.len(),
{
    if i + 1 >= data.len() {
        return (None, i + 1);
    }
    let op = data[i + 1];
    if op == 0x40 {
        let before = st.printer;
        st.printer = PrinterState::default();
        st.qr.clear();
        (control(before, Control::Init), i + 2)
    } else if op == 0x45 {
        if i + 2 < data.len() {
            st.printer.is_bold = data[i + 2] == 1;
            (control(st.printer, Control::Bold(st.printer.is_bold)), i + 3)
        } else {
            (None, i + 2)
        }
    } else if op == 0x61 {
        if i + 2 < data.len() {
            st.printer.alignment = align_from(data[i + 2]);
            (control(st.printer, Control::Align(st.printer.alignment)), i + 3)
        } else {
            (None, i + 2)
        }
    } else {
        (control(st.printer, Control::EscUnknown(op)), i + 2)
    }
}

fn gs_setting_exec(data: &[u8], i: usize, st: &mut DecoderState) -> (r: (
    Option<ParsedCommand>,
    usize,
))
    requires
        i + 1 < data@.len() <= MAX_DECODE_LEN,
        is_gs_setting(data@[i + 1]),
    ensures
        step_result(r, final(st)@, gs_setting_step(data@, i as int, old(st)@)),
        i < r.1 <= data@.len(),
{
    let op = data[i + 1];
    if i + 2 >= data.len() {
        return (None, i + 2);
    }
    let n = data[i + 2];
    if op == 0x48 {
        st.printer.barcode_hri = hri_from(n);
        (control(st.printer, Control::BarcodeHriPosition(st.printer.barcode_hri)), i + 3)
    } else if op == 0x68 {
        st.printer.barcode_height = if n == 0 {
            1
        } else {
            n
        };
        (control(st.printer, Control::BarcodeHeight(st.printer.barcode_height)), i + 3)
    } else if op == 0x77 {
        st.printer.barcode_module_width = if n == 0 {
            1
        } else {
            n
        };
        (control(st.printer, Control::BarcodeModuleWidth(st.printer.barcode_module_width)), i + 3)
    } else if op == 0x66 {
        st.printer.barcode_hri_font = n;
        (control(st.printer, Control::BarcodeHriFont(n)), i + 3)
    } else {
        let width = n % 16 + 1;
        let height = n / 16 + 1;
        st.printer.char_width_mul = width;
        st.printer.char_height_mul = height;
        (control(st.printer, Control::Size { raw: n, width, height }), i + 3)
    }
}

fn raster_exec(data: &[u8], i: usize, st: &DecoderState) -> (r: (Option<ParsedCommand>, usize))
    requires
        i + 1 < data@.len() <= MAX_DECODE_LEN,
    ensures
        step_result(r, st@, raster_step(data@, i as int, st@)),
        i < r.1 <= data@.len(),
{
    if data.len() - i > 7 && data[i + 2] == 0x30 {
        let m = data[i + 3];
        let w: u16 = data[i + 4] as u16 + (data[i + 5] as u16) * 256;
        let h: u16 = data[i + 6] as u16 + (data[i + 7] as u16) * 256;
        assert((w as int) * (h as int) <= 65535 * 65535) by (nonlinear_arith)
            requires
                w <= 65535,
                h <= 65535,
        ;
        let n: usize = (w as usize) * (h as usize);
        let start = i + 8;
        if n <= data.len() - start {
            let end = start + n;
            let img = copy_range(data, start, end);
            (control(st.printer, Control::RasterImage { m, width_bytes: w, height: h, data: img }), end)
        } else {
            (None, i + 2)
        }
    } else {
        (None, i + 2)
    }
}

fn qr_function_exec(f: u8, data: &[u8], a: usize, b: usize, st: &mut DecoderState) -> (r: Option<
    ParsedCommand,
>)
    requires
        a <= b <= data@.len(),
    ensures
        (out_view(r), final(st)@) == qr_function(f, data@.subrange(a as int, b as int), old(st)@),
{
    let ghost payload = data@.subrange(a as int, b as int);
    if f == 0x41 && b - a >= 1 {
        st.qr.model = data[a];
        None
    } else if f == 0x43 && b - a >= 1 {
        st.qr.module_size = data[a];
        None
    } else if f == 0x45 && b - a >= 1 {
        st.qr.ecc = data[a];
        None
    } else if f == 0x50 && b - a >= 1 && data[a] == 0x30 {
        append_range(&mut st.qr.data, data, a + 1, b);
        assert(data@.subrange(a + 1, b as int) =~= payload.subrange(1, payload.len() as int));
        None
    } else if f == 0x51 && st.qr.data.len() > 0 {
        let mut d: Vec<u8> = Vec::new();
        std::mem::swap(&mut d, &mut st.qr.data);
        assert(st.qr.data@ =~= Seq::<u8>::empty());
        control(
            st.printer,
            Control::Qr { model: st.qr.model, module_size: st.qr.module_size, ecc: st.qr.ecc, data: d },
        )
    } else {
        None
    }
}

fn qr_exec(data: &[u8], i: usize, st: &mut DecoderState) -> (r: (Option<ParsedCommand>, usize))
    requires
        i + 1 < data@.len() <= MAX_DECODE_LEN,
    ensures
        step_result(r, final(st)@, qr_step(data@, i as int, old(st)@)),
        i < r.1 <= data@.len(),
{
    if data.len() - i > 5 && data[i + 2] == 0x6B {
        let total: usize = data[i + 3] as usize + (data[i + 4] as usize) * 256;
        let start = i + 5;
        if total <= data.len() - start && total >= 2 {
            let end = start + total;
            if data[start] == 0x31 {
                let out = qr_function_exec(data[start + 1], data, start + 2, end, st);
                (out, end)
            } else {
                (control(st.printer, Control::GsUnknown(0x28)), i + 2)
            }
        } else {
            (None, i + 2)
        }
    } else {
        (None, i + 2)
    }
}

fn barcode_exec(data: &[u8], i: usize, st: &DecoderState) -> (r: (Option<ParsedCommand>, usize))
    requires
        i + 1 < data@.len() <= MAX_DECODE_LEN,
    ensures
        step_result(r, st@, barcode_step(data@, i as int, st@)),
        i < r.1 <= data@.len(),
{
    if data.len() - i <= 2 {
        return (None, i + 2);
    }
    let m = data[i + 2];
    if m <= 6 {
        let mut j: usize = i + 3;
        while j < data.len() && data[j] != 0
            invariant
                i + 3 <= j <= data@.len(),
                nul_end(data@, i + 3) == nul_end(data@, j as int),
            decreases data@.len() - j,
        {
            j = j + 1;
        }
        let payload = copy_range(data, i + 3, j);
        let next = if j < data.len() {
            j + 1
        } else {
            j
        };
        (control(st.printer, Control::Barcode { m, data: payload }), next)
    } else if data.len() - i > 3 {
        let n = data[i + 3] as usize;
        let start = i + 4;
        if n <= data.len() - start {
            let end = start + n;
            let payload = copy_range(data, start, end);
            (control(st.printer, Control::Barcode { m, data: payload }), end)
        } else {
            (None, i + 2)
        }
    } else {
        (None, i + 2)
    }
}

fn gs_exec(data: &[u8], i: usize, st: &mut DecoderState) -> (r: (Option<ParsedCommand>, usize))
    requires
        i < data@.len() <= MAX_DECODE_LEN,
    ensures
        step_result(r, final(st)@, gs_step(data@, i as int, old(st)@)),
        i < r.1 <= data@.len(),
{
    if i + 1 >= data.len() {
        return (None, i + 1);
    }
    let op = data[i + 1];
    if op == 0x48 || op == 0x68 || op == 0x77 || op == 0x66 || op == 0x21 {
        gs_setting_exec(data, i, st)
    } else if op == 0x76 {
        raster_exec(data, i, st)
    } else if op == 0x28 {
        qr_exec(data, i, st)
    } else if op == 0x6B {
        barcode_exec(data, i, st)
    } else if op == 0x56 {
        let next = if data.len() - i >= 3 {
            i + 3
        } else {
            data.len()
        };
        (control(st.printer, Control::Cut), next)
    } else {
        (control(st.printer, Control::GsUnknown(op)), i + 2)
    }
}

/// Decodes the one command that starts at `i`, updating the decoder state,
/// and returns it (if it emits one) with the position where the next command
/// starts.
pub fn decode_step(data: &[u8], i: usize, st: &mut DecoderState, codepage: CodePage) -> (r: (
    Option<ParsedCommand>,
    usize,
))
    requires
        i < data@.len() <= MAX_DECODE_LEN,
    ensures
        step_result(r, final(st)@, step(codepage, data@, i as int, old(st)@)),
        i < r.1 <= data@.len(),
{
    let b = data[i];
    if b == 0x0A {
        (control(st.printer, Control::Newline), i + 1)
    } else if b == 0x0D {
        (None, i + 1)
    } else if b == 0x1B {
        esc_exec(data, i, st)
    } else if b == 0x1D {
        gs_exec(data, i, st)
    } else {
        text_exec(codepage, data, i, st)
    }
}

/// Decodes a whole buffer, from the initial printer state, into the ordered
/// list of commands it holds. Never fails: malformed or truncated input
/// becomes unknown-byte or unknown-opcode commands, or is skipped.
pub fn parse_escpos(data: &[u8], codepage: CodePage) -> (r: Vec<ParsedCommand>)
    requires
        data@.len() <= MAX_DECODE_LEN,
    ensures
        parsed_view(r@) == parsed(codepage, data@),
        r@.len() <= data@.len(),
        forall|k: int| 0 <= k < r@.len() ==> (#[trigger] r@[k]).0.wf(),
{
    let mut commands: Vec<ParsedCommand> = Vec::new();
    let mut st = DecoderState::new();
    let mut i: usize = 0;
    assert(parsed_view(commands@) =~= Seq::<(PrinterState, CommandV)>::empty());
    assert(parsed_view(commands@) + parse_from(codepage, data@, 0, st@) =~= parsed(codepage, data@));
    while i < data.len()
        invariant
            i <= data@.len() <= MAX_DECODE_LEN,
            parsed_view(commands@) + parse_from(codepage, data@, i as int, st@) == parsed(
                codepage,
                data@,
            ),
            commands@.len() <= i,
        decreases data@.len() - i,
    {
        let ghost prev = commands@;
        let ghost rest = parse_from(codepage, data@, i as int, st@);
        let (out, next) = decode_step(data, i, &mut st, codepage);
        let ghost tail = parse_from(codepage, data@, next as int, st@);
        match out {
            Some(c) => {
                commands.push(c);
                assert(parsed_view(commands@) =~= parsed_view(prev).push((c.0, c.1@)));
                assert(rest == seq![(c.0, c.1@)] + tail);
                assert(parsed_view(commands@) + tail =~= parsed_view(prev) + rest);
            },
            None => {
                assert(rest == tail);
            },
        }
        i = next;
    }
    proof {
        decoded_states_are_well_formed(codepage, data@, 0, DecoderState::initial());
        assert forall|k: int| 0 <= k < commands@.len() implies (#[trigger] commands@[k]).0.wf() by {
            assert(parsed_view(commands@)[k].0 == commands@[k].0);
        }
    }
    commands
}

/// A reset (`ESC @`) returns the printer state and the QR assembly, payload
/// included, to their initial values whatever came before: it is emitted
/// under the old state, and what follows decodes as from a fresh start.
pub proof fn reset_restores_defaults(cp: CodePage, data: Seq<u8>, i: int, st: DecoderV)
    requires
        0 <= i,
        i + 1 < data.len(),
        data[i] == 0x1B,
        data[i + 1] == 0x40,
    ensures
        step(cp, data, i, st).state == DecoderState::initial(),
        step(cp, data, i, st).state.qr.data.len() == 0,
        parse_from(cp, data, i, st) == seq![(st.printer, CommandV::Control(ControlV::Init))]
            + parse_from(cp, data, i + 2, DecoderState::initial()),
{
}

/// The argument byte of `GS H n` is consumed with the opcode: one
/// label-position command is emitted and decoding resumes after `n`.
pub proof fn hri_argument_consumed(cp: CodePage, data: Seq<u8>, i: int, st: DecoderV)
    requires
        0 <= i,
        i + 2 < data.len(),
        data[i] == 0x1D,
        data[i + 1] == 0x48,
    ensures
        ({
            let p = PrinterState { barcode_hri: hri_of(data[i + 2]), ..st.printer };
            &&& step(cp, data, i, st).next == i + 3
            &&& parse_from(cp, data, i, st) == seq![
                (p, CommandV::Control(ControlV::BarcodeHriPosition(hri_of(data[i + 2])))),
            ] + parse_from(cp, data, i + 3, with_printer(st, p))
        }),
{
}

/// Printing a QR symbol emits the stored payload under the current model,
/// module size and error-correction level, and empties the payload; with
/// nothing stored it emits nothing and changes nothing.
pub proof fn qr_print_takes_payload(payload: Seq<u8>, st: DecoderV)
    ensures
        st.qr.data.len() == 0 ==> qr_function(0x51, payload, st) == (
            None::<(PrinterState, CommandV)>,
            st,
        ),
        st.qr.data.len() > 0 ==> qr_function(0x51, payload, st) == (
            Some(
                (
                    st.printer,
                    CommandV::Control(
                        ControlV::Qr {
                            model: st.qr.model,
                            module_size: st.qr.module_size,
                            ecc: st.qr.ecc,
                            data: st.qr.data,
                        },
                    ),
                ),
            ),
            with_qr(st, QrAssemblyV { data: Seq::empty(), ..st.qr }),
        ),
{
}

/// An escape whose opcode the decoder does not know is reported with that
/// opcode and consumes exactly the escape and the opcode byte.
pub proof fn unknown_escape_consumes_opcode_only(cp: CodePage, data: Seq<u8>, i: int, st: DecoderV)
    requires
        0 <= i,
        i + 1 < data.len(),
        data[i] == 0x1B,
        data[i + 1] != 0x40 && data[i + 1] != 0x45 && data[i + 1] != 0x61,
    ensures
        step(cp, data, i, st) == emit_control(st, ControlV::EscUnknown(data[i + 1]), i + 2),
{
}

/// A raster image whose pixel data would run past the end of the buffer is
/// dropped: nothing is emitted, nothing changes, and decoding resumes after
/// the opcode's two bytes.
pub proof fn truncated_raster_is_skipped(cp: CodePage, data: Seq<u8>, i: int, st: DecoderV)
    requires
        0 <= i,
        i + 7 < data.len(),
        data[i] == 0x1D,
        data[i + 1] == 0x76,
        data[i + 2] == 0x30,
        i + 8 + (data[i + 4] + 256 * data[i + 5]) * (data[i + 6] + 256 * data[i + 7]) > data.len(),
    ensures
        step(cp, data, i, st) == skip(st, i + 2),
{
}

/// Decoding any buffer from any position and state ends with at most one
/// command per remaining byte.
pub proof fn parse_emits_at_most_one_command_per_byte(
    cp: CodePage,
    data: Seq<u8>,
    i: int,
    st: DecoderV,
)
    ensures
        0 <= i <= data.len() ==> parse_from(cp, data, i, st).len() <= data.len() - i,
        i > data.len() ==> parse_from(cp, data, i, st).len() == 0,
    decreases data.len() - i,
{
    if 0 <= i < data.len() {
        let s = step(cp, data, i, st);
        if i < s.next <= data.len() {
            parse_emits_at_most_one_command_per_byte(cp, data, s.next, s.state);
        }
    }
}

/// Every state the decoder emits keeps the character multipliers at one or
/// more, starting from a state that does.
pub proof fn decoded_states_are_well_formed(cp: CodePage, data: Seq<u8>, i: int, st: DecoderV)
    requires
        st.printer.wf(),
    ensures
        forall|k: int|
            0 <= k < parse_from(cp, data, i, st).len() ==> (#[trigger] parse_from(
                cp,
                data,
                i,
                st,
            )[k]).0.wf(),
    decreases data.len() - i,
{
    if 0 <= i < data.len() {
        let s = step(cp, data, i, st);
        assert(s.state.printer.wf());
        let rest = if i < s.next <= data.len() {
            decoded_states_are_well_formed(cp, data, s.next, s.state);
            parse_from(cp, data, s.next, s.state)
        } else {
            Seq::empty()
        };
        assert(forall|k: int| 0 <= k < rest.len() ==> (#[trigger] rest[k]).0.wf());
        match s.out {
            Some(c) => {
                assert(c.0.wf());
                let whole = seq![c] + rest;
                assert(parse_from(cp, data, i, st) == whole);
                assert forall|k: int| 0 <= k < whole.len() implies (#[trigger] whole[k]).0.wf() by {
                    if k > 0 {
                        assert(whole[k] == rest[k - 1]);
                    }
                }
            },
            None => {
                assert(parse_from(cp, data, i, st) == rest);
            },
        }
    }
}

} // verus!
