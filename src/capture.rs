//! Job framing for captured printer connections: every connection's bytes
//! become one job, ended by the peer closing, by inactivity, or by a failed
//! read. The sockets, threads and timers live with the caller; this module
//! holds the decisions.

use vstd::prelude::*;
use vstd::string::StringExecFns;

verus! {

/// One print job: a label naming where it came from, and its raw bytes.
#[derive(Clone, Debug)]
pub struct CapturedJob {
    pub source: String,
    pub bytes: Vec<u8>,
}

/// What one read on a connection produced.
pub enum ReadEvent {
    /// Some bytes arrived.
    Data(Vec<u8>),
    /// The peer closed the connection.
    Closed,
    /// No byte arrived within the inactivity window.
    TimedOut,
    /// The read failed for another reason.
    Failed,
}

/// The mathematical value of a [`ReadEvent`].
pub enum ReadEventV {
    Data(Seq<u8>),
    Closed,
    TimedOut,
    Failed,
}

impl View for ReadEvent {
    type V = ReadEventV;

    open spec fn view(&self) -> ReadEventV {
        match self {
            ReadEvent::Data(b) => ReadEventV::Data(b@),
            ReadEvent::Closed => ReadEventV::Closed,
            ReadEvent::TimedOut => ReadEventV::TimedOut,
            ReadEvent::Failed => ReadEventV::Failed,
        }
    }
}

/// What the connection handler does after an event.
pub enum ReadAction {
    /// Read again.
    ReadMore,
    /// Deliver this job, then stop reading.
    Emit(CapturedJob),
    /// Stop reading; there is nothing to deliver.
    Done,
}

/// The mathematical value of a [`ReadAction`]; a job is its source and bytes.
pub enum ReadActionV {
    ReadMore,
    Emit(Seq<char>, Seq<u8>),
    Done,
}

impl View for ReadAction {
    type V = ReadActionV;

    open spec fn view(&self) -> ReadActionV {
        match self {
            ReadAction::ReadMore => ReadActionV::ReadMore,
            ReadAction::Emit(job) => ReadActionV::Emit(job.source@, job.bytes@),
            ReadAction::Done => ReadActionV::Done,
        }
    }
}

/// The bytes received so far on one connection.
pub struct JobReader {
    source: String,
    buf: Vec<u8>,
    finished: bool,
}

/// The mathematical value of a [`JobReader`].
pub struct JobReaderV {
    pub source: Seq<char>,
    pub buf: Seq<u8>,
    pub finished: bool,
}

impl View for JobReader {
    type V = JobReaderV;

    closed spec fn view(&self) -> JobReaderV {
        JobReaderV { source: self.source@, buf: self.buf@, finished: self.finished }
    }
}

/// A reader that has received nothing yet.
pub open spec fn fresh_reader(source: Seq<char>) -> JobReaderV {
    JobReaderV { source, buf: Seq::empty(), finished: false }
}

/// One event: bytes are kept; any end of the connection flushes what was kept
/// as one job (nothing when empty) and finishes the reader, which then ignores
/// every later event.
pub open spec fn reader_step(st: JobReaderV, ev: ReadEventV) -> (JobReaderV, ReadActionV) {
    if st.finished {
        (st, ReadActionV::Done)
    } else {
        match ev {
            ReadEventV::Data(b) => (JobReaderV { buf: st.buf + b, ..st }, ReadActionV::ReadMore),
            _ => (
                JobReaderV { buf: Seq::empty(), finished: true, ..st },
                if st.buf.len() > 0 {
                    ReadActionV::Emit(st.source, st.buf)
                } else {
                    ReadActionV::Done
                },
            ),
        }
    }
}

/// The state after a sequence of events, and the action taken after each.
pub open spec fn reader_run(st: JobReaderV, evs: Seq<ReadEventV>) -> (JobReaderV, Seq<ReadActionV>)
    decreases evs.len(),
{
    if evs.len() == 0 {
        (st, Seq::empty())
    } else {
        let (s, acts) = reader_run(st, evs.drop_last());
        let (s2, a) = reader_step(s, evs.last());
        (s2, acts.push(a))
    }
}

/// The jobs among a sequence of actions, in order.
pub open spec fn emitted(acts: Seq<ReadActionV>) -> Seq<(Seq<char>, Seq<u8>)>
    decreases acts.len(),
{
    if acts.len() == 0 {
        Seq::empty()
    } else {
        let r = emitted(acts.drop_last());
        match acts.last() {
            ReadActionV::Emit(s, b) => r.push((s, b)),
            _ => r,
        }
    }
}

impl JobReader {
    pub fn new(source: String) -> (r: JobReader)
        ensures
            r@ == fresh_reader(source@),
    {
        JobReader { source, buf: Vec::new(), finished: false }
    }

    pub fn is_finished(&self) -> (r: bool)
        ensures
            r == self@.finished,
    {
        self.finished
    }

    /// Takes one read event and says what to do next.
    pub fn on_event(&mut self, ev: ReadEvent) -> (r: ReadAction)
        ensures
            (final(self)@, r@) == reader_step(old(self)@, ev@),
    {
        if self.finished {
            return ReadAction::Done;
        }
        match ev {
            ReadEvent::Data(mut b) => {
                self.buf.append(&mut b);
                ReadAction::ReadMore
            },
            _ => {
                self.finished = true;
                let mut bytes: Vec<u8> = Vec::new();
                std::mem::swap(&mut bytes, &mut self.buf);
                assert(self.buf@ =~= Seq::<u8>::empty());
                if bytes.len() > 0 {
                    ReadAction::Emit(CapturedJob { source: self.source.clone(), bytes })
                } else {
                    ReadAction::Done
                }
            },
        }
    }
}

/// The label of a job: the peer's address, an arrow, and the listener's address.
pub fn job_source_label(peer: &str, listener: &str) -> (r: String)
    ensures
        r@ == peer@ + " -> "@ + listener@,
{
    let mut s = String::from_str(peer);
    s.append(" -> ");
    s.append(listener);
    s
}

/// What a non-blocking accept on the listener produced.
pub enum AcceptOutcome {
    Connection,
    WouldBlock,
    Failed,
}

/// What the accept loop does next.
#[derive(PartialEq, Eq, Structural, Debug)]
pub enum AcceptAction {
    /// Hand the connection to its own handler.
    Serve,
    /// Nothing pending: pause briefly, then poll again.
    Sleep,
    /// Stop listening.
    Exit,
}

/// The accept loop's decision: a stop request ends it before any accept; a
/// connection is served; an empty poll sleeps; any other failure ends the loop
/// rather than spinning on it.
pub fn accept_action(stop_requested: bool, outcome: AcceptOutcome) -> (r: AcceptAction)
    ensures
        stop_requested ==> r == AcceptAction::Exit,
        !stop_requested ==> r == match outcome {
            AcceptOutcome::Connection => AcceptAction::Serve,
            AcceptOutcome::WouldBlock => AcceptAction::Sleep,
            AcceptOutcome::Failed => AcceptAction::Exit,
        },
{
    if stop_requested {
        return AcceptAction::Exit;
    }
    match outcome {
        AcceptOutcome::Connection => AcceptAction::Serve,
        AcceptOutcome::WouldBlock => AcceptAction::Sleep,
        AcceptOutcome::Failed => AcceptAction::Exit,
    }
}

/// Each chunk of bytes as a data event.
pub open spec fn data_events(chunks: Seq<Seq<u8>>) -> Seq<ReadEventV> {
    chunks.map_values(|c: Seq<u8>| ReadEventV::Data(c))
}

proof fn run_data(source: Seq<char>, chunks: Seq<Seq<u8>>)
    ensures
        reader_run(fresh_reader(source), data_events(chunks)).0
            == (JobReaderV { source, buf: chunks.flatten_alt(), finished: false }),
        emitted(
            reader_run(fresh_reader(source), data_events(chunks)).1,
        ).len() == 0,
        reader_run(fresh_reader(source), data_events(chunks)).1.len()
            == chunks.len(),
    decreases chunks.len(),
{
    let evs = data_events(chunks);
    if chunks.len() > 0 {
        run_data(source, chunks.drop_last());
        assert(evs.drop_last() =~= data_events(chunks.drop_last()));
        let acts = reader_run(fresh_reader(source), evs).1;
        assert(acts.drop_last() =~= reader_run(fresh_reader(source), evs.drop_last()).1);
    } else {
        assert(chunks.flatten_alt() =~= Seq::<u8>::empty());
    }
}

proof fn run_finished(st: JobReaderV, evs: Seq<ReadEventV>)
    requires
        st.finished,
    ensures
        reader_run(st, evs).0 == st,
        emitted(reader_run(st, evs).1).len() == 0,
    decreases evs.len(),
{
    if evs.len() > 0 {
        run_finished(st, evs.drop_last());
        let acts = reader_run(st, evs).1;
        assert(acts.drop_last() =~= reader_run(st, evs.drop_last()).1);
    }
}

proof fn run_append(st: JobReaderV, a: Seq<ReadEventV>, b: Seq<ReadEventV>)
    ensures
        reader_run(st, a + b).0 == reader_run(reader_run(st, a).0, b).0,
        emitted(reader_run(st, a + b).1) == emitted(reader_run(st, a).1) + emitted(
            reader_run(reader_run(st, a).0, b).1,
        ),
    decreases b.len(),
{
    if b.len() == 0 {
        assert(a + b =~= a);
        assert(emitted(reader_run(st, a).1) + Seq::empty() =~= emitted(reader_run(st, a).1));
    } else {
        run_append(st, a, b.drop_last());
        assert((a + b).drop_last() =~= a + b.drop_last());
        let whole = reader_run(st, a + b).1;
        let tail = reader_run(reader_run(st, a).0, b).1;
        assert(whole.drop_last() =~= reader_run(st, a + b.drop_last()).1);
        assert(tail.drop_last() =~= reader_run(reader_run(st, a).0, b.drop_last()).1);
        let e1 = emitted(reader_run(st, a).1);
        let e2 = emitted(reader_run(reader_run(st, a).0, b.drop_last()).1);
        match whole.last() {
            ReadActionV::Emit(s, x) => {
                assert(e1 + e2.push((s, x)) =~= (e1 + e2).push((s, x)));
            },
            _ => {},
        }
    }
}

/// A connection yields exactly one job holding exactly the bytes it sent,
/// in order, when it sends some bytes and then closes, goes silent past the
/// inactivity window, or fails; nothing when it sent no byte. Whatever
/// happens afterwards on that connection emits no second job.
pub proof fn one_job_per_connection(
    source: Seq<char>,
    chunks: Seq<Seq<u8>>,
    end: ReadEventV,
    after: Seq<ReadEventV>,
)
    requires
        !(end is Data),
    ensures
        ({
            let evs = data_events(chunks) + seq![end] + after;
            let jobs = emitted(reader_run(fresh_reader(source), evs).1);
            &&& chunks.flatten().len() > 0 ==> jobs == seq![(source, chunks.flatten())]
            &&& chunks.flatten().len() == 0 ==> jobs.len() == 0
        }),
{
    let st = fresh_reader(source);
    let data = data_events(chunks);
    chunks.lemma_flatten_and_flatten_alt_are_equivalent();
    run_data(source, chunks);
    run_append(st, data, seq![end]);
    let mid = reader_run(st, data + seq![end]).0;
    run_append(st, data + seq![end], after);
    run_finished(mid, after);
    let s0 = reader_run(st, data).0;
    assert(seq![end].drop_last() =~= Seq::<ReadEventV>::empty());
    let single = reader_run(s0, seq![end]).1;
    let a = reader_step(s0, end);
    assert(reader_run(s0, seq![end].drop_last()) == reader_run(s0, Seq::<ReadEventV>::empty()));
    assert(single == Seq::<ReadActionV>::empty().push(a.1));
    assert(single.drop_last() =~= Seq::<ReadActionV>::empty());
    assert(emitted(single.drop_last()) =~= Seq::<(Seq<char>, Seq<u8>)>::empty());
    let e = emitted(reader_run(st, data).1);
    assert(e =~= Seq::<(Seq<char>, Seq<u8>)>::empty());
    if chunks.flatten().len() > 0 {
        assert(e + emitted(single) =~= seq![(source, chunks.flatten())]);
        assert(emitted(reader_run(st, data + seq![end]).1) + emitted(reader_run(mid, after).1)
            =~= seq![(source, chunks.flatten())]);
    } else {
        assert((e + emitted(single)).len() == 0);
    }
}

} // verus!
