//! The capture buffer and the signal handshake session.
//!
//! The handshake writes each catalogued command signal to the device and then
//! reads the device's response into one shared, fixed-size buffer. Every read
//! overwrites the front of the buffer in place; a partial read leaves the
//! unwritten tail holding stale bytes from an earlier iteration, and the
//! buffer is never cleared between iterations. Individual transfer failures
//! are non-fatal: the sequence always runs all of its steps, and only the
//! last successful read determines the front of the final buffer. This
//! "last successful read wins" accumulation is the device's own protocol
//! characteristic and is stated here as the explicit contract.

use vstd::prelude::*;

use crate::signals::{spec_signal, SIGNAL_COUNT};

verus! {

/// Size in bytes of the capture buffer, and the upper bound of one read.
pub const CAPTURE_LEN: usize = 32512;

/// The zero-filled initial contents of a capture buffer.
pub open spec fn zero_capture() -> Seq<u8> {
    Seq::new(CAPTURE_LEN as nat, |i: int| 0u8)
}

/// A successful read of `chunk` overwrites the front of the buffer and leaves
/// the tail as it was.
pub open spec fn overwrite_prefix(buf: Seq<u8>, chunk: Seq<u8>) -> Seq<u8> {
    chunk + buf.subrange(chunk.len() as int, buf.len() as int)
}

/// The fixed-size buffer the handshake reads into.
pub struct CaptureBuffer {
    pub data: Vec<u8>,
}

impl CaptureBuffer {
    /// A capture buffer always holds exactly `CAPTURE_LEN` bytes.
    pub open spec fn wf(self) -> bool {
        self.data@.len() == CAPTURE_LEN
    }

    /// A fresh, zero-filled capture buffer.
    pub fn new() -> (r: Self)
        ensures
            r.wf(),
            r.data@ == zero_capture(),
    {
        let mut data: Vec<u8> = Vec::new();
        let mut n: usize = 0;
        while n < CAPTURE_LEN
            invariant
                n <= CAPTURE_LEN,
                data@.len() == n,
                forall|k: int| 0 <= k < n ==> data@[k] == 0u8,
            decreases CAPTURE_LEN - n,
        {
            data.push(0);
            n += 1;
        }
        assert(data@ =~= zero_capture());
        CaptureBuffer { data }
    }

    /// Apply one successful read: the chunk overwrites the front of the
    /// buffer, the tail keeps its previous (possibly stale) bytes.
    pub fn apply_read(&mut self, chunk: &Vec<u8>)
        requires
            old(self).wf(),
            chunk@.len() <= CAPTURE_LEN,
        ensures
            final(self).wf(),
            final(self).data@ == overwrite_prefix(old(self).data@, chunk@),
    {
        let mut out: Vec<u8> = Vec::new();
        let mut j: usize = 0;
        while j < chunk.len()
            invariant
                j <= chunk@.len(),
                out@ == chunk@.subrange(0, j as int),
            decreases chunk@.len() - j,
        {
            out.push(chunk[j]);
            j += 1;
            assert(out@ =~= chunk@.subrange(0, j as int));
        }
        assert(out@ =~= chunk@);
        let mut k: usize = chunk.len();
        while k < CAPTURE_LEN
            invariant
                chunk@.len() <= k <= CAPTURE_LEN,
                self.data@ == old(self).data@,
                self.wf(),
                out@ == chunk@ + self.data@.subrange(chunk@.len() as int, k as int),
            decreases CAPTURE_LEN - k,
        {
            out.push(self.data[k]);
            k += 1;
            assert(out@ =~= chunk@ + self.data@.subrange(chunk@.len() as int, k as int));
        }
        assert(out@ == overwrite_prefix(old(self).data@, chunk@));
        self.data = out;
    }
}

/// The read half of one write+read pair, as the transport reported it: the
/// bytes that arrived, or a failed transfer.
pub enum ReadOutcome {
    Data(Vec<u8>),
    Failed,
}

impl ReadOutcome {
    /// The bytes carried by a successful read, nothing for a failure.
    pub open spec fn data_view(self) -> Option<Seq<u8>> {
        match self {
            ReadOutcome::Data(v) => Some(v@),
            ReadOutcome::Failed => None,
        }
    }
}

/// One read outcome folded into the buffer: a success overwrites the front, a
/// failure changes nothing.
pub open spec fn spec_capture_step(buf: Seq<u8>, ev: Option<Seq<u8>>) -> Seq<u8> {
    match ev {
        Some(d) => overwrite_prefix(buf, d),
        None => buf,
    }
}

/// A whole sequence of read outcomes folded into the buffer, in order.
pub open spec fn spec_capture_run(buf: Seq<u8>, evs: Seq<Option<Seq<u8>>>) -> Seq<u8>
    decreases evs.len(),
{
    if evs.len() == 0 {
        buf
    } else {
        spec_capture_run(spec_capture_step(buf, evs[0]), evs.subrange(1, evs.len() as int))
    }
}

/// Every successful read in the sequence fits the capture buffer.
pub open spec fn reads_bounded(evs: Seq<Option<Seq<u8>>>) -> bool {
    forall|k: int|
        0 <= k < evs.len() ==> ((#[trigger] evs[k]) matches Some(d) ==> d.len() <= CAPTURE_LEN)
}

proof fn lemma_capture_run_len(buf: Seq<u8>, evs: Seq<Option<Seq<u8>>>)
    requires
        buf.len() == CAPTURE_LEN,
        reads_bounded(evs),
    ensures
        spec_capture_run(buf, evs).len() == CAPTURE_LEN,
    decreases evs.len(),
{
    if evs.len() > 0 {
        let stepped = spec_capture_step(buf, evs[0]);
        assert(stepped.len() == CAPTURE_LEN);
        let tail = evs.subrange(1, evs.len() as int);
        assert forall|k: int| 0 <= k < tail.len() implies ((#[trigger] tail[k]) matches Some(d)
            ==> d.len() <= CAPTURE_LEN) by {
            assert(tail[k] == evs[k + 1]);
        }
        lemma_capture_run_len(stepped, tail);
    }
}

proof fn lemma_capture_run_push(buf: Seq<u8>, evs: Seq<Option<Seq<u8>>>, ev: Option<Seq<u8>>)
    ensures
        spec_capture_run(buf, evs.push(ev)) == spec_capture_step(spec_capture_run(buf, evs), ev),
    decreases evs.len(),
{
    if evs.len() == 0 {
        let p = evs.push(ev);
        assert(p[0] == ev);
        assert(p.subrange(1, 1) =~= Seq::<Option<Seq<u8>>>::empty());
        assert(spec_capture_run(spec_capture_step(buf, ev), p.subrange(1, 1))
            == spec_capture_step(buf, ev));
        assert(spec_capture_run(buf, p) == spec_capture_step(buf, ev));
        assert(spec_capture_run(buf, evs) == buf);
    } else {
        assert(evs.push(ev)[0] == evs[0]);
        let tail = evs.subrange(1, evs.len() as int);
        assert(evs.push(ev).subrange(1, evs.push(ev).len() as int) =~= tail.push(ev));
        lemma_capture_run_push(spec_capture_step(buf, evs[0]), tail, ev);
        assert(spec_capture_run(buf, evs) == spec_capture_run(
            spec_capture_step(buf, evs[0]),
            tail,
        ));
        assert(spec_capture_run(buf, evs.push(ev)) == spec_capture_run(
            spec_capture_step(buf, evs[0]),
            tail.push(ev),
        ));
    }
}

/// The handshake never short-circuits: folding any full sequence of
/// `SIGNAL_COUNT` read outcomes — individual failures included — over the
/// zero-filled initial buffer consumes one outcome per catalogued signal and
/// yields a capture buffer of exactly `CAPTURE_LEN` bytes.
pub proof fn lemma_protocol_runs_every_signal(evs: Seq<Option<Seq<u8>>>)
    requires
        evs.len() == SIGNAL_COUNT,
        reads_bounded(evs),
    ensures
        spec_capture_run(zero_capture(), evs).len() == CAPTURE_LEN,
{
    lemma_capture_run_len(zero_capture(), evs);
}

/// Only the last read matters: when the final read of a run succeeds with a
/// full-length chunk, the resulting capture buffer is exactly that chunk,
/// whatever the earlier outcomes were.
pub proof fn lemma_last_full_read_wins(buf: Seq<u8>, evs: Seq<Option<Seq<u8>>>, d: Seq<u8>)
    requires
        buf.len() == CAPTURE_LEN,
        reads_bounded(evs),
        d.len() == CAPTURE_LEN,
    ensures
        spec_capture_run(buf, evs.push(Some(d))) == d,
{
    lemma_capture_run_len(buf, evs);
    lemma_capture_run_push(buf, evs, Some(d));
    let run = spec_capture_run(buf, evs);
    assert(overwrite_prefix(run, d) =~= d);
}

/// One handshake session: how many write+read pairs have been issued, and the
/// shared capture buffer they read into.
pub struct CaptureSession {
    pub step: usize,
    pub buffer: CaptureBuffer,
}

impl CaptureSession {
    /// The step counter never passes the catalogue, and the buffer keeps its
    /// fixed size.
    pub open spec fn wf(self) -> bool {
        self.step <= SIGNAL_COUNT && self.buffer.wf()
    }

    /// The session is complete exactly when every catalogued signal has had
    /// its write+read pair.
    pub open spec fn spec_done(self) -> bool {
        self.step == SIGNAL_COUNT
    }

    /// A fresh session: no pairs issued, zero-filled buffer.
    pub fn new() -> (r: Self)
        ensures
            r.wf(),
            r.step == 0,
            r.buffer.data@ == zero_capture(),
    {
        CaptureSession { step: 0, buffer: CaptureBuffer::new() }
    }

    /// Whether every signal has been handled.
    pub fn is_done(&self) -> (r: bool)
        ensures
            r == self.spec_done(),
    {
        self.step == SIGNAL_COUNT
    }

    /// The command signal the next write must send.
    pub fn next_signal(&self) -> (r: Vec<u8>)
        requires
            self.wf(),
            !self.spec_done(),
        ensures
            r@ == spec_signal(self.step as int),
    {
        crate::signals::signal_frame(self.step)
    }

    /// Record the read half of the current write+read pair. The session
    /// advances by exactly one signal whether the transfers succeeded or
    /// failed: a failed write or read is reported by the caller and the
    /// sequence continues. A successful read overwrites the front of the
    /// buffer; a failure leaves the buffer as it was.
    pub fn record_read(&mut self, outcome: ReadOutcome)
        requires
            old(self).wf(),
            !old(self).spec_done(),
            outcome matches ReadOutcome::Data(d) ==> d@.len() <= CAPTURE_LEN,
        ensures
            final(self).wf(),
            final(self).step == old(self).step + 1,
            final(self).buffer.data@ == spec_capture_step(
                old(self).buffer.data@,
                outcome.data_view(),
            ),
    {
        match outcome {
            ReadOutcome::Data(d) => {
                self.buffer.apply_read(&d);
            },
            ReadOutcome::Failed => {},
        }
        self.step = self.step + 1;
    }

    /// Hand out the completed capture buffer.
    pub fn finish(self) -> (r: CaptureBuffer)
        requires
            self.wf(),
            self.spec_done(),
        ensures
            r == self.buffer,
            r.data@.len() == CAPTURE_LEN,
    {
        self.buffer
    }
}

} // verus!
