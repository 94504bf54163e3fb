//! One direction of a relay: copies what a reader yields into a writer.

use crate::stream::{law_reads_add_up, law_writes_add_up};
use crate::stream::{lemma_received_push, lemma_sent_push, read_outcome, received, sent};
use crate::stream::{AsyncRead, AsyncWrite, ReadCall, ReadEnd, WriteCall, WriteEnd};
use crate::transfer::{after_flush, after_read, after_write, fresh};
use crate::transfer::{wants_flush, wants_read, wants_write};
use crate::transfer::{Transfer, TransferError, TransferState, Turn, BUF_SIZE};
use std::io::Error;
use std::task::{Context, Poll};
use vstd::prelude::*;

verus! {

/// The first turn of a poll, given the calls that it makes on the reader and on
/// the writer, and what remains of these after it. `None` if the call that the
/// channel wants is not there: a read into the whole buffer, a write that is
/// offered all unsent bytes, or a flush.
pub open spec fn first_turn(
    s: TransferState,
    reads: Seq<ReadCall>,
    writes: Seq<WriteCall>,
) -> Option<(Turn, Seq<ReadCall>, Seq<WriteCall>)> {
    if wants_read(s) {
        if reads.len() > 0 && reads[0].room == BUF_SIZE && reads[0].fits() {
            Some((after_read(s, reads[0].outcome), reads.skip(1), writes))
        } else {
            None
        }
    } else if writes.len() > 0 {
        match writes[0] {
            WriteCall::Write(offered, outcome) => if wants_write(s) && offered == s.unsent
                && writes[0].fits() {
                Some((after_write(s, outcome), reads, writes.skip(1)))
            } else {
                None
            },
            WriteCall::Flush(outcome) => if wants_flush(s) {
                Some((after_flush(s, outcome), reads, writes.skip(1)))
            } else {
                None
            },
        }
    } else {
        None
    }
}

/// What one poll comes to, given the calls that it makes on the reader and on the
/// writer, each in their order: its result and the state that it leaves.
/// `None` if these are not exactly the calls of one whole poll.
pub open spec fn run(
    s: TransferState,
    reads: Seq<ReadCall>,
    writes: Seq<WriteCall>,
) -> Option<(Poll<Result<u64, TransferError>>, TransferState)>
    decreases reads.len() + writes.len(),
{
    match first_turn(s, reads, writes) {
        None => None,
        Some((Turn::Next(t), r, w)) => run(t, r, w),
        Some((Turn::Done(t, result), r, w)) => if r.len() == 0 && w.len() == 0 {
            Some((result, t))
        } else {
            None
        },
    }
}

/// A call that a channel makes on one of its streams.
pub enum Call {
    /// A call on the reader.
    Read(ReadCall),
    /// A call on the writer.
    Write(WriteCall),
}

impl Call {
    /// The stream was not ready.
    pub open spec fn is_pending(self) -> bool {
        match self {
            Call::Read(call) => call.outcome is Pending,
            Call::Write(WriteCall::Write(_, result)) => result is Pending,
            Call::Write(WriteCall::Flush(result)) => result is Pending,
        }
    }
}

/// The calls of one poll, on both streams, in the order in which it makes them.
pub open spec fn in_order(
    s: TransferState,
    reads: Seq<ReadCall>,
    writes: Seq<WriteCall>,
) -> Seq<Call>
    decreases reads.len() + writes.len(),
{
    let first = if wants_read(s) {
        Call::Read(reads[0])
    } else {
        Call::Write(writes[0])
    };
    match first_turn(s, reads, writes) {
        None => Seq::empty(),
        Some((Turn::Next(t), r, w)) => seq![first] + in_order(t, r, w),
        Some((Turn::Done(..), _, _)) => seq![first],
    }
}

/// The calls on the reader among `calls`.
pub open spec fn reads_of(calls: Seq<Call>) -> Seq<ReadCall>
    decreases calls.len(),
{
    if calls.len() == 0 {
        Seq::empty()
    } else {
        match calls[0] {
            Call::Read(call) => seq![call] + reads_of(calls.skip(1)),
            Call::Write(_) => reads_of(calls.skip(1)),
        }
    }
}

/// The calls on the writer among `calls`.
pub open spec fn writes_of(calls: Seq<Call>) -> Seq<WriteCall>
    decreases calls.len(),
{
    if calls.len() == 0 {
        Seq::empty()
    } else {
        match calls[0] {
            Call::Read(_) => writes_of(calls.skip(1)),
            Call::Write(call) => seq![call] + writes_of(calls.skip(1)),
        }
    }
}

/// A state that fits all calls made so far: what was read is what was written and
/// what is still unsent, in this order; the count is that of the bytes written,
/// while it fits; the reader has ended exactly if the last read found its end; and
/// then nothing is unsent.
pub open spec fn accounts_for(
    s: TransferState,
    reads: Seq<ReadCall>,
    writes: Seq<WriteCall>,
) -> bool {
    &&& received(reads) == sent(writes) + s.unsent
    &&& sent(writes).len() <= u64::MAX ==> s.amt == sent(writes).len()
    &&& s.read_done <==> reads.len() > 0 && reads.last().is_end()
    &&& s.read_done ==> s.unsent.len() == 0
}

proof fn lemma_read_accounted(
    s: TransferState,
    reads: Seq<ReadCall>,
    writes: Seq<WriteCall>,
    call: ReadCall,
)
    requires
        accounts_for(s, reads, writes),
        wants_read(s),
    ensures
        accounts_for(after_read(s, call.outcome).state(), reads.push(call), writes),
{
    lemma_received_push(reads, call);
    let t = after_read(s, call.outcome).state();
    assert(s.unsent =~= Seq::empty());
    assert(t.unsent =~= call.yielded());
    assert(received(reads.push(call)) =~= sent(writes) + t.unsent);
}

proof fn lemma_write_accounted(
    s: TransferState,
    reads: Seq<ReadCall>,
    writes: Seq<WriteCall>,
    result: Poll<Result<usize, Error>>,
)
    requires
        accounts_for(s, reads, writes),
        s.amt <= u64::MAX,
        WriteCall::Write(s.unsent, result).fits(),
    ensures
        accounts_for(
            after_write(s, result).state(),
            reads,
            writes.push(WriteCall::Write(s.unsent, result)),
        ),
{
    let call = WriteCall::Write(s.unsent, result);
    lemma_sent_push(writes, call);
    let t = after_write(s, result).state();
    assert(call.taken() + t.unsent =~= s.unsent);
    assert(sent(writes) + s.unsent =~= sent(writes.push(call)) + t.unsent);
}

proof fn lemma_flush_accounted(
    s: TransferState,
    reads: Seq<ReadCall>,
    writes: Seq<WriteCall>,
    result: Poll<Result<(), Error>>,
)
    requires
        accounts_for(s, reads, writes),
    ensures
        accounts_for(s, reads, writes.push(WriteCall::Flush(result))),
{
    lemma_sent_push(writes, WriteCall::Flush(result));
    assert(sent(writes.push(WriteCall::Flush(result))) =~= sent(writes));
}

/// The calls after the first ones are those that were added to them.
proof fn lemma_later_calls<C>(earlier: Seq<C>, later: Seq<C>)
    ensures
        (earlier + later).skip(earlier.len() as int) == later,
{
    assert((earlier + later).skip(earlier.len() as int) =~= later);
}

/// However a poll goes on from `t`, it went from `s` through these calls to `t`.
spec fn leads_to(
    s: TransferState,
    reads: Seq<ReadCall>,
    writes: Seq<WriteCall>,
    calls: Seq<Call>,
    t: TransferState,
) -> bool {
    forall|r: Seq<ReadCall>, w: Seq<WriteCall>|
        {
            &&& #[trigger] run(t, r, w) == run(s, reads + r, writes + w)
            &&& in_order(s, reads + r, writes + w) == calls + in_order(t, r, w)
        }
}

proof fn lemma_leads_nowhere(s: TransferState)
    ensures
        leads_to(s, Seq::empty(), Seq::empty(), Seq::empty(), s),
{
    assert forall|r: Seq<ReadCall>, w: Seq<WriteCall>|
        {
            &&& #[trigger] run(s, r, w) == run(s, Seq::empty() + r, Seq::empty() + w)
            &&& in_order(s, Seq::empty() + r, Seq::empty() + w) == Seq::<Call>::empty() + in_order(
                s,
                r,
                w,
            )
        } by {
        assert(Seq::<ReadCall>::empty() + r =~= r);
        assert(Seq::<WriteCall>::empty() + w =~= w);
    }
}

proof fn lemma_leads_by_read(
    s: TransferState,
    reads: Seq<ReadCall>,
    writes: Seq<WriteCall>,
    calls: Seq<Call>,
    t: TransferState,
    call: ReadCall,
)
    requires
        leads_to(s, reads, writes, calls, t),
        wants_read(t),
        call.room == BUF_SIZE,
        call.fits(),
    ensures
        after_read(t, call.outcome) matches Turn::Next(u) ==> leads_to(
            s,
            reads.push(call),
            writes,
            calls.push(Call::Read(call)),
            u,
        ),
        after_read(t, call.outcome) matches Turn::Done(u, result) ==> {
            &&& run(s, reads.push(call), writes) == Some((result, u))
            &&& in_order(s, reads.push(call), writes) == calls.push(Call::Read(call))
        },
{
    match after_read(t, call.outcome) {
        Turn::Next(u) => {
            let later = calls.push(Call::Read(call));
            assert forall|r: Seq<ReadCall>, w: Seq<WriteCall>|
                {
                    &&& #[trigger] run(u, r, w) == run(s, reads.push(call) + r, writes + w)
                    &&& in_order(s, reads.push(call) + r, writes + w) == later + in_order(u, r, w)
                } by {
                let more = seq![call] + r;
                assert(more.skip(1) =~= r);
                assert(reads.push(call) + r =~= reads + more);
                assert(run(t, more, w) == run(u, r, w));
                assert(calls + in_order(t, more, w) =~= later + in_order(u, r, w));
            }
        },
        Turn::Done(u, result) => {
            let w = Seq::<WriteCall>::empty();
            assert(writes + w =~= writes);
            assert(reads.push(call) =~= reads + seq![call]);
            assert(run(t, seq![call], w) == Some((result, u)));
            assert(calls + in_order(t, seq![call], w) =~= calls.push(Call::Read(call)));
        },
    }
}

proof fn lemma_leads_by_write(
    s: TransferState,
    reads: Seq<ReadCall>,
    writes: Seq<WriteCall>,
    calls: Seq<Call>,
    t: TransferState,
    call: WriteCall,
)
    requires
        leads_to(s, reads, writes, calls, t),
        !wants_read(t),
        first_turn(t, Seq::empty(), seq![call]) is Some,
    ensures
        (first_turn(t, Seq::empty(), seq![call])->0).0 matches Turn::Next(u) ==> leads_to(
            s,
            reads,
            writes.push(call),
            calls.push(Call::Write(call)),
            u,
        ),
        (first_turn(t, Seq::empty(), seq![call])->0).0 matches Turn::Done(u, result) ==> {
            &&& run(s, reads, writes.push(call)) == Some((result, u))
            &&& in_order(s, reads, writes.push(call)) == calls.push(Call::Write(call))
        },
{
    match (first_turn(t, Seq::empty(), seq![call])->0).0 {
        Turn::Next(u) => {
            let later = calls.push(Call::Write(call));
            assert forall|r: Seq<ReadCall>, w: Seq<WriteCall>|
                {
                    &&& #[trigger] run(u, r, w) == run(s, reads + r, writes.push(call) + w)
                    &&& in_order(s, reads + r, writes.push(call) + w) == later + in_order(u, r, w)
                } by {
                let more = seq![call] + w;
                assert(more.skip(1) =~= w);
                assert(writes.push(call) + w =~= writes + more);
                assert(run(t, r, more) == run(u, r, w));
                assert(calls + in_order(t, r, more) =~= later + in_order(u, r, w));
            }
        },
        Turn::Done(u, result) => {
            let r = Seq::<ReadCall>::empty();
            assert(reads + r =~= reads);
            assert(writes.push(call) =~= writes + seq![call]);
            assert(run(t, r, seq![call]) == Some((result, u)));
            assert(calls + in_order(t, r, seq![call]) =~= calls.push(Call::Write(call)));
        },
    }
}

/// The values that something takes through `n` steps, from `first` to `last`.
pub open spec fn spans<T>(values: Seq<T>, n: nat, first: T, last: T) -> bool {
    &&& values.len() == n + 1
    &&& values.first() == first
    &&& values.last() == last
}

/// A channel that copies what `R` yields into `W`.
pub struct Channel<R: AsyncRead, W: AsyncWrite> {
    transfer: Transfer,
    read: ReadEnd<R>,
    read_addr: String,
    write: WriteEnd<W>,
    write_addr: String,
}

impl<R: AsyncRead, W: AsyncWrite> View for Channel<R, W> {
    type V = TransferState;

    closed spec fn view(&self) -> TransferState {
        self.transfer@
    }
}

impl<R: AsyncRead, W: AsyncWrite> Channel<R, W> {
    /// The transfer fits the calls that were made on the streams.
    pub closed spec fn wf(&self) -> bool {
        &&& self.transfer.wf()
        &&& accounts_for(self@, self.reads(), self.writes())
    }

    /// The stream that is read.
    pub closed spec fn reader(&self) -> R {
        self.read.stream()
    }

    /// The stream that is written.
    pub closed spec fn writer(&self) -> W {
        self.write.stream()
    }

    /// All calls that this channel made on its reader.
    pub closed spec fn reads(&self) -> Seq<ReadCall> {
        self.read.calls()
    }

    /// All calls that this channel made on its writer.
    pub closed spec fn writes(&self) -> Seq<WriteCall> {
        self.write.calls()
    }

    /// The buffer that a read is given, with whatever the last one left in it.
    pub closed spec fn buffer(&self) -> Seq<u8> {
        self.transfer.buffer()
    }

    /// The label of the reader.
    pub closed spec fn read_label(&self) -> Seq<char> {
        self.read_addr@
    }

    /// The label of the writer.
    pub closed spec fn write_label(&self) -> Seq<char> {
        self.write_addr@
    }

    /// The channel reads from `read` and writes to `write`, under these labels.
    pub open spec fn joins(
        &self,
        read: R,
        read_label: Seq<char>,
        write: W,
        write_label: Seq<char>,
    ) -> bool {
        &&& self.reader() == read
        &&& self.read_label() == read_label
        &&& self.writer() == write
        &&& self.write_label() == write_label
    }

    /// The channel has made no call on its streams, and its buffer holds zeros.
    pub open spec fn is_fresh(&self) -> bool {
        &&& self@ == fresh()
        &&& self.buffer() == Seq::new(BUF_SIZE as nat, |i: int| 0u8)
        &&& self.reads().len() == 0
        &&& self.writes().len() == 0
    }

    /// What one poll answered that made all calls since the channel was `earlier`.
    pub open spec fn answer_since(&self, earlier: &Self) -> Poll<Result<u64, TransferError>> {
        (run(
            earlier@,
            self.reads().skip(earlier.reads().len() as int),
            self.writes().skip(earlier.writes().len() as int),
        )->0).0
    }

    /// The calls of one poll that made all calls since the channel was `earlier`, in
    /// their order.
    pub open spec fn calls_since(&self, earlier: &Self) -> Seq<Call> {
        in_order(
            earlier@,
            self.reads().skip(earlier.reads().len() as int),
            self.writes().skip(earlier.writes().len() as int),
        )
    }

    /// One poll that returned `result` took the channel from `earlier` to what it
    /// is now: the calls since then are those of one whole poll with this result.
    pub open spec fn polled(
        &self,
        earlier: &Self,
        result: Poll<Result<u64, TransferError>>,
    ) -> bool {
        &&& earlier.reads().is_prefix_of(self.reads())
        &&& earlier.writes().is_prefix_of(self.writes())
        &&& run(
            earlier@,
            self.reads().skip(earlier.reads().len() as int),
            self.writes().skip(earlier.writes().len() as int),
        ) == Some((result, self@))
        &&& self.read_label() == earlier.read_label()
        &&& self.write_label() == earlier.write_label()
    }

    /// A channel that has made no call on its streams.
    pub fn new(read: R, read_addr: String, write: W, write_addr: String) -> (channel: Channel<R, W>)
        ensures
            channel.wf(),
            channel.is_fresh(),
            channel.joins(read, read_addr@, write, write_addr@),
    {
        let channel = Channel {
            transfer: Transfer::new(),
            read: ReadEnd::new(read),
            read_addr,
            write: WriteEnd::new(write),
            write_addr,
        };
        assert(received(channel.reads()) =~= sent(channel.writes()) + channel@.unsent);
        channel
    }

    /// The label of the reader.
    pub fn read_addr(&self) -> (label: &str)
        ensures
            label@ == self.read_label(),
    {
        self.read_addr.as_str()
    }

    /// The label of the writer.
    pub fn write_addr(&self) -> (label: &str)
        ensures
            label@ == self.write_label(),
    {
        self.write_addr.as_str()
    }

    /// Copies until a stream is pending or fails or, after the end of the reader
    /// and a flush, everything is written: then the result is the number of bytes
    /// written since the channel was made. Each call is made on the stream, with the
    /// context and, if it is a read, into the buffer as the call before left them.
    pub fn poll(&mut self, cx: &mut Context<'_>) -> (result: Poll<Result<u64, TransferError>>)
        requires
            old(self).wf(),
        ensures
            final(self).wf(),
            final(self).polled(old(self), result),
            ({
                let calls = final(self).calls_since(old(self));
                exists|
                    contexts: Seq<Context<'_>>,
                    readers: Seq<R>,
                    buffers: Seq<Seq<u8>>,
                    writers: Seq<W>,
                |
                    {
                        &&& #[trigger] spans(contexts, calls.len(), *old(cx), *final(cx))
                        &&& #[trigger] spans(
                            readers,
                            calls.len(),
                            old(self).reader(),
                            final(self).reader(),
                        )
                        &&& #[trigger] spans(
                            buffers,
                            calls.len(),
                            old(self).buffer(),
                            final(self).buffer(),
                        )
                        &&& #[trigger] spans(
                            writers,
                            calls.len(),
                            old(self).writer(),
                            final(self).writer(),
                        )
                        &&& forall|i: int|
                            0 <= i < calls.len() ==> match #[trigger] calls[i] {
                                Call::Read(call) => {
                                    &&& writers[i + 1] == writers[i]
                                    &&& exists|
                                        r: &mut R,
                                        c: &mut Context<'_>,
                                        b: &mut [u8],
                                        answer: Poll<Result<usize, Error>>,
                                    |
                                        {
                                            &&& *r == readers[i] && *final(r) == readers[i + 1]
                                            &&& *c == contexts[i] && *final(c) == contexts[i + 1]
                                            &&& b@ == buffers[i] && final(b)@ == buffers[i + 1]
                                            &&& b@.len() == call.room
                                            &&& read_outcome(answer, final(b)@) == call.outcome
                                            &&& #[trigger] call_ensures(R::poll_read, (r, c, b), answer)
                                        }
                                },
                                Call::Write(WriteCall::Write(offered, answer)) => {
                                    &&& readers[i + 1] == readers[i] && buffers[i + 1] == buffers[i]
                                    &&& exists|w: &mut W, c: &mut Context<'_>, b: &[u8]|
                                        {
                                            &&& *w == writers[i] && *final(w) == writers[i + 1]
                                            &&& *c == contexts[i] && *final(c) == contexts[i + 1]
                                            &&& b@ == offered
                                            &&& #[trigger] call_ensures(W::poll_write, (w, c, b), answer)
                                        }
                                },
                                Call::Write(WriteCall::Flush(answer)) => {
                                    &&& readers[i + 1] == readers[i] && buffers[i + 1] == buffers[i]
                                    &&& exists|w: &mut W, c: &mut Context<'_>|
                                        {
                                            &&& *w == writers[i] && *final(w) == writers[i + 1]
                                            &&& *c == contexts[i] && *final(c) == contexts[i + 1]
                                            &&& #[trigger] call_ensures(W::poll_flush, (w, c), answer)
                                        }
                                },
                            }
                    }
            }),
    {
        let ghost r0 = self.reads();
        let ghost w0 = self.writes();
        let ghost mut reads: Seq<ReadCall> = Seq::empty();
        let ghost mut writes: Seq<WriteCall> = Seq::empty();
        let ghost mut calls: Seq<Call> = Seq::empty();
        let ghost mut contexts = seq![*cx];
        let ghost mut readers = seq![self.reader()];
        let ghost mut buffers = seq![self.buffer()];
        let ghost mut writers = seq![self.writer()];
        proof {
            lemma_leads_nowhere(self@);
        }
        loop
            invariant
                self.wf(),
                r0 == old(self).reads(),
                w0 == old(self).writes(),
                self.reads() =~= r0 + reads,
                self.writes() =~= w0 + writes,
                leads_to(old(self)@, reads, writes, calls, self@),
                self.read_addr == old(self).read_addr,
                self.write_addr == old(self).write_addr,
                spans(contexts, calls.len(), *old(cx), *cx),
                spans(readers, calls.len(), old(self).reader(), self.reader()),
                spans(buffers, calls.len(), old(self).buffer(), self.buffer()),
                spans(writers, calls.len(), old(self).writer(), self.writer()),
                forall|i: int|
                    0 <= i < calls.len() ==> match #[trigger] calls[i] {
                        Call::Read(call) => {
                            &&& writers[i + 1] == writers[i]
                            &&& exists|
                                r: &mut R,
                                c: &mut Context<'_>,
                                b: &mut [u8],
                                answer: Poll<Result<usize, Error>>,
                            |
                                {
                                    &&& *r == readers[i] && *final(r) == readers[i + 1]
                                    &&& *c == contexts[i] && *final(c) == contexts[i + 1]
                                    &&& b@ == buffers[i] && final(b)@ == buffers[i + 1]
                                    &&& b@.len() == call.room
                                    &&& read_outcome(answer, final(b)@) == call.outcome
                                    &&& #[trigger] call_ensures(R::poll_read, (r, c, b), answer)
                                }
                        },
                        Call::Write(WriteCall::Write(offered, answer)) => {
                            &&& readers[i + 1] == readers[i] && buffers[i + 1] == buffers[i]
                            &&& exists|w: &mut W, c: &mut Context<'_>, b: &[u8]|
                                {
                                    &&& *w == writers[i] && *final(w) == writers[i + 1]
                                    &&& *c == contexts[i] && *final(c) == contexts[i + 1]
                                    &&& b@ == offered
                                    &&& #[trigger] call_ensures(W::poll_write, (w, c, b), answer)
                                }
                        },
                        Call::Write(WriteCall::Flush(answer)) => {
                            &&& readers[i + 1] == readers[i] && buffers[i + 1] == buffers[i]
                            &&& exists|w: &mut W, c: &mut Context<'_>|
                                {
                                    &&& *w == writers[i] && *final(w) == writers[i + 1]
                                    &&& *c == contexts[i] && *final(c) == contexts[i + 1]
                                    &&& #[trigger] call_ensures(W::poll_flush, (w, c), answer)
                                }
                        },
                    },
            decreases
                u64::MAX - self@.amt,
                if wants_read(self@) {
                    1nat
                } else {
                    0nat
                },
        {
            let ghost (s, r, w) = (self@, self.reads(), self.writes());
            proof {
                self.transfer.lemma_within_limits();
            }
            let answer = if self.transfer.needs_read() {
                let result = self.read.poll_read(cx, self.transfer.buffer_mut());
                proof {
                    let call = ReadCall {
                        room: BUF_SIZE as nat,
                        outcome: read_outcome(result, self.transfer.buffer()),
                    };
                    lemma_leads_by_read(old(self)@, reads, writes, calls, s, call);
                    lemma_read_accounted(s, r, w, call);
                    reads = reads.push(call);
                    calls = calls.push(Call::Read(call));
                }
                self.transfer.on_read(result)
            } else if self.transfer.needs_write() {
                let result = self.write.poll_write(cx, self.transfer.unsent());
                proof {
                    let call = WriteCall::Write(s.unsent, result);
                    lemma_leads_by_write(old(self)@, reads, writes, calls, s, call);
                    lemma_write_accounted(s, r, w, result);
                    writes = writes.push(call);
                    calls = calls.push(Call::Write(call));
                }
                self.transfer.on_write(result)
            } else {
                let result = self.write.poll_flush(cx);
                proof {
                    let call = WriteCall::Flush(result);
                    lemma_leads_by_write(old(self)@, reads, writes, calls, s, call);
                    lemma_flush_accounted(s, r, w, result);
                    writes = writes.push(call);
                    calls = calls.push(Call::Write(call));
                }
                Some(self.transfer.on_flush(result))
            };
            proof {
                contexts = contexts.push(*cx);
                readers = readers.push(self.reader());
                buffers = buffers.push(self.buffer());
                writers = writers.push(self.writer());
            }
            if let Some(result) = answer {
                proof {
                    lemma_later_calls(r0, reads);
                    lemma_later_calls(w0, writes);
                    assert(self.calls_since(old(self)) == calls);
                    assert(spans(contexts, calls.len(), *old(cx), *cx));
                    assert(spans(readers, calls.len(), old(self).reader(), self.reader()));
                    assert(spans(buffers, calls.len(), old(self).buffer(), self.buffer()));
                    assert(spans(writers, calls.len(), old(self).writer(), self.writer()));
                }
                return result;
            }
        }
    }
}

/// In every state of a channel the bytes written, followed by the unsent ones, are
/// the bytes read: none is lost, doubled or reordered. The count is the number of
/// bytes written, while that fits in 64 bits. At most one buffer of bytes is unsent.
/// The reader has ended exactly if the last read found its end, and then nothing is
/// unsent.
pub proof fn law_channel_delivers<R: AsyncRead, W: AsyncWrite>(channel: Channel<R, W>)
    requires
        channel.wf(),
    ensures
        received(channel.reads()) == sent(channel.writes()) + channel@.unsent,
        sent(channel.writes()).len() <= u64::MAX ==> channel@.amt == sent(channel.writes()).len(),
        channel@.unsent.len() <= BUF_SIZE,
        channel@.read_done <==> channel.reads().len() > 0 && channel.reads().last().is_end(),
        channel@.read_done ==> channel@.unsent.len() == 0,
{
    channel.transfer.lemma_within_limits();
}

/// A channel that reports its end has read up to the end of its reader, has
/// written exactly the bytes that it read, has flushed last, and reports how many
/// bytes these were, while that fits in 64 bits.
pub proof fn law_channel_completes<R: AsyncRead, W: AsyncWrite>(
    earlier: Channel<R, W>,
    channel: Channel<R, W>,
    amt: u64,
)
    requires
        earlier.wf(),
        channel.wf(),
        channel.polled(&earlier, Poll::Ready(Ok(amt))),
    ensures
        sent(channel.writes()) == received(channel.reads()),
        received(channel.reads()).len() <= u64::MAX ==> amt == received(channel.reads()).len(),
        channel.reads().len() > 0,
        channel.reads().last().is_end(),
        channel.writes().len() > 0,
        channel.writes().last().is_flushed(),
{
    let r = channel.reads().skip(earlier.reads().len() as int);
    let w = channel.writes().skip(earlier.writes().len() as int);
    earlier.transfer.lemma_within_limits();
    law_poll_completes(earlier@, r, w, channel@, amt);
    assert(w.last() == channel.writes().last());
    assert(sent(channel.writes()) + channel@.unsent =~= sent(channel.writes()));
}

/// One poll that reports success leaves nothing to read or write, flushes last and
/// reports the count.
pub proof fn law_poll_completes(
    s: TransferState,
    reads: Seq<ReadCall>,
    writes: Seq<WriteCall>,
    t: TransferState,
    amt: u64,
)
    requires
        s.amt <= u64::MAX,
        run(s, reads, writes) == Some((Poll::<Result<u64, TransferError>>::Ready(Ok(amt)), t)),
    ensures
        amt == t.amt,
        wants_flush(t),
        writes.len() > 0,
        writes.last().is_flushed(),
    decreases reads.len() + writes.len(),
{
    let (turn, r, w) = first_turn(s, reads, writes)->0;
    if let Turn::Next(u) = turn {
        law_poll_completes(u, r, w, t, amt);
        assert(w.last() == writes.last());
    }
}

/// The count never passes 64 bits, and at most one buffer of bytes is held.
pub proof fn law_poll_stays_within_limits(
    s: TransferState,
    reads: Seq<ReadCall>,
    writes: Seq<WriteCall>,
    t: TransferState,
    result: Poll<Result<u64, TransferError>>,
)
    requires
        s.amt <= u64::MAX,
        s.unsent.len() <= BUF_SIZE,
        run(s, reads, writes) == Some((result, t)),
    ensures
        s.amt <= t.amt <= u64::MAX,
        t.unsent.len() <= BUF_SIZE,
    decreases reads.len() + writes.len(),
{
    let (turn, r, w) = first_turn(s, reads, writes)->0;
    if let Turn::Next(u) = turn {
        law_poll_stays_within_limits(u, r, w, t, result);
    }
}

/// The end of the reader is final: nothing is read after it.
pub proof fn law_end_is_final(
    s: TransferState,
    reads: Seq<ReadCall>,
    writes: Seq<WriteCall>,
    t: TransferState,
    result: Poll<Result<u64, TransferError>>,
)
    requires
        s.read_done,
        run(s, reads, writes) == Some((result, t)),
    ensures
        reads.len() == 0,
        t.read_done,
    decreases reads.len() + writes.len(),
{
    let (turn, r, w) = first_turn(s, reads, writes)->0;
    if let Turn::Next(u) = turn {
        law_end_is_final(u, r, w, t, result);
    }
}

/// Polled again after its end, a channel only flushes again, changes nothing and,
/// if the flush succeeds, reports the same count again.
pub proof fn law_after_end_only_flushes(
    s: TransferState,
    reads: Seq<ReadCall>,
    writes: Seq<WriteCall>,
    t: TransferState,
    result: Poll<Result<u64, TransferError>>,
)
    requires
        wants_flush(s),
        run(s, reads, writes) == Some((result, t)),
    ensures
        reads.len() == 0,
        writes.len() == 1,
        writes[0] is Flush,
        writes[0].is_flushed() ==> result == Poll::<Result<u64, TransferError>>::Ready(
            Ok(s.amt as u64),
        ),
        t == s,
{
}

/// The calls of a poll in the order in which it makes them are its reads and its
/// writes, each in their order, and no others.
pub proof fn law_calls_are_interleaved(
    s: TransferState,
    reads: Seq<ReadCall>,
    writes: Seq<WriteCall>,
)
    requires
        run(s, reads, writes) is Some,
    ensures
        in_order(s, reads, writes).len() == reads.len() + writes.len(),
        reads_of(in_order(s, reads, writes)) == reads,
        writes_of(in_order(s, reads, writes)) == writes,
    decreases reads.len() + writes.len(),
{
    let calls = in_order(s, reads, writes);
    let (turn, r, w) = first_turn(s, reads, writes)->0;
    match turn {
        Turn::Next(t) => {
            law_calls_are_interleaved(t, r, w);
            assert(calls.skip(1) =~= in_order(t, r, w));
        },
        Turn::Done(..) => {
            assert(calls.skip(1) =~= Seq::empty());
            assert(reads_of(calls.skip(1)) =~= r);
            assert(writes_of(calls.skip(1)) =~= w);
        },
    }
    assert(reads_of(calls) =~= reads);
    assert(writes_of(calls) =~= writes);
}

/// A poll is pending exactly if its last call was, so that this stream wakes the
/// task; every call before the last one was ready. If the pending call was a read,
/// nothing is left unsent.
pub proof fn law_pending_has_a_cause(
    s: TransferState,
    reads: Seq<ReadCall>,
    writes: Seq<WriteCall>,
    t: TransferState,
    result: Poll<Result<u64, TransferError>>,
)
    requires
        run(s, reads, writes) == Some((result, t)),
    ensures
        in_order(s, reads, writes).len() > 0,
        result is Pending <==> in_order(s, reads, writes).last().is_pending(),
        forall|i: int|
            0 <= i < in_order(s, reads, writes).len() - 1 ==> !(#[trigger] in_order(
                s,
                reads,
                writes,
            )[i]).is_pending(),
        result is Pending && in_order(s, reads, writes).last() is Read ==> t.unsent.len() == 0,
    decreases reads.len() + writes.len(),
{
    let calls = in_order(s, reads, writes);
    let (turn, r, w) = first_turn(s, reads, writes)->0;
    if let Turn::Next(u) = turn {
        law_pending_has_a_cause(u, r, w, t, result);
        let rest = in_order(u, r, w);
        assert(calls.last() == rest.last());
        assert forall|i: int| 0 <= i < calls.len() - 1 implies !(#[trigger] calls[i]).is_pending() by {
            if i > 0 {
                assert(calls[i] == rest[i - 1]);
            }
        }
    }
}

/// A poll of a channel is pending exactly if the last call that it made was, and
/// every call before that one was ready. If the pending call was a read, every byte
/// read so far has been written.
pub proof fn law_channel_waits_for_a_stream<R: AsyncRead, W: AsyncWrite>(
    earlier: Channel<R, W>,
    channel: Channel<R, W>,
    result: Poll<Result<u64, TransferError>>,
)
    requires
        channel.wf(),
        channel.polled(&earlier, result),
    ensures
        channel.calls_since(&earlier).len() > 0,
        result is Pending <==> channel.calls_since(&earlier).last().is_pending(),
        forall|i: int|
            0 <= i < channel.calls_since(&earlier).len() - 1 ==> !(#[trigger] channel.calls_since(
                &earlier,
            )[i]).is_pending(),
        result is Pending && channel.calls_since(&earlier).last() is Read ==> sent(channel.writes())
            == received(channel.reads()),
{
    let r = channel.reads().skip(earlier.reads().len() as int);
    let w = channel.writes().skip(earlier.writes().len() as int);
    law_pending_has_a_cause(earlier@, r, w, channel@, result);
    if channel@.unsent.len() == 0 {
        assert(sent(channel.writes()) + channel@.unsent =~= sent(channel.writes()));
    }
}

/// A call that leads on to another one in the same poll: a read that was ready and no
/// error, or a write that was ready, no error, and took something.
pub open spec fn leads_on(call: Call) -> bool {
    match call {
        Call::Read(read) => read.outcome matches Poll::Ready(Ok(_)),
        Call::Write(write) => write matches WriteCall::Write(_, Poll::Ready(Ok(n))) && n > 0,
    }
}

/// What a poll answers whose last call is `last`, after which `total` bytes have been
/// written in all: what this call reported, in an error of its own kind, or the total
/// after a flush. Only a total beyond 64 bits is an overflow.
pub open spec fn answers(
    last: Call,
    total: nat,
    result: Poll<Result<u64, TransferError>>,
) -> bool {
    match last {
        Call::Read(call) => match call.outcome {
            Poll::Ready(Ok(_)) => false,
            Poll::Ready(Err(e)) => result matches Poll::Ready(Err(TransferError::Read(f))) && f
                == e,
            Poll::Pending => result is Pending,
        },
        Call::Write(WriteCall::Write(_, answer)) => match answer {
            Poll::Ready(Ok(n)) => if n == 0 {
                result matches Poll::Ready(Err(TransferError::WriteZero))
            } else {
                &&& result matches Poll::Ready(Err(TransferError::AmountOverflow))
                &&& total > 0xffff_ffff_ffff_ffff
            },
            Poll::Ready(Err(e)) => result matches Poll::Ready(Err(TransferError::Write(f))) && f
                == e,
            Poll::Pending => result is Pending,
        },
        Call::Write(WriteCall::Flush(answer)) => match answer {
            Poll::Ready(Ok(_)) => result matches Poll::Ready(Ok(amt)) && amt == total,
            Poll::Ready(Err(e)) => result matches Poll::Ready(Err(TransferError::Flush(f))) && f
                == e,
            Poll::Pending => result is Pending,
        },
    }
}

/// A call is made when it is due, given the calls before it on the reader and on the
/// writer. A write is offered all that was read and not written. When there is nothing
/// of this kind, the reader is given a buffer of 8192 bytes, unless it has ended; then
/// the writer is flushed.
pub open spec fn due(call: Call, reads: Seq<ReadCall>, writes: Seq<WriteCall>) -> bool {
    let ended = reads.len() > 0 && (reads.last().outcome matches Poll::Ready(Ok(bytes))
        && bytes.len() == 0);
    match call {
        Call::Read(read) => read.room == 8192 && received(reads) == sent(writes) && !ended,
        Call::Write(WriteCall::Write(offered, _)) => offered.len() > 0 && received(reads) == sent(
            writes,
        ) + offered,
        Call::Write(WriteCall::Flush(_)) => received(reads) == sent(writes) && ended,
    }
}

/// One poll goes on for as long as its calls lead on, and answers what its last call
/// comes to. The bytes that its writes took are added to the count.
pub proof fn law_last_call_is_the_answer(
    s: TransferState,
    reads: Seq<ReadCall>,
    writes: Seq<WriteCall>,
    t: TransferState,
    result: Poll<Result<u64, TransferError>>,
)
    requires
        s.amt <= u64::MAX,
        run(s, reads, writes) == Some((result, t)),
    ensures
        in_order(s, reads, writes).len() > 0,
        forall|i: int|
            0 <= i < in_order(s, reads, writes).len() - 1 ==> leads_on(
                #[trigger] in_order(s, reads, writes)[i],
            ),
        answers(in_order(s, reads, writes).last(), s.amt + sent(writes).len(), result),
    decreases reads.len() + writes.len(),
{
    let calls = in_order(s, reads, writes);
    let (turn, r, w) = first_turn(s, reads, writes)->0;
    if !wants_read(s) {
        assert(writes =~= seq![writes[0]] + w);
        law_writes_add_up(seq![writes[0]], w, writes[0]);
        if w.len() == 0 {
            assert(w =~= Seq::empty());
        }
    }
    if let Turn::Next(u) = turn {
        law_last_call_is_the_answer(u, r, w, t, result);
        let rest = in_order(u, r, w);
        assert(calls.last() == rest.last());
        assert forall|i: int| 0 <= i < calls.len() - 1 implies leads_on(#[trigger] calls[i]) by {
            if i > 0 {
                assert(calls[i] == rest[i - 1]);
            }
        }
    } else {
        if wants_read(s) {
            assert(writes =~= Seq::empty());
            law_writes_add_up(writes, writes, WriteCall::Flush(Poll::Pending));
        }
    }
}

/// The calls of a poll are each made when they are due.
proof fn lemma_calls_are_due(
    s: TransferState,
    reads: Seq<ReadCall>,
    writes: Seq<WriteCall>,
    reads_before: Seq<ReadCall>,
    writes_before: Seq<WriteCall>,
    i: int,
)
    requires
        s.amt <= u64::MAX,
        accounts_for(s, reads_before, writes_before),
        run(s, reads, writes) is Some,
        0 <= i < in_order(s, reads, writes).len(),
    ensures
        due(
            in_order(s, reads, writes)[i],
            reads_before + reads_of(in_order(s, reads, writes).take(i)),
            writes_before + writes_of(in_order(s, reads, writes).take(i)),
        ),
    decreases reads.len() + writes.len(),
{
    let calls = in_order(s, reads, writes);
    let (turn, r, w) = first_turn(s, reads, writes)->0;
    if i == 0 {
        assert(calls.take(0) =~= Seq::empty());
        assert(reads_before + reads_of(calls.take(0)) =~= reads_before);
        assert(writes_before + writes_of(calls.take(0)) =~= writes_before);
        assert(sent(writes_before) + Seq::<u8>::empty() =~= sent(writes_before));
        if s.unsent.len() == 0 {
            assert(s.unsent =~= Seq::empty());
        }
    } else if let Turn::Next(u) = turn {
        let rest = in_order(u, r, w);
        assert(calls[i] == rest[i - 1]);
        assert(calls.take(i).skip(1) =~= rest.take(i - 1));
        assert(calls.take(i)[0] == calls[0]);
        if wants_read(s) {
            let call = reads[0];
            lemma_read_accounted(s, reads_before, writes_before, call);
            lemma_calls_are_due(u, r, w, reads_before.push(call), writes_before, i - 1);
            assert(reads_before + reads_of(calls.take(i)) =~= reads_before.push(call) + reads_of(
                rest.take(i - 1),
            ));
        } else {
            let call = writes[0];
            if let WriteCall::Write(offered, answer) = call {
                lemma_write_accounted(s, reads_before, writes_before, answer);
            }
            lemma_calls_are_due(u, r, w, reads_before, writes_before.push(call), i - 1);
            assert(writes_before + writes_of(calls.take(i)) =~= writes_before.push(call)
                + writes_of(rest.take(i - 1)));
        }
    }
}

/// Every call that a poll of a channel makes is due: what was read is offered to the
/// writer until it has taken all of it, only then more is read, into a buffer of 8192
/// bytes, and only after the end of the reader the writer is flushed.
pub proof fn law_channel_makes_the_calls_that_are_due<R: AsyncRead, W: AsyncWrite>(
    channel: &mut Channel<R, W>,
    cx: &mut Context<'_>,
    result: Poll<Result<u64, TransferError>>,
    i: int,
)
    requires
        old(channel).wf(),
        call_ensures(Channel::<R, W>::poll, (channel, cx), result),
        0 <= i < final(channel).calls_since(old(channel)).len(),
    ensures
        due(
            final(channel).calls_since(old(channel))[i],
            old(channel).reads() + reads_of(final(channel).calls_since(old(channel)).take(i)),
            old(channel).writes() + writes_of(final(channel).calls_since(old(channel)).take(i)),
        ),
{
    let r = final(channel).reads().skip(old(channel).reads().len() as int);
    let w = final(channel).writes().skip(old(channel).writes().len() as int);
    old(channel).transfer.lemma_within_limits();
    lemma_calls_are_due(old(channel)@, r, w, old(channel).reads(), old(channel).writes(), i);
}

/// A poll of a channel goes on for as long as its calls lead on, and answers what its
/// last call comes to. So each error has its cause in this call, success is the number
/// of all bytes written, and there is an overflow only if more bytes have been written
/// than 64 bits can count.
pub proof fn law_channel_answers_its_last_call<R: AsyncRead, W: AsyncWrite>(
    channel: &mut Channel<R, W>,
    cx: &mut Context<'_>,
    result: Poll<Result<u64, TransferError>>,
)
    requires
        old(channel).wf(),
        call_ensures(Channel::<R, W>::poll, (channel, cx), result),
    ensures
        final(channel).calls_since(old(channel)).len() > 0,
        forall|i: int|
            0 <= i < final(channel).calls_since(old(channel)).len() - 1 ==> leads_on(
                #[trigger] final(channel).calls_since(old(channel))[i],
            ),
        sent(final(channel).writes()).len() <= u64::MAX ==> answers(
            final(channel).calls_since(old(channel)).last(),
            sent(final(channel).writes()).len(),
            result,
        ),
        result matches Poll::Ready(Err(TransferError::AmountOverflow)) ==> sent(
            final(channel).writes(),
        ).len() > 0xffff_ffff_ffff_ffff,
{
    lemma_answers_its_last_call(*old(channel), *final(channel), result);
}

pub(crate) proof fn lemma_answers_its_last_call<R: AsyncRead, W: AsyncWrite>(
    earlier: Channel<R, W>,
    channel: Channel<R, W>,
    result: Poll<Result<u64, TransferError>>,
)
    requires
        earlier.wf(),
        channel.polled(&earlier, result),
    ensures
        channel.calls_since(&earlier).len() > 0,
        forall|i: int|
            0 <= i < channel.calls_since(&earlier).len() - 1 ==> leads_on(
                #[trigger] channel.calls_since(&earlier)[i],
            ),
        sent(channel.writes()).len() <= u64::MAX ==> answers(
            channel.calls_since(&earlier).last(),
            sent(channel.writes()).len(),
            result,
        ),
        result matches Poll::Ready(Err(TransferError::AmountOverflow)) ==> sent(
            channel.writes(),
        ).len() > 0xffff_ffff_ffff_ffff,
{
    let r = channel.reads().skip(earlier.reads().len() as int);
    let w = channel.writes().skip(earlier.writes().len() as int);
    earlier.transfer.lemma_within_limits();
    law_last_call_is_the_answer(earlier@, r, w, channel@, result);
    assert(channel.writes() =~= earlier.writes() + w);
    law_writes_add_up(earlier.writes(), w, WriteCall::Flush(Poll::Pending));
}

/// A poll whose calls are all ready, without an error and without a write of nothing,
/// copies everything: it answers the number of all bytes, it has read up to the end of
/// the reader, and it has written exactly what was read. This is so for every number of
/// bytes that fits in 64 bits.
pub proof fn law_channel_copies_to_the_end<R: AsyncRead, W: AsyncWrite>(
    channel: &mut Channel<R, W>,
    cx: &mut Context<'_>,
    result: Poll<Result<u64, TransferError>>,
)
    requires
        old(channel).wf(),
        call_ensures(Channel::<R, W>::poll, (channel, cx), result),
        received(final(channel).reads()).len() <= 0xffff_ffff_ffff_ffff,
        forall|i: int|
            0 <= i < final(channel).calls_since(old(channel)).len() ==> leads_on(
                #[trigger] final(channel).calls_since(old(channel))[i],
            ) || (final(channel).calls_since(old(channel))[i] matches Call::Write(
                WriteCall::Flush(Poll::Ready(Ok(_))),
            )),
    ensures
        result matches Poll::Ready(Ok(amt)) && amt == received(final(channel).reads()).len(),
        sent(final(channel).writes()) == received(final(channel).reads()),
        final(channel).reads().len() > 0,
        final(channel).reads().last().outcome matches Poll::Ready(Ok(bytes)) && bytes.len() == 0,
        final(channel).writes().len() > 0,
        final(channel).writes().last() matches WriteCall::Flush(Poll::Ready(Ok(_))),
{
    let calls = final(channel).calls_since(old(channel));
    law_channel_delivers(*final(channel));
    law_channel_answers_its_last_call(channel, cx, result);
    assert(leads_on(calls.last()) || calls.last() matches Call::Write(
        WriteCall::Flush(Poll::Ready(Ok(_))),
    ));
    if let Poll::Ready(Ok(amt)) = result {
        law_channel_completes(*old(channel), *final(channel), amt);
    }
}

/// A new channel reads from and writes to the streams that it was given, under their
/// labels, and has made no call on them.
pub proof fn law_new_channel_joins_its_streams<R: AsyncRead, W: AsyncWrite>(
    read: R,
    read_addr: String,
    write: W,
    write_addr: String,
    channel: Channel<R, W>,
)
    requires
        call_ensures(Channel::<R, W>::new, (read, read_addr, write, write_addr), channel),
    ensures
        channel.reader() == read,
        channel.writer() == write,
        channel.read_label() == read_addr@,
        channel.write_label() == write_addr@,
        channel.reads() == Seq::<ReadCall>::empty(),
        channel.writes() == Seq::<WriteCall>::empty(),
        channel@.unsent.len() == 0,
        channel@.amt == 0,
        !channel@.read_done,
{
    assert(channel.reads() =~= Seq::empty());
    assert(channel.writes() =~= Seq::empty());
}

/// A poll only adds to the calls made on the streams, and keeps the labels.
pub proof fn law_poll_keeps_the_past<R: AsyncRead, W: AsyncWrite>(
    channel: &mut Channel<R, W>,
    cx: &mut Context<'_>,
    result: Poll<Result<u64, TransferError>>,
)
    requires
        call_ensures(Channel::<R, W>::poll, (channel, cx), result),
    ensures
        old(channel).reads() + reads_of(final(channel).calls_since(old(channel)))
            == final(channel).reads(),
        old(channel).writes() + writes_of(final(channel).calls_since(old(channel)))
            == final(channel).writes(),
        final(channel).read_label() == old(channel).read_label(),
        final(channel).write_label() == old(channel).write_label(),
{
    let r = final(channel).reads().skip(old(channel).reads().len() as int);
    let w = final(channel).writes().skip(old(channel).writes().len() as int);
    law_calls_are_interleaved(old(channel)@, r, w);
    assert(old(channel).reads() + r =~= final(channel).reads());
    assert(old(channel).writes() + w =~= final(channel).writes());
}

/// The labels of a channel are those that it was made with, each for its own stream.
pub proof fn law_labels_are_kept<R: AsyncRead, W: AsyncWrite>(
    read: R,
    read_addr: String,
    write: W,
    write_addr: String,
    channel: Channel<R, W>,
    read_label: &str,
    write_label: &str,
)
    requires
        call_ensures(Channel::<R, W>::new, (read, read_addr, write, write_addr), channel),
        call_ensures(Channel::<R, W>::read_addr, (&channel,), read_label),
        call_ensures(Channel::<R, W>::write_addr, (&channel,), write_label),
    ensures
        read_label@ == read_addr@,
        write_label@ == write_addr@,
{
}

} // verus!
