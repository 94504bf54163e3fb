//! The byte streams that a channel copies between.

use std::io::Error;
use std::task::{Context, Poll};
use vstd::prelude::*;

verus! {

/// `std::task::Context`: what a pending stream uses to wake its task. It is only
/// handed through.
#[verifier::external_type_specification]
#[verifier::external_body]
pub struct ExContext<'a>(std::task::Context<'a>);

/// `std::task::Poll`, with both of its variants visible.
#[verifier::external_type_specification]
pub struct ExPoll<T>(std::task::Poll<T>);

/// `std::io::Error`: an error of a stream, only handed through.
#[verifier::external_type_specification]
#[verifier::external_body]
pub struct ExError(std::io::Error);

/// A source of bytes that can be polled. An implementation answers for what
/// `poll_read` ensures.
pub trait AsyncRead {
    /// Reads some bytes into the front of `buf` and returns how many, at most as
    /// many as fit. None at all, into a buffer that is not empty, mean the end.
    fn poll_read(&mut self, cx: &mut Context<'_>, buf: &mut [u8]) -> (result: Poll<
        Result<usize, Error>,
    >)
        ensures
            result matches Poll::Ready(Ok(n)) ==> n <= final(buf)@.len(),
            final(buf)@.len() == old(buf)@.len(),
    ;
}

/// A sink of bytes that can be polled. An implementation answers for what
/// `poll_write` ensures.
pub trait AsyncWrite {
    /// Takes some bytes from the front of `buf` and returns how many, at most all.
    fn poll_write(&mut self, cx: &mut Context<'_>, buf: &[u8]) -> (result: Poll<
        Result<usize, Error>,
    >)
        ensures
            result matches Poll::Ready(Ok(n)) ==> n <= buf@.len(),
    ;

    /// Passes on whatever the writer still holds back.
    fn poll_flush(&mut self, cx: &mut Context<'_>) -> Poll<Result<(), Error>>;
}

/// What a call of `poll_read` came to: the bytes that were read, an error, or
/// nothing yet.
pub open spec fn read_outcome(
    result: Poll<Result<usize, Error>>,
    buf: Seq<u8>,
) -> Poll<Result<Seq<u8>, Error>> {
    match result {
        Poll::Ready(Ok(n)) => Poll::Ready(Ok(buf.take(n as int))),
        Poll::Ready(Err(e)) => Poll::Ready(Err(e)),
        Poll::Pending => Poll::Pending,
    }
}

/// A call of `poll_read` that a reader has answered.
pub struct ReadCall {
    /// How many bytes it was given room for.
    pub room: nat,
    /// What it came to.
    pub outcome: Poll<Result<Seq<u8>, Error>>,
}

impl ReadCall {
    /// It read no more bytes than it had room for.
    pub open spec fn fits(self) -> bool {
        self.outcome matches Poll::Ready(Ok(bytes)) ==> bytes.len() <= self.room
    }

    /// The bytes that it read.
    pub open spec fn yielded(self) -> Seq<u8> {
        match self.outcome {
            Poll::Ready(Ok(bytes)) => bytes,
            _ => Seq::empty(),
        }
    }

    /// It found the end of the stream.
    pub open spec fn is_end(self) -> bool {
        self.outcome matches Poll::Ready(Ok(bytes)) && bytes.len() == 0
    }
}

/// A call that a writer has answered.
pub enum WriteCall {
    /// `poll_write`: the bytes that were offered, and its result.
    Write(Seq<u8>, Poll<Result<usize, Error>>),
    /// `poll_flush`: its result.
    Flush(Poll<Result<(), Error>>),
}

impl WriteCall {
    /// It took no more bytes than it was offered.
    pub open spec fn fits(self) -> bool {
        self matches WriteCall::Write(offered, Poll::Ready(Ok(n))) ==> n <= offered.len()
    }

    /// The bytes that it took.
    pub open spec fn taken(self) -> Seq<u8> {
        match self {
            WriteCall::Write(offered, Poll::Ready(Ok(n))) => offered.take(n as int),
            _ => Seq::empty(),
        }
    }

    /// It was a flush that succeeded.
    pub open spec fn is_flushed(self) -> bool {
        self matches WriteCall::Flush(Poll::Ready(Ok(_)))
    }
}

/// All bytes that were read, in order.
pub open spec fn received(calls: Seq<ReadCall>) -> Seq<u8>
    decreases calls.len(),
{
    if calls.len() == 0 {
        Seq::empty()
    } else {
        received(calls.drop_last()) + calls.last().yielded()
    }
}

/// All bytes that were written, in order.
pub open spec fn sent(calls: Seq<WriteCall>) -> Seq<u8>
    decreases calls.len(),
{
    if calls.len() == 0 {
        Seq::empty()
    } else {
        sent(calls.drop_last()) + calls.last().taken()
    }
}

/// One more read adds the bytes that it yielded.
pub(crate) proof fn lemma_received_push(calls: Seq<ReadCall>, call: ReadCall)
    ensures
        received(calls.push(call)) == received(calls) + call.yielded(),
{
    assert(calls.push(call).drop_last() =~= calls);
}

/// One more write adds the bytes that it took.
pub(crate) proof fn lemma_sent_push(calls: Seq<WriteCall>, call: WriteCall)
    ensures
        sent(calls.push(call)) == sent(calls) + call.taken(),
{
    assert(calls.push(call).drop_last() =~= calls);
}

/// A reader together with the calls that were made on it.
pub struct ReadEnd<R: AsyncRead> {
    inner: R,
    calls: Ghost<Seq<ReadCall>>,
}

impl<R: AsyncRead> ReadEnd<R> {
    /// The reader itself.
    pub closed spec fn stream(&self) -> R {
        self.inner
    }

    /// The calls made on the reader so far, the oldest first.
    pub closed spec fn calls(&self) -> Seq<ReadCall> {
        self.calls@
    }

    /// A reader on which no call was made.
    pub fn new(inner: R) -> (end: ReadEnd<R>)
        ensures
            end.stream() == inner,
            end.calls() == Seq::<ReadCall>::empty(),
    {
        ReadEnd { inner, calls: Ghost(Seq::empty()) }
    }

    /// Polls the reader and notes the call.
    pub fn poll_read(&mut self, cx: &mut Context<'_>, buf: &mut [u8]) -> (result: Poll<
        Result<usize, Error>,
    >)
        ensures
            result matches Poll::Ready(Ok(n)) ==> n <= final(buf)@.len(),
            final(buf)@.len() == old(buf)@.len(),
            final(self).calls() == old(self).calls().push(
                (ReadCall { room: old(buf)@.len(), outcome: read_outcome(result, final(buf)@) }),
            ),
            exists|r: &mut R, c: &mut Context<'_>, b: &mut [u8]|
                {
                    &&& *r == old(self).stream() && *final(r) == final(self).stream()
                    &&& *c == *old(cx) && *final(c) == *final(cx)
                    &&& b@ == old(buf)@ && final(b)@ == final(buf)@
                    &&& #[trigger] call_ensures(R::poll_read, (r, c, b), result)
                },
    {
        let ghost room = buf@.len();
        let poll_read = R::poll_read;
        let result = poll_read(&mut self.inner, cx, buf);
        self.calls = Ghost(
            self.calls@.push(ReadCall { room, outcome: read_outcome(result, buf@) }),
        );
        result
    }
}

/// A writer together with the calls that were made on it.
pub struct WriteEnd<W: AsyncWrite> {
    inner: W,
    calls: Ghost<Seq<WriteCall>>,
}

impl<W: AsyncWrite> WriteEnd<W> {
    /// The writer itself.
    pub closed spec fn stream(&self) -> W {
        self.inner
    }

    /// The calls made on the writer so far, the oldest first.
    pub closed spec fn calls(&self) -> Seq<WriteCall> {
        self.calls@
    }

    /// A writer on which no call was made.
    pub fn new(inner: W) -> (end: WriteEnd<W>)
        ensures
            end.stream() == inner,
            end.calls() == Seq::<WriteCall>::empty(),
    {
        WriteEnd { inner, calls: Ghost(Seq::empty()) }
    }

    /// Offers bytes to the writer and notes the call.
    pub fn poll_write(&mut self, cx: &mut Context<'_>, buf: &[u8]) -> (result: Poll<
        Result<usize, Error>,
    >)
        ensures
            result matches Poll::Ready(Ok(n)) ==> n <= buf@.len(),
            final(self).calls() == old(self).calls().push(WriteCall::Write(buf@, result)),
            exists|w: &mut W, c: &mut Context<'_>|
                {
                    &&& *w == old(self).stream() && *final(w) == final(self).stream()
                    &&& *c == *old(cx) && *final(c) == *final(cx)
                    &&& #[trigger] call_ensures(W::poll_write, (w, c, buf), result)
                },
    {
        let poll_write = W::poll_write;
        let result = poll_write(&mut self.inner, cx, buf);
        self.calls = Ghost(self.calls@.push(WriteCall::Write(buf@, result)));
        result
    }

    /// Flushes the writer and notes the call.
    pub fn poll_flush(&mut self, cx: &mut Context<'_>) -> (result: Poll<Result<(), Error>>)
        ensures
            final(self).calls() == old(self).calls().push(WriteCall::Flush(result)),
            exists|w: &mut W, c: &mut Context<'_>|
                {
                    &&& *w == old(self).stream() && *final(w) == final(self).stream()
                    &&& *c == *old(cx) && *final(c) == *final(cx)
                    &&& #[trigger] call_ensures(W::poll_flush, (w, c), result)
                },
    {
        let poll_flush = W::poll_flush;
        let result = poll_flush(&mut self.inner, cx);
        self.calls = Ghost(self.calls@.push(WriteCall::Flush(result)));
        result
    }
}

/// What was read is what the single reads yielded, one after the other: each that was
/// ready and no error adds its bytes, any other adds none.
pub proof fn law_reads_add_up(calls: Seq<ReadCall>, later: Seq<ReadCall>, call: ReadCall)
    ensures
        received(Seq::<ReadCall>::empty()) == Seq::<u8>::empty(),
        received(calls + later) == received(calls) + received(later),
        received(seq![call]) == match call.outcome {
            Poll::Ready(Ok(bytes)) => bytes,
            _ => Seq::<u8>::empty(),
        },
    decreases later.len(),
{
    assert(seq![call] =~= Seq::<ReadCall>::empty().push(call));
    lemma_received_push(Seq::empty(), call);
    assert(received(Seq::<ReadCall>::empty()) =~= Seq::<u8>::empty());
    assert(received(Seq::<ReadCall>::empty()) + call.yielded() =~= call.yielded());
    if later.len() == 0 {
        assert(calls + later =~= calls);
        assert(received(calls) + received(later) =~= received(calls));
    } else {
        law_reads_add_up(calls, later.drop_last(), call);
        assert((calls + later).drop_last() =~= calls + later.drop_last());
        assert(received(calls + later) =~= received(calls) + received(later));
    }
}

/// What was written is what the single writes took, one after the other: each that was
/// ready and no error adds as many bytes as it reported, from the front of those it was
/// offered; any other call adds none.
pub proof fn law_writes_add_up(calls: Seq<WriteCall>, later: Seq<WriteCall>, call: WriteCall)
    ensures
        sent(Seq::<WriteCall>::empty()) == Seq::<u8>::empty(),
        sent(calls + later) == sent(calls) + sent(later),
        sent(seq![call]) == match call {
            WriteCall::Write(offered, Poll::Ready(Ok(n))) => offered.take(n as int),
            _ => Seq::<u8>::empty(),
        },
    decreases later.len(),
{
    assert(seq![call] =~= Seq::<WriteCall>::empty().push(call));
    lemma_sent_push(Seq::empty(), call);
    assert(sent(Seq::<WriteCall>::empty()) =~= Seq::<u8>::empty());
    assert(sent(Seq::<WriteCall>::empty()) + call.taken() =~= call.taken());
    if later.len() == 0 {
        assert(calls + later =~= calls);
        assert(sent(calls) + sent(later) =~= sent(calls));
    } else {
        law_writes_add_up(calls, later.drop_last(), call);
        assert((calls + later).drop_last() =~= calls + later.drop_last());
        assert(sent(calls + later) =~= sent(calls) + sent(later));
    }
}

/// A read that reports a number of bytes has read so many, those at the front of its
/// buffer; any other answer is kept as it is.
pub proof fn law_read_outcome_is_the_answer(result: Poll<Result<usize, Error>>, buf: Seq<u8>)
    requires
        result matches Poll::Ready(Ok(n)) ==> n <= buf.len(),
    ensures
        match (result, read_outcome(result, buf)) {
            (Poll::Ready(Ok(n)), Poll::Ready(Ok(bytes))) => {
                &&& bytes.len() == n
                &&& forall|i: int| 0 <= i < n ==> #[trigger] bytes[i] == buf[i]
            },
            (Poll::Ready(Err(e)), Poll::Ready(Err(f))) => e == f,
            (Poll::Pending, Poll::Pending) => true,
            _ => false,
        },
{
}

/// Polling a reader notes one more call, with the room that it had and the bytes that
/// it left at the front of the buffer.
pub proof fn law_each_read_is_noted<R: AsyncRead>(
    end: &mut ReadEnd<R>,
    cx: &mut Context<'_>,
    buf: &mut [u8],
    result: Poll<Result<usize, Error>>,
)
    requires
        call_ensures(ReadEnd::<R>::poll_read, (end, cx, buf), result),
    ensures
        final(end).calls().len() == old(end).calls().len() + 1,
        old(end).calls().is_prefix_of(final(end).calls()),
        final(end).calls().last().room == old(buf)@.len(),
        match (result, final(end).calls().last().outcome) {
            (Poll::Ready(Ok(n)), Poll::Ready(Ok(bytes))) => {
                &&& bytes.len() == n
                &&& forall|i: int| 0 <= i < n ==> #[trigger] bytes[i] == final(buf)@[i]
            },
            (Poll::Ready(Err(e)), Poll::Ready(Err(f))) => e == f,
            (Poll::Pending, Poll::Pending) => true,
            _ => false,
        },
{
    assert(old(end).calls() =~= final(end).calls().subrange(0, old(end).calls().len() as int));
}

/// Offering bytes to a writer notes one more call, with these bytes and its result.
pub proof fn law_each_write_is_noted<W: AsyncWrite>(
    end: &mut WriteEnd<W>,
    cx: &mut Context<'_>,
    buf: &[u8],
    result: Poll<Result<usize, Error>>,
)
    requires
        call_ensures(WriteEnd::<W>::poll_write, (end, cx, buf), result),
    ensures
        final(end).calls().len() == old(end).calls().len() + 1,
        old(end).calls().is_prefix_of(final(end).calls()),
        final(end).calls().last() == WriteCall::Write(buf@, result),
{
    assert(old(end).calls() =~= final(end).calls().subrange(0, old(end).calls().len() as int));
}

/// Flushing a writer notes one more call, with its result.
pub proof fn law_each_flush_is_noted<W: AsyncWrite>(
    end: &mut WriteEnd<W>,
    cx: &mut Context<'_>,
    result: Poll<Result<(), Error>>,
)
    requires
        call_ensures(WriteEnd::<W>::poll_flush, (end, cx), result),
    ensures
        final(end).calls().len() == old(end).calls().len() + 1,
        old(end).calls().is_prefix_of(final(end).calls()),
        final(end).calls().last() == WriteCall::Flush(result),
{
    assert(old(end).calls() =~= final(end).calls().subrange(0, old(end).calls().len() as int));
}

} // verus!
