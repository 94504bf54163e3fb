//! The bytes on their way from a reader to a writer, and what each call on one of
//! these does to them.

use crate::stream::read_outcome;
use std::io::Error;
use std::task::Poll;
use vstd::prelude::*;

verus! {

/// How many bytes are held between the reader and the writer.
pub const BUF_SIZE: usize = 8192;

/// Why a copy stopped before its end.
#[derive(Debug)]
pub enum TransferError {
    /// The reader failed.
    Read(Error),
    /// The writer failed to take bytes.
    Write(Error),
    /// The writer took none of the bytes that it was offered.
    WriteZero,
    /// The writer failed to flush.
    Flush(Error),
    /// The number of bytes written does not fit in 64 bits.
    AmountOverflow,
}

/// What an error says that a channel makes of a writer's answer. The errors of the
/// streams have words of their own, and a count that does not fit has none.
pub open spec fn error_text(error: TransferError) -> Option<Seq<char>> {
    match error {
        TransferError::WriteZero => Some("write zero byte into writer"@),
        _ => None,
    }
}

impl TransferError {
    /// The error in words, where it has words that no stream gave it.
    pub fn message(&self) -> (text: Option<String>)
        ensures
            text is Some <==> error_text(*self) is Some,
            text matches Some(words) ==> Some(words@) == error_text(*self),
    {
        match self {
            TransferError::WriteZero => Some("write zero byte into writer".to_string()),
            _ => None,
        }
    }
}

/// What is known of a copy while it goes on.
#[verifier::ext_equal]
pub struct TransferState {
    /// The bytes that were read and not yet written.
    pub unsent: Seq<u8>,
    /// How many bytes were written.
    pub amt: nat,
    /// Whether the reader has ended.
    pub read_done: bool,
}

/// Where one call on a stream leaves a copy.
pub enum Turn {
    /// The same poll goes on.
    Next(TransferState),
    /// The poll is over.
    Done(TransferState, Poll<Result<u64, TransferError>>),
}

impl Turn {
    /// The state, whether or not the poll goes on.
    pub open spec fn state(self) -> TransferState {
        match self {
            Turn::Next(s) => s,
            Turn::Done(s, _) => s,
        }
    }
}

/// The state before anything was read.
pub open spec fn fresh() -> TransferState {
    TransferState { unsent: Seq::empty(), amt: 0, read_done: false }
}

/// Bytes are read only when none are held, and never past the end.
pub open spec fn wants_read(s: TransferState) -> bool {
    s.unsent.len() == 0 && !s.read_done
}

/// Bytes that are held are written before anything else.
pub open spec fn wants_write(s: TransferState) -> bool {
    s.unsent.len() > 0
}

/// After the end of the reader, and with nothing left to write, the writer is flushed.
pub open spec fn wants_flush(s: TransferState) -> bool {
    s.unsent.len() == 0 && s.read_done
}

/// What a read does: bytes are kept for writing, no bytes are the end.
pub open spec fn after_read(s: TransferState, outcome: Poll<Result<Seq<u8>, Error>>) -> Turn {
    match outcome {
        Poll::Ready(Ok(bytes)) => if bytes.len() == 0 {
            Turn::Next(TransferState { read_done: true, ..s })
        } else {
            Turn::Next(TransferState { unsent: bytes, ..s })
        },
        Poll::Ready(Err(e)) => Turn::Done(s, Poll::Ready(Err(TransferError::Read(e)))),
        Poll::Pending => Turn::Done(s, Poll::Pending),
    }
}

/// What a write does: the bytes taken are counted and no longer held.
pub open spec fn after_write(s: TransferState, outcome: Poll<Result<usize, Error>>) -> Turn {
    match outcome {
        Poll::Ready(Ok(n)) => {
            let rest = TransferState { unsent: s.unsent.skip(n as int), ..s };
            if n == 0 {
                Turn::Done(s, Poll::Ready(Err(TransferError::WriteZero)))
            } else if s.amt + n > u64::MAX {
                Turn::Done(rest, Poll::Ready(Err(TransferError::AmountOverflow)))
            } else {
                Turn::Next(TransferState { amt: s.amt + n as nat, ..rest })
            }
        },
        Poll::Ready(Err(e)) => Turn::Done(s, Poll::Ready(Err(TransferError::Write(e)))),
        Poll::Pending => Turn::Done(s, Poll::Pending),
    }
}

/// What a flush does: it ends the poll, and with success the whole copy.
pub open spec fn after_flush(s: TransferState, outcome: Poll<Result<(), Error>>) -> Turn {
    match outcome {
        Poll::Ready(Ok(())) => Turn::Done(s, Poll::Ready(Ok(s.amt as u64))),
        Poll::Ready(Err(e)) => Turn::Done(s, Poll::Ready(Err(TransferError::Flush(e)))),
        Poll::Pending => Turn::Done(s, Poll::Pending),
    }
}

/// The turn that a state and the answer of one call amount to.
pub open spec fn turn(s: TransferState, answer: Option<Poll<Result<u64, TransferError>>>) -> Turn {
    match answer {
        None => Turn::Next(s),
        Some(result) => Turn::Done(s, result),
    }
}

/// The bytes on their way through a channel, with what is known of them.
pub struct Transfer {
    buf: [u8; BUF_SIZE],
    pos: usize,
    cap: usize,
    amt: u64,
    read_done: bool,
}

impl View for Transfer {
    type V = TransferState;

    closed spec fn view(&self) -> TransferState {
        TransferState {
            unsent: self.buf@.subrange(self.pos as int, self.cap as int),
            amt: self.amt as nat,
            read_done: self.read_done,
        }
    }
}

impl Transfer {
    /// The bytes between `pos` and `cap` lie in the buffer.
    pub closed spec fn wf(&self) -> bool {
        self.pos <= self.cap <= BUF_SIZE
    }

    /// The whole buffer, with whatever the last read left in it.
    pub closed spec fn buffer(&self) -> Seq<u8> {
        self.buf@
    }

    /// A transfer of nothing so far, with zeros in the buffer.
    pub fn new() -> (transfer: Transfer)
        ensures
            transfer.wf(),
            transfer@ == fresh(),
            transfer.buffer() == Seq::new(BUF_SIZE as nat, |i: int| 0u8),
    {
        let transfer = Transfer { buf: [0;BUF_SIZE], pos: 0, cap: 0, amt: 0, read_done: false };
        assert(transfer@.unsent =~= Seq::empty());
        transfer
    }

    /// Whether the next call is a read.
    pub fn needs_read(&self) -> (b: bool)
        requires
            self.wf(),
        ensures
            b == wants_read(self@),
    {
        self.pos == self.cap && !self.read_done
    }

    /// Whether the next call is a write.
    pub fn needs_write(&self) -> (b: bool)
        requires
            self.wf(),
        ensures
            b == wants_write(self@),
    {
        self.pos < self.cap
    }

    /// Whether the next call is a flush.
    pub fn needs_flush(&self) -> (b: bool)
        requires
            self.wf(),
        ensures
            b == wants_flush(self@),
    {
        self.pos == self.cap && self.read_done
    }

    /// The whole buffer, for a read into it.
    pub fn buffer_mut(&mut self) -> (buf: &mut [u8])
        requires
            old(self).wf(),
            wants_read(old(self)@),
        ensures
            buf@.len() == BUF_SIZE,
            buf@ == old(self).buffer(),
            final(self).wf(),
            final(self)@ == old(self)@,
            final(self).buffer() == final(buf)@,
    {
        &mut self.buf
    }

    /// The count fits in 64 bits and the unsent bytes fit in the buffer.
    pub proof fn lemma_within_limits(&self)
        requires
            self.wf(),
        ensures
            self@.amt <= u64::MAX,
            self@.unsent.len() <= BUF_SIZE,
    {
    }

    /// The bytes that were read and not yet written.
    pub fn unsent(&self) -> (bytes: &[u8])
        requires
            self.wf(),
        ensures
            bytes@ == self@.unsent,
    {
        &self.buf[self.pos..self.cap]
    }

    /// Takes in the result of a read into the buffer. `None` means that the poll
    /// goes on.
    pub fn on_read(&mut self, result: Poll<Result<usize, Error>>) -> (answer: Option<
        Poll<Result<u64, TransferError>>,
    >)
        requires
            old(self).wf(),
            wants_read(old(self)@),
            result matches Poll::Ready(Ok(n)) ==> n <= BUF_SIZE,
        ensures
            final(self).wf(),
            turn(final(self)@, answer) == after_read(
                old(self)@,
                read_outcome(result, old(self).buffer()),
            ),
            final(self).buffer() == old(self).buffer(),
    {
        match result {
            Poll::Ready(Ok(n)) => {
                if n == 0 {
                    self.read_done = true;
                } else {
                    self.pos = 0;
                    self.cap = n;
                }
                assert(n > 0 ==> self@.unsent =~= self.buf@.take(n as int));
                None
            },
            Poll::Ready(Err(e)) => Some(Poll::Ready(Err(TransferError::Read(e)))),
            Poll::Pending => Some(Poll::Pending),
        }
    }

    /// Takes in the result of a write that was offered all unsent bytes. `None`
    /// means that the poll goes on.
    pub fn on_write(&mut self, result: Poll<Result<usize, Error>>) -> (answer: Option<
        Poll<Result<u64, TransferError>>,
    >)
        requires
            old(self).wf(),
            result matches Poll::Ready(Ok(n)) ==> n <= old(self)@.unsent.len(),
        ensures
            final(self).wf(),
            turn(final(self)@, answer) == after_write(old(self)@, result),
            final(self).buffer() == old(self).buffer(),
    {
        match result {
            Poll::Ready(Ok(n)) => {
                if n == 0 {
                    return Some(Poll::Ready(Err(TransferError::WriteZero)));
                }
                self.pos = self.pos + n;
                assert(self@.unsent =~= old(self)@.unsent.skip(n as int));
                match self.amt.checked_add(n as u64) {
                    Some(amt) => {
                        self.amt = amt;
                        None
                    },
                    None => Some(Poll::Ready(Err(TransferError::AmountOverflow))),
                }
            },
            Poll::Ready(Err(e)) => Some(Poll::Ready(Err(TransferError::Write(e)))),
            Poll::Pending => Some(Poll::Pending),
        }
    }

    /// Takes in the result of a flush.
    pub fn on_flush(&self, result: Poll<Result<(), Error>>) -> (answer: Poll<
        Result<u64, TransferError>,
    >)
        ensures
            after_flush(self@, result) == Turn::Done(self@, answer),
    {
        match result {
            Poll::Ready(Ok(())) => Poll::Ready(Ok(self.amt)),
            Poll::Ready(Err(e)) => Poll::Ready(Err(TransferError::Flush(e))),
            Poll::Pending => Poll::Pending,
        }
    }
}

/// A new transfer holds nothing, has counted nothing and has not ended, and its buffer
/// is 8192 zeros.
pub proof fn law_new_transfer_is_empty(transfer: Transfer)
    requires
        call_ensures(Transfer::new, (), transfer),
    ensures
        transfer@.unsent.len() == 0,
        transfer@.amt == 0,
        !transfer@.read_done,
        transfer.buffer().len() == 8192,
        forall|i: int| 0 <= i < 8192 ==> #[trigger] transfer.buffer()[i] == 0,
{
}

/// The next call is a write as long as bytes are held; when none are, it is a read
/// before the end of the reader and a flush after it. It is always just one of these.
pub proof fn law_one_call_is_next(transfer: Transfer, read: bool, write: bool, flush: bool)
    requires
        transfer.wf(),
        call_ensures(Transfer::needs_read, (&transfer,), read),
        call_ensures(Transfer::needs_write, (&transfer,), write),
        call_ensures(Transfer::needs_flush, (&transfer,), flush),
    ensures
        write <==> transfer@.unsent.len() > 0,
        read <==> transfer@.unsent.len() == 0 && !transfer@.read_done,
        flush <==> transfer@.unsent.len() == 0 && transfer@.read_done,
{
}

/// A read into the buffer is given all 8192 bytes of it, and changes nothing else.
pub proof fn law_whole_buffer_is_read_into(transfer: &mut Transfer, buf: &mut [u8])
    requires
        call_ensures(Transfer::buffer_mut, (transfer,), buf),
    ensures
        old(buf)@.len() == 8192,
        final(transfer).buffer() == final(buf)@,
        final(transfer)@.unsent == old(transfer)@.unsent,
        final(transfer)@.amt == old(transfer)@.amt,
        final(transfer)@.read_done == old(transfer)@.read_done,
{
}

/// The bytes that a read left at the front of the buffer, and no others, are held for
/// writing; none at all are the end. An error or a reader that is not ready changes
/// nothing and is the answer.
pub proof fn law_bytes_read_are_held(
    transfer: &mut Transfer,
    result: Poll<Result<usize, Error>>,
    answer: Option<Poll<Result<u64, TransferError>>>,
)
    requires
        call_ensures(Transfer::on_read, (transfer, result), answer),
        result matches Poll::Ready(Ok(n)) ==> n <= old(transfer).buffer().len(),
    ensures
        final(transfer)@.amt == old(transfer)@.amt,
        final(transfer).buffer() == old(transfer).buffer(),
        match result {
            Poll::Ready(Ok(n)) => {
                &&& answer is None
                &&& n == 0 ==> final(transfer)@.read_done && final(transfer)@.unsent
                    == old(transfer)@.unsent
                &&& n > 0 ==> {
                    &&& final(transfer)@.read_done == old(transfer)@.read_done
                    &&& final(transfer)@.unsent.len() == n
                    &&& forall|i: int|
                        0 <= i < n ==> #[trigger] final(transfer)@.unsent[i]
                            == old(transfer).buffer()[i]
                }
            },
            Poll::Ready(Err(e)) => {
                &&& answer == Some(
                    Poll::<Result<u64, TransferError>>::Ready(Err(TransferError::Read(e))),
                )
                &&& final(transfer)@ == old(transfer)@
            },
            Poll::Pending => {
                &&& answer == Some(Poll::<Result<u64, TransferError>>::Pending)
                &&& final(transfer)@ == old(transfer)@
            },
        },
{
}

/// A write of some bytes takes them from the front of those held and adds their number
/// to the count, unless the count would pass 64 bits: only then it is an overflow. A
/// write of nothing, an error or a writer that is not ready changes nothing and is the
/// answer.
pub proof fn law_bytes_written_are_counted(
    transfer: &mut Transfer,
    result: Poll<Result<usize, Error>>,
    answer: Option<Poll<Result<u64, TransferError>>>,
)
    requires
        call_ensures(Transfer::on_write, (transfer, result), answer),
        result matches Poll::Ready(Ok(n)) ==> n <= old(transfer)@.unsent.len(),
    ensures
        final(transfer)@.read_done == old(transfer)@.read_done,
        final(transfer).buffer() == old(transfer).buffer(),
        match result {
            Poll::Ready(Ok(n)) => {
                &&& old(transfer)@.unsent == old(transfer)@.unsent.take(n as int)
                    + final(transfer)@.unsent
                &&& n == 0 ==> {
                    &&& answer == Some(
                        Poll::<Result<u64, TransferError>>::Ready(Err(TransferError::WriteZero)),
                    )
                    &&& final(transfer)@.amt == old(transfer)@.amt
                }
                &&& n > 0 && old(transfer)@.amt + n <= 0xffff_ffff_ffff_ffff ==> {
                    &&& answer is None
                    &&& final(transfer)@.amt == old(transfer)@.amt + n
                }
                &&& n > 0 && old(transfer)@.amt + n > 0xffff_ffff_ffff_ffff ==> answer == Some(
                    Poll::<Result<u64, TransferError>>::Ready(Err(TransferError::AmountOverflow)),
                )
            },
            Poll::Ready(Err(e)) => {
                &&& answer == Some(
                    Poll::<Result<u64, TransferError>>::Ready(Err(TransferError::Write(e))),
                )
                &&& final(transfer)@ == old(transfer)@
            },
            Poll::Pending => {
                &&& answer == Some(Poll::<Result<u64, TransferError>>::Pending)
                &&& final(transfer)@ == old(transfer)@
            },
        },
{
    if let Poll::Ready(Ok(n)) = result {
        assert(old(transfer)@.unsent =~= old(transfer)@.unsent.take(n as int)
            + final(transfer)@.unsent);
    }
}

/// A flush that succeeds is answered with the count; an error or a writer that is not
/// ready is the answer itself.
pub proof fn law_flush_reports_the_count(
    transfer: Transfer,
    result: Poll<Result<(), Error>>,
    answer: Poll<Result<u64, TransferError>>,
)
    requires
        transfer.wf(),
        call_ensures(Transfer::on_flush, (&transfer, result), answer),
    ensures
        match result {
            Poll::Ready(Ok(_)) => answer matches Poll::Ready(Ok(amt)) && amt == transfer@.amt,
            Poll::Ready(Err(e)) => answer == Poll::<Result<u64, TransferError>>::Ready(
                Err(TransferError::Flush(e)),
            ),
            Poll::Pending => answer is Pending,
        },
{
}

/// A write of nothing is the one error that a channel puts in words itself.
pub proof fn law_write_of_nothing_is_put_in_words(error: TransferError, text: Option<String>)
    requires
        call_ensures(TransferError::message, (&error,), text),
    ensures
        text is Some <==> error is WriteZero,
        text matches Some(words) ==> words@ == "write zero byte into writer"@,
{
}

} // verus!
