//! Two channels that together carry a connection in both directions.

use crate::channel::{law_channel_delivers, lemma_answers_its_last_call, spans, Channel};
use crate::stream::{received, sent, AsyncRead, AsyncWrite};
use crate::transfer::TransferError;
use std::task::{Context, Poll};
use vstd::prelude::*;

verus! {

/// A channel of the relay has written more bytes than 64 bits can count.
#[derive(Debug)]
pub struct AmountOverflow;

/// A relay between an inbound and an outbound connection.
pub struct Relay<R: AsyncRead, W: AsyncWrite> {
    i2o: Channel<R, W>,
    i2o_close: bool,
    o2i: Channel<R, W>,
    o2i_close: bool,
}

/// A poll of a channel that found its count at its limit.
pub open spec fn overflowed(polled: Option<Poll<Result<u64, TransferError>>>) -> bool {
    polled matches Some(Poll::Ready(Err(TransferError::AmountOverflow)))
}

/// A poll of a channel that found it done, in success or in error.
pub open spec fn ended(polled: Option<Poll<Result<u64, TransferError>>>) -> bool {
    polled matches Some(Poll::Ready(_))
}

impl<R: AsyncRead, W: AsyncWrite> Relay<R, W> {
    /// Both channels are well-formed.
    pub closed spec fn wf(&self) -> bool {
        self.i2o.wf() && self.o2i.wf()
    }

    /// The channel from the inbound to the outbound connection.
    pub closed spec fn inbound(&self) -> Channel<R, W> {
        self.i2o
    }

    /// The channel from the outbound to the inbound connection.
    pub closed spec fn outbound(&self) -> Channel<R, W> {
        self.o2i
    }

    /// The inbound channel is no longer polled.
    pub closed spec fn inbound_closed(&self) -> bool {
        self.i2o_close
    }

    /// The outbound channel is no longer polled.
    pub closed spec fn outbound_closed(&self) -> bool {
        self.o2i_close
    }

    /// Neither channel was polled yet or is closed.
    pub open spec fn is_fresh(&self) -> bool {
        &&& self.inbound().is_fresh()
        &&& !self.inbound_closed()
        &&& self.outbound().is_fresh()
        &&& !self.outbound_closed()
    }

    /// What the inbound channel answered, if it was polled since `earlier`.
    pub open spec fn inbound_answer(&self, earlier: &Self) -> Option<
        Poll<Result<u64, TransferError>>,
    > {
        if earlier.inbound_closed() {
            None
        } else {
            Some(self.inbound().answer_since(&earlier.inbound()))
        }
    }

    /// What the outbound channel answered, if it was polled since `earlier`. It is
    /// polled after the inbound one, unless that one could not count its bytes.
    pub open spec fn outbound_answer(&self, earlier: &Self) -> Option<
        Poll<Result<u64, TransferError>>,
    > {
        if earlier.outbound_closed() || overflowed(self.inbound_answer(earlier)) {
            None
        } else {
            Some(self.outbound().answer_since(&earlier.outbound()))
        }
    }

    /// One poll that returned `result` took the relay from `earlier` to what it is
    /// now. Each channel was polled once, or left alone; the end of either one
    /// closes the inbound channel, and nothing closes the outbound one; the relay
    /// is done when both are closed.
    pub open spec fn polled(
        &self,
        earlier: &Self,
        result: Poll<Result<(), AmountOverflow>>,
    ) -> bool {
        let first = self.inbound_answer(earlier);
        let second = self.outbound_answer(earlier);
        &&& match first {
            Some(answer) => self.inbound().polled(&earlier.inbound(), answer),
            None => self.inbound() == earlier.inbound(),
        }
        &&& match second {
            Some(answer) => self.outbound().polled(&earlier.outbound(), answer),
            None => self.outbound() == earlier.outbound(),
        }
        &&& self.inbound_closed() == (earlier.inbound_closed() || ended(first) && !overflowed(first)
            || ended(second) && !overflowed(second))
        &&& self.outbound_closed() == earlier.outbound_closed()
        &&& result == if overflowed(first) || overflowed(second) {
            Poll::Ready(Err(AmountOverflow))
        } else if self.inbound_closed() && self.outbound_closed() {
            Poll::Ready(Ok(()))
        } else {
            Poll::Pending
        }
    }

    /// A relay over two channels, both of them open.
    pub fn new(i2o: Channel<R, W>, o2i: Channel<R, W>) -> (relay: Relay<R, W>)
        requires
            i2o.wf(),
            o2i.wf(),
        ensures
            relay.wf(),
            relay.inbound() == i2o,
            !relay.inbound_closed(),
            relay.outbound() == o2i,
            !relay.outbound_closed(),
    {
        Relay { i2o, i2o_close: false, o2i, o2i_close: false }
    }

    /// Polls the channels that are open, the inbound one first, each with the context
    /// as it was left to it.
    pub fn poll(&mut self, cx: &mut Context<'_>) -> (result: Poll<Result<(), AmountOverflow>>)
        requires
            old(self).wf(),
        ensures
            final(self).wf(),
            final(self).polled(old(self), result),
            exists|contexts: Seq<Context<'_>>|
                {
                    &&& #[trigger] spans(contexts, 2, *old(cx), *final(cx))
                    &&& match final(self).inbound_answer(old(self)) {
                        Some(answer) => exists|i2o: &mut Channel<R, W>, c: &mut Context<'_>|
                            {
                                &&& *i2o == old(self).inbound()
                                &&& *final(i2o) == final(self).inbound()
                                &&& *c == contexts[0] && *final(c) == contexts[1]
                                &&& #[trigger] call_ensures(Channel::<R, W>::poll, (i2o, c), answer)
                            },
                        None => contexts[1] == contexts[0],
                    }
                    &&& match final(self).outbound_answer(old(self)) {
                        Some(answer) => exists|o2i: &mut Channel<R, W>, c: &mut Context<'_>|
                            {
                                &&& *o2i == old(self).outbound()
                                &&& *final(o2i) == final(self).outbound()
                                &&& *c == contexts[1] && *final(c) == contexts[2]
                                &&& #[trigger] call_ensures(Channel::<R, W>::poll, (o2i, c), answer)
                            },
                        None => contexts[2] == contexts[1],
                    }
                },
    {
        let poll_channel = Channel::<R, W>::poll;
        let ghost mut contexts = seq![*cx, *cx, *cx];
        if !self.i2o_close {
            let answer = poll_channel(&mut self.i2o, cx);
            proof {
                contexts = seq![contexts[0], *cx, *cx];
            }
            match answer {
                Poll::Ready(Err(TransferError::AmountOverflow)) => {
                    assert(spans(contexts, 2, *old(cx), *cx));
                    return Poll::Ready(Err(AmountOverflow));
                },
                Poll::Ready(_) => {
                    self.i2o_close = true;
                },
                Poll::Pending => {},
            }
        }
        if !self.o2i_close {
            let answer = poll_channel(&mut self.o2i, cx);
            proof {
                contexts = seq![contexts[0], contexts[1], *cx];
            }
            match answer {
                Poll::Ready(Err(TransferError::AmountOverflow)) => {
                    assert(spans(contexts, 2, *old(cx), *cx));
                    return Poll::Ready(Err(AmountOverflow));
                },
                Poll::Ready(_) => {
                    self.i2o_close = true;
                },
                Poll::Pending => {},
            }
        }
        assert(spans(contexts, 2, *old(cx), *cx));
        if self.i2o_close && self.o2i_close {
            Poll::Ready(Ok(()))
        } else {
            Poll::Pending
        }
    }
}

/// In every state of a relay, each direction has written what it has read, but for
/// the bytes that it still holds, and both channels are well-formed, so that what
/// holds of every channel holds of them.
pub proof fn law_relay_delivers<R: AsyncRead, W: AsyncWrite>(relay: Relay<R, W>)
    requires
        relay.wf(),
    ensures
        received(relay.inbound().reads()) == sent(relay.inbound().writes())
            + relay.inbound()@.unsent,
        received(relay.outbound().reads()) == sent(relay.outbound().writes())
            + relay.outbound()@.unsent,
        relay.inbound().wf(),
        relay.outbound().wf(),
{
    law_channel_delivers(relay.inbound());
    law_channel_delivers(relay.outbound());
}

/// A relay whose outbound channel is open, as that of a new relay is, never reports
/// completion, and its outbound channel stays open.
pub proof fn law_relay_never_completes<R: AsyncRead, W: AsyncWrite>(
    earlier: Relay<R, W>,
    relay: Relay<R, W>,
    result: Poll<Result<(), AmountOverflow>>,
)
    requires
        relay.polled(&earlier, result),
        !earlier.outbound_closed(),
    ensures
        !relay.outbound_closed(),
        !(result matches Poll::Ready(Ok(_))),
{
}

/// Once either direction has ended, the inbound channel is closed for good: no
/// later poll touches it.
pub proof fn law_first_end_stops_inbound<R: AsyncRead, W: AsyncWrite>(
    earlier: Relay<R, W>,
    relay: Relay<R, W>,
    result: Poll<Result<(), AmountOverflow>>,
    later: Relay<R, W>,
    later_result: Poll<Result<(), AmountOverflow>>,
)
    requires
        relay.polled(&earlier, result),
        !(result matches Poll::Ready(Err(_))),
        ended(relay.inbound_answer(&earlier)) || ended(relay.outbound_answer(&earlier)),
        later.polled(&relay, later_result),
    ensures
        relay.inbound_closed(),
        later.inbound_closed(),
        later.inbound() == relay.inbound(),
{
}

/// A new relay carries what the first channel reads inbound and what the second one
/// reads outbound, and neither is closed.
pub proof fn law_new_relay_is_open<R: AsyncRead, W: AsyncWrite>(
    i2o: Channel<R, W>,
    o2i: Channel<R, W>,
    relay: Relay<R, W>,
)
    requires
        call_ensures(Relay::<R, W>::new, (i2o, o2i), relay),
    ensures
        relay.inbound() == i2o,
        relay.outbound() == o2i,
        !relay.inbound_closed(),
        !relay.outbound_closed(),
{
}

/// 64 bits can count what each channel of a relay has written.
pub open spec fn countable<R: AsyncRead, W: AsyncWrite>(relay: Relay<R, W>) -> bool {
    &&& sent(relay.inbound().writes()).len() <= 0xffff_ffff_ffff_ffff
    &&& sent(relay.outbound().writes()).len() <= 0xffff_ffff_ffff_ffff
}

/// A relay gives up only if one of its channels has written more bytes than 64 bits can
/// count. Before that, it is done exactly if both channels are closed, and otherwise
/// goes on; with an open outbound channel it always goes on.
pub proof fn law_relay_goes_on<R: AsyncRead, W: AsyncWrite>(
    relay: &mut Relay<R, W>,
    cx: &mut Context<'_>,
    result: Poll<Result<(), AmountOverflow>>,
)
    requires
        old(relay).wf(),
        call_ensures(Relay::<R, W>::poll, (relay, cx), result),
    ensures
        result matches Poll::Ready(Err(_)) ==> !countable(*final(relay)),
        countable(*final(relay)) && final(relay).inbound_closed() && final(relay).outbound_closed()
            ==> (result matches Poll::Ready(Ok(_))),
        countable(*final(relay)) && !(final(relay).inbound_closed()
            && final(relay).outbound_closed()) ==> result is Pending,
        countable(*final(relay)) && !old(relay).outbound_closed() ==> result is Pending,
{
    if let Some(answer) = final(relay).inbound_answer(old(relay)) {
        lemma_answers_its_last_call(old(relay).inbound(), final(relay).inbound(), answer);
    }
    if let Some(answer) = final(relay).outbound_answer(old(relay)) {
        lemma_answers_its_last_call(old(relay).outbound(), final(relay).outbound(), answer);
    }
}

/// Every poll of a relay polls each channel that is open, and makes no call on one that
/// is closed. A channel that answers closes the inbound one, whatever it answers, and
/// nothing else closes one; this is so while 64 bits can count what was written.
pub proof fn law_open_channels_are_polled<R: AsyncRead, W: AsyncWrite>(
    relay: &mut Relay<R, W>,
    cx: &mut Context<'_>,
    result: Poll<Result<(), AmountOverflow>>,
)
    requires
        old(relay).wf(),
        call_ensures(Relay::<R, W>::poll, (relay, cx), result),
        countable(*final(relay)),
    ensures
        old(relay).inbound_closed() ==> final(relay).inbound() == old(relay).inbound(),
        old(relay).outbound_closed() ==> final(relay).outbound() == old(relay).outbound(),
        final(relay).outbound_closed() == old(relay).outbound_closed(),
        !old(relay).inbound_closed() ==> final(relay).inbound().polled(
            &old(relay).inbound(),
            final(relay).inbound().answer_since(&old(relay).inbound()),
        ),
        !old(relay).outbound_closed() ==> final(relay).outbound().polled(
            &old(relay).outbound(),
            final(relay).outbound().answer_since(&old(relay).outbound()),
        ),
        final(relay).inbound_closed() <==> {
            ||| old(relay).inbound_closed()
            ||| final(relay).inbound().answer_since(&old(relay).inbound()) is Ready
            ||| !old(relay).outbound_closed() && final(relay).outbound().answer_since(
                &old(relay).outbound(),
            ) is Ready
        },
{
    let first = final(relay).inbound().answer_since(&old(relay).inbound());
    let second = final(relay).outbound().answer_since(&old(relay).outbound());
    if !old(relay).inbound_closed() {
        lemma_answers_its_last_call(old(relay).inbound(), final(relay).inbound(), first);
    }
    if !old(relay).outbound_closed() {
        lemma_answers_its_last_call(old(relay).outbound(), final(relay).outbound(), second);
    }
}

} // verus!
