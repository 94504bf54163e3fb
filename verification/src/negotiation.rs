//! What the client side makes of the whole stream of bytes that a browser sends
//! before bytes are relayed.

use crate::client::{after, fresh, next_of, refusal, METHOD_SELECTION_RESP};
use crate::client::{Failure, Next, Progress, SessionError, SessionState, Stage};
use vstd::prelude::*;

verus! {

/// How far a session comes with the bytes that it gets.
pub enum Verdict {
    /// It asks for more bytes than there are.
    Incomplete,
    /// It gives up.
    Rejected(SessionError),
    /// It has read a request for a host and a port.
    Accepted { host: Seq<u8>, port: Seq<u8> },
}

/// What a session makes of a stream of bytes.
#[verifier::ext_equal]
pub struct Negotiation {
    pub verdict: Verdict,
    /// All that it replied, in order.
    pub replies: Seq<u8>,
    /// The bytes that it has not read.
    pub rest: Seq<u8>,
}

/// How many stages may still follow.
pub open spec fn stages_left(stage: Stage) -> nat {
    match stage {
        Stage::Version => 6,
        Stage::Methods(_) => 5,
        Stage::Request => 4,
        Stage::HostLength => 3,
        Stage::Host(_) => 2,
        Stage::Port => 1,
        Stage::Connect => 0,
        Stage::Relay => 0,
    }
}

/// A session that is handed the bytes it asks for, in turn, out of `input`.
pub open spec fn negotiate(s: SessionState, replies: Seq<u8>, input: Seq<u8>) -> Negotiation
    decreases stages_left(s.stage),
{
    match next_of(s.stage) {
        Next::Read(n) => if input.len() < n {
            Negotiation { verdict: Verdict::Incomplete, replies, rest: input }
        } else {
            match after(s, input.take(n as int)) {
                Ok(progress) => negotiate(
                    progress.state,
                    replies + progress.reply,
                    input.skip(n as int),
                ),
                Err(failure) => Negotiation {
                    verdict: Verdict::Rejected(failure.error),
                    replies: replies + failure.reply,
                    rest: input.skip(n as int),
                },
            }
        },
        _ => Negotiation {
            verdict: Verdict::Accepted { host: s.host, port: s.port },
            replies,
            rest: input,
        },
    }
}

/// The stream of a browser that offers authentication methods and then asks for a
/// connection to a port of a host given by its name.
pub open spec fn connect_stream(methods: Seq<u8>, host: Seq<u8>, port: Seq<u8>) -> Seq<u8> {
    seq![0x05, methods.len() as u8] + methods + seq![0x05, 0x01, 0x00, 0x03, host.len() as u8]
        + host + port
}

/// Every request by name is accepted, whatever methods are offered: the host and
/// the port come out as they were sent, the only reply is the one to the methods,
/// and nothing is read beyond the request.
pub proof fn law_requests_are_accepted(
    methods: Seq<u8>,
    host: Seq<u8>,
    port: Seq<u8>,
    rest: Seq<u8>,
)
    requires
        methods.len() <= 255,
        host.len() <= 255,
        port.len() == 2,
    ensures
        negotiate(fresh(), Seq::empty(), connect_stream(methods, host, port) + rest) == (
        Negotiation {
            verdict: Verdict::Accepted { host, port },
            replies: METHOD_SELECTION_RESP@,
            rest,
        }),
{
    let tail = seq![0x05u8, 0x01, 0x00, 0x03, host.len() as u8] + host + port + rest;
    let input = connect_stream(methods, host, port) + rest;
    let s1 = SessionState { stage: Stage::Methods(methods.len() as u8), ..fresh() };
    let s2 = SessionState { stage: Stage::Request, ..fresh() };
    assert(input.skip(2) =~= methods + tail);
    lemma_goes_on(fresh(), Seq::empty(), input, 2, s1, Seq::empty());
    assert((methods + tail).skip(methods.len() as int) =~= tail);
    lemma_goes_on(
        s1,
        Seq::empty(),
        methods + tail,
        methods.len() as usize,
        s2,
        METHOD_SELECTION_RESP@,
    );
    assert(Seq::<u8>::empty() + METHOD_SELECTION_RESP@ =~= METHOD_SELECTION_RESP@);
    lemma_request_accepted(METHOD_SELECTION_RESP@, host, port, rest);
}

proof fn lemma_request_accepted(replies: Seq<u8>, host: Seq<u8>, port: Seq<u8>, rest: Seq<u8>)
    requires
        host.len() <= 255,
        port.len() == 2,
    ensures
        negotiate(
            SessionState { stage: Stage::Request, ..fresh() },
            replies,
            seq![0x05u8, 0x01, 0x00, 0x03, host.len() as u8] + host + port + rest,
        ) == (Negotiation { verdict: Verdict::Accepted { host, port }, replies, rest }),
{
    let input = seq![0x05u8, 0x01, 0x00, 0x03, host.len() as u8] + host + port + rest;
    let s2 = SessionState { stage: Stage::Request, ..fresh() };
    let s3 = SessionState { stage: Stage::HostLength, ..fresh() };
    let s4 = SessionState { stage: Stage::Host(host.len() as u8), ..fresh() };
    let s5 = SessionState { stage: Stage::Port, host, ..fresh() };
    let s6 = SessionState { stage: Stage::Connect, host, port };
    let i3 = seq![host.len() as u8] + host + port + rest;
    let i4 = host + port + rest;
    let i5 = port + rest;
    assert(input.skip(4) =~= i3);
    lemma_goes_on(s2, replies, input, 4, s3, Seq::empty());
    assert(i3.skip(1) =~= i4);
    lemma_goes_on(s3, replies, i3, 1, s4, Seq::empty());
    assert(i4.take(host.len() as int) =~= host);
    assert(fresh().host + host =~= host);
    assert(i4.skip(host.len() as int) =~= i5);
    lemma_goes_on(s4, replies, i4, host.len() as usize, s5, Seq::empty());
    assert(i5.take(2) =~= port);
    assert(i5.skip(2) =~= rest);
    lemma_goes_on(s5, replies, i5, 2, s6, Seq::empty());
}

proof fn lemma_goes_on(
    s: SessionState,
    replies: Seq<u8>,
    input: Seq<u8>,
    n: usize,
    t: SessionState,
    reply: Seq<u8>,
)
    requires
        next_of(s.stage) == Next::Read(n),
        n <= input.len(),
        after(s, input.take(n as int)) == Ok::<Progress, Failure>(Progress { state: t, reply }),
    ensures
        negotiate(s, replies, input) == negotiate(t, replies + reply, input.skip(n as int)),
        reply.len() == 0 ==> negotiate(s, replies, input) == negotiate(
            t,
            replies,
            input.skip(n as int),
        ),
{
    if reply.len() == 0 {
        assert(replies + reply =~= replies);
    }
}

/// Nothing else is accepted: the bytes read are exactly such a request, for the
/// host and the port that come out.
pub proof fn law_only_requests_are_accepted(
    input: Seq<u8>,
    host: Seq<u8>,
    port: Seq<u8>,
    replies: Seq<u8>,
    rest: Seq<u8>,
)
    requires
        negotiate(fresh(), Seq::empty(), input) == (Negotiation {
            verdict: Verdict::Accepted { host, port },
            replies,
            rest,
        }),
    ensures
        host.len() <= 255,
        port.len() == 2,
        input.len() >= 2 + input[1],
        input == connect_stream(input.subrange(2, 2 + input[1]), host, port) + rest,
{
    let methods = input.subrange(2, 2 + input[1]);
    let s1 = SessionState { stage: Stage::Methods(input[1]), ..fresh() };
    let s2 = SessionState { stage: Stage::Request, ..fresh() };
    let i1 = input.skip(2);
    let i2 = i1.skip(input[1] as int);
    lemma_goes_on(fresh(), Seq::empty(), input, 2, s1, Seq::empty());
    lemma_goes_on(s1, Seq::empty(), i1, input[1] as usize, s2, METHOD_SELECTION_RESP@);
    lemma_only_request_accepted(
        Seq::<u8>::empty() + METHOD_SELECTION_RESP@,
        i2,
        host,
        port,
        replies,
        rest,
    );
    assert(i1 =~= methods + i2);
    assert(input =~= seq![0x05u8, methods.len() as u8] + methods + i2);
    assert(input =~= connect_stream(methods, host, port) + rest);
}

proof fn lemma_only_request_accepted(
    before: Seq<u8>,
    input: Seq<u8>,
    host: Seq<u8>,
    port: Seq<u8>,
    replies: Seq<u8>,
    rest: Seq<u8>,
)
    requires
        negotiate(SessionState { stage: Stage::Request, ..fresh() }, before, input) == (Negotiation {
            verdict: Verdict::Accepted { host, port },
            replies,
            rest,
        }),
    ensures
        host.len() <= 255,
        port.len() == 2,
        input == seq![0x05u8, 0x01, 0x00, 0x03, host.len() as u8] + host + port + rest,
{
    let s2 = SessionState { stage: Stage::Request, ..fresh() };
    let s3 = SessionState { stage: Stage::HostLength, ..fresh() };
    let i3 = input.skip(4);
    lemma_goes_on(s2, before, input, 4, s3, Seq::empty());
    lemma_only_host_accepted(before, i3, host, port, replies, rest);
    assert(input =~= seq![0x05u8, 0x01, 0x00, 0x03] + i3);
    assert(input =~= seq![0x05u8, 0x01, 0x00, 0x03, host.len() as u8] + host + port + rest);
}

proof fn lemma_only_host_accepted(
    before: Seq<u8>,
    input: Seq<u8>,
    host: Seq<u8>,
    port: Seq<u8>,
    replies: Seq<u8>,
    rest: Seq<u8>,
)
    requires
        negotiate(SessionState { stage: Stage::HostLength, ..fresh() }, before, input) == (
        Negotiation { verdict: Verdict::Accepted { host, port }, replies, rest }),
    ensures
        host.len() <= 255,
        port.len() == 2,
        input == seq![host.len() as u8] + host + port + rest,
{
    let len = input[0];
    let s3 = SessionState { stage: Stage::HostLength, ..fresh() };
    let s4 = SessionState { stage: Stage::Host(len), ..fresh() };
    let i4 = input.skip(1);
    lemma_goes_on(s3, before, input, 1, s4, Seq::empty());
    let s5 = SessionState { stage: Stage::Port, host: i4.take(len as int), ..fresh() };
    let i5 = i4.skip(len as int);
    assert(fresh().host + i4.take(len as int) =~= i4.take(len as int));
    lemma_goes_on(s4, before, i4, len as usize, s5, Seq::empty());
    let s6 = SessionState { stage: Stage::Connect, port: i5.take(2), ..s5 };
    lemma_goes_on(s5, before, i5, 2, s6, Seq::empty());
    assert(i5 =~= port + rest);
    assert(i4 =~= host + i5);
    assert(input =~= seq![len] + i4);
    assert(input =~= seq![host.len() as u8] + host + port + rest);
}

/// What a browser is told before it is rejected: that its command or its type of
/// address is not supported, after the reply to its methods; an unknown version
/// or a wrong reserved byte is not answered.
pub proof fn law_refusals_are_answered(input: Seq<u8>, error: SessionError)
    requires
        negotiate(fresh(), Seq::empty(), input).verdict == Verdict::Rejected(error),
    ensures
        ({
            let replies = negotiate(fresh(), Seq::empty(), input).replies;
            match error {
                SessionError::UnsupportedCommand(_) => replies == METHOD_SELECTION_RESP@ + refusal(
                    0x07,
                ),
                SessionError::Ipv4NotSupported
                | SessionError::Ipv6NotSupported
                | SessionError::UnknownAddressType(_) => replies == METHOD_SELECTION_RESP@
                    + refusal(0x08),
                SessionError::WrongReserved(_) => replies == METHOD_SELECTION_RESP@,
                SessionError::UnknownVersion(_) => replies == Seq::<u8>::empty() || replies
                    == METHOD_SELECTION_RESP@,
                SessionError::Connect(_) => false,
            }
        }),
{
    let none = Seq::<u8>::empty();
    assert(none + none =~= none);
    if input[0] == 0x05 {
        let s1 = SessionState { stage: Stage::Methods(input[1]), ..fresh() };
        let s2 = SessionState { stage: Stage::Request, ..fresh() };
        let i1 = input.skip(2);
        let i2 = i1.skip(input[1] as int);
        lemma_goes_on(fresh(), none, input, 2, s1, none);
        lemma_goes_on(s1, none, i1, input[1] as usize, s2, METHOD_SELECTION_RESP@);
        let replies = METHOD_SELECTION_RESP@;
        assert(none + METHOD_SELECTION_RESP@ =~= replies);
        assert(replies + none =~= replies);
        if after(s2, i2.take(4)) is Ok {
            lemma_then_accepted(replies, i2.skip(4));
            lemma_goes_on(
                s2,
                replies,
                i2,
                4,
                SessionState { stage: Stage::HostLength, ..fresh() },
                none,
            );
        }
    }
}

/// After a good request nothing is rejected any more.
proof fn lemma_then_accepted(replies: Seq<u8>, input: Seq<u8>)
    ensures
        !(negotiate(
            SessionState { stage: Stage::HostLength, ..fresh() },
            replies,
            input,
        ).verdict is Rejected),
{
    reveal_with_fuel(negotiate, 4);
}

/// What a session makes of every stream of bytes, told by the bytes alone. The stream
/// begins with a version and the number of the methods, which follow; they are answered
/// by 5 and 0. Then come version, command, a reserved byte and the type of the address,
/// the length of the host's name, the name, and two bytes for the port. A stream that
/// stops short of what decides about it is incomplete. A wrong version or reserved byte
/// is rejected without another reply, a command other than 1 after a reply with 7, an
/// address type other than 3 after a reply with 8.
pub proof fn law_every_stream_is_judged(input: Seq<u8>)
    ensures
        ({
            let end = negotiate(fresh(), Seq::empty(), input);
            let none = Seq::<u8>::empty();
            let greeted = seq![5u8, 0];
            let q = 2 + input[1];
            let h = q + 5 + input[q + 4];
            if input.len() < 2 {
                end.verdict is Incomplete && end.replies == none
            } else if input[0] != 5 {
                &&& end.verdict == Verdict::Rejected(SessionError::UnknownVersion(input[0]))
                &&& end.replies == none
            } else if input.len() < q {
                end.verdict is Incomplete && end.replies == none
            } else if input.len() < q + 4 {
                end.verdict is Incomplete && end.replies == greeted
            } else if input[q] != 5 {
                &&& end.verdict == Verdict::Rejected(SessionError::UnknownVersion(input[q]))
                &&& end.replies == greeted
            } else if input[q + 1] != 1 {
                &&& end.verdict == Verdict::Rejected(
                    SessionError::UnsupportedCommand(input[q + 1]),
                )
                &&& end.replies == greeted + seq![5u8, 7, 0, 1, 0, 0, 0, 0, 0, 0]
            } else if input[q + 2] != 0 {
                &&& end.verdict == Verdict::Rejected(SessionError::WrongReserved(input[q + 2]))
                &&& end.replies == greeted
            } else if input[q + 3] != 3 {
                &&& input[q + 3] == 1 ==> end.verdict == Verdict::Rejected(
                    SessionError::Ipv4NotSupported,
                )
                &&& input[q + 3] == 4 ==> end.verdict == Verdict::Rejected(
                    SessionError::Ipv6NotSupported,
                )
                &&& input[q + 3] != 1 && input[q + 3] != 4 ==> end.verdict == Verdict::Rejected(
                    SessionError::UnknownAddressType(input[q + 3]),
                )
                &&& end.replies == greeted + seq![5u8, 8, 0, 1, 0, 0, 0, 0, 0, 0]
            } else if input.len() < q + 5 || input.len() < h + 2 {
                end.verdict is Incomplete && end.replies == greeted
            } else {
                &&& end.verdict == (Verdict::Accepted {
                    host: input.subrange(q + 5, h),
                    port: input.subrange(h, h + 2),
                })
                &&& end.replies == greeted
                &&& end.rest == input.skip(h + 2)
            }
        }),
{
    let none = Seq::<u8>::empty();
    let greeted = seq![5u8, 0];
    assert(none + none =~= none);
    assert(METHOD_SELECTION_RESP@ =~= greeted);
    assert(none + greeted =~= greeted);
    assert(greeted + none =~= greeted);
    if input.len() >= 2 && input[0] == 5 {
        let q = 2 + input[1];
        let h = q + 5 + input[q + 4];
        let s1 = SessionState { stage: Stage::Methods(input[1]), ..fresh() };
        let s2 = SessionState { stage: Stage::Request, ..fresh() };
        let i1 = input.skip(2);
        lemma_goes_on(fresh(), none, input, 2, s1, none);
        if input.len() >= q {
            let i2 = i1.skip(input[1] as int);
            assert(i2 =~= input.skip(q));
            lemma_goes_on(s1, none, i1, input[1] as usize, s2, METHOD_SELECTION_RESP@);
            if input.len() >= q + 4 {
                let request = i2.take(4);
                assert(request[0] == input[q] && request[1] == input[q + 1] && request[2]
                    == input[q + 2] && request[3] == input[q + 3]);
                if after(s2, request) is Ok {
                    let s3 = SessionState { stage: Stage::HostLength, ..fresh() };
                    let i3 = i2.skip(4);
                    lemma_goes_on(s2, greeted, i2, 4, s3, none);
                    if input.len() >= q + 5 {
                        let len = i3[0];
                        assert(len == input[q + 4]);
                        let s4 = SessionState { stage: Stage::Host(len), ..fresh() };
                        let i4 = i3.skip(1);
                        assert(i4 =~= input.skip(q + 5));
                        lemma_goes_on(s3, greeted, i3, 1, s4, none);
                        if input.len() >= h {
                            let host = i4.take(len as int);
                            assert(host =~= input.subrange(q + 5, h));
                            assert(fresh().host + host =~= host);
                            let s5 = SessionState { stage: Stage::Port, host, ..fresh() };
                            let i5 = i4.skip(len as int);
                            assert(i5 =~= input.skip(h));
                            lemma_goes_on(s4, greeted, i4, len as usize, s5, none);
                            if input.len() >= h + 2 {
                                let port = i5.take(2);
                                assert(port =~= input.subrange(h, h + 2));
                                let s6 = SessionState { stage: Stage::Connect, host, port };
                                lemma_goes_on(s5, greeted, i5, 2, s6, none);
                                assert(i5.skip(2) =~= input.skip(h + 2));
                            }
                        }
                    }
                }
            }
        }
    }
}

} // verus!
