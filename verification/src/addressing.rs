//! The address that travels from the browser over the client side to the server
//! side.

use crate::addr::be_number;
use crate::cache::found;
use crate::client;
use crate::negotiation::{connect_stream, law_requests_are_accepted, negotiate, Verdict};
use crate::server::{after, next_of, settled, target_text, Next, SessionState, Stage};
use crate::server::{law_target_names_host_and_port, names_target};
use crate::text::{decimal, law_decimal_injective, law_decimal_is_digits};
use vstd::prelude::*;
use vstd::utf8::{decode_utf8, valid_utf8};

verus! {

/// How far the server side comes with the bytes that it gets.
pub enum Reading {
    /// It asks for more bytes than there are.
    Incomplete,
    /// The host's name is no text.
    NoText,
    /// It has read the address, and these bytes are left.
    Complete { state: SessionState, rest: Seq<u8> },
}

/// How many stages of reading may still follow.
pub open spec fn stages_left(stage: Stage) -> nat {
    match stage {
        Stage::Size => 3,
        Stage::Host(_) => 2,
        Stage::Port => 1,
        _ => 0,
    }
}

/// A session of the server side that is handed the bytes it asks for, in turn, out
/// of `input`.
pub open spec fn read_all(s: SessionState, input: Seq<u8>) -> Reading
    decreases stages_left(s.stage),
{
    match next_of(s.stage) {
        Next::Read { len, .. } => if input.len() < len {
            Reading::Incomplete
        } else {
            match after(s, input.take(len as int)) {
                Some(t) => read_all(t, input.skip(len as int)),
                None => Reading::NoText,
            }
        },
        _ => Reading::Complete { state: s, rest: input },
    }
}

/// What the client side sends to the server side: the length of the host's name,
/// the name, the port.
pub open spec fn address_header(host: Seq<u8>, port: Seq<u8>) -> Seq<u8> {
    seq![host.len() as u8] + (host + port)
}

/// The server side reads back the address that the client side sends, for every
/// host whose name is text, and nothing beyond it.
pub proof fn law_address_round_trip(
    s: SessionState,
    host: Seq<u8>,
    port: Seq<u8>,
    rest: Seq<u8>,
)
    requires
        s.stage is Size,
        host.len() <= 255,
        port.len() == 2,
        valid_utf8(host),
    ensures
        read_all(s, address_header(host, port) + rest) matches Reading::Complete {
            state,
            rest: left,
        } && state.target == Some(target_text(decode_utf8(host), be_number(port))) && left == rest,
{
    let input = address_header(host, port) + rest;
    let s1 = SessionState { stage: Stage::Host(host.len() as u8), ..s };
    let s2 = SessionState { stage: Stage::Port, host: decode_utf8(host), ..s };
    assert(input.skip(1) =~= host + port + rest);
    assert(read_all(s, input) == read_all(s1, host + port + rest));
    assert((host + port + rest).take(host.len() as int) =~= host);
    assert((host + port + rest).skip(host.len() as int) =~= port + rest);
    assert(read_all(s1, host + port + rest) == read_all(s2, port + rest));
    assert((port + rest).take(2) =~= port);
    assert((port + rest).skip(2) =~= rest);
    let s3 = after(s2, port)->0;
    assert(read_all(s2, port + rest) == read_all(s3, rest));
}

/// A host whose name is no text is rejected by the server side, whatever follows it.
pub proof fn law_no_text_is_rejected(s: SessionState, host: Seq<u8>, rest: Seq<u8>)
    requires
        s.stage is Size,
        host.len() <= 255,
        !valid_utf8(host),
    ensures
        read_all(s, seq![host.len() as u8] + host + rest) is NoText,
{
    let input = seq![host.len() as u8] + host + rest;
    let s1 = SessionState { stage: Stage::Host(host.len() as u8), ..s };
    assert(input.skip(1) =~= host + rest);
    assert(read_all(s, input) == read_all(s1, host + rest));
    assert((host + rest).take(host.len() as int) =~= host);
}

/// From end to end: what a browser asks the client side for is what the server side
/// connects to.
pub proof fn law_browser_reaches_target(
    methods: Seq<u8>,
    host: Seq<u8>,
    port: Seq<u8>,
    rest: Seq<u8>,
    s: SessionState,
)
    requires
        methods.len() <= 255,
        host.len() <= 255,
        port.len() == 2,
        valid_utf8(host),
        s.stage is Size,
    ensures
        negotiate(
            client::fresh(),
            Seq::empty(),
            connect_stream(methods, host, port) + rest,
        ).verdict matches Verdict::Accepted { host: h, port: p } && read_all(
            s,
            address_header(h, p),
        ) matches Reading::Complete { state, .. } && state.target == Some(
            target_text(decode_utf8(host), be_number(port)),
        ),
{
    law_requests_are_accepted(methods, host, port, rest);
    law_address_round_trip(s, host, port, Seq::empty());
    assert(address_header(host, port) + Seq::<u8>::empty() =~= address_header(host, port));
}

/// Different hosts or ports make different targets, so that no address is remembered
/// for the wrong one.
pub proof fn law_targets_differ(host: Seq<char>, port: u16, other_host: Seq<char>, other_port: u16)
    requires
        target_text(host, port) == target_text(other_host, other_port),
    ensures
        host == other_host,
        port == other_port,
{
    let a = target_text(host, port);
    let b = target_text(other_host, other_port);
    let d = decimal(port as nat);
    let e = decimal(other_port as nat);
    law_decimal_is_digits(port as nat);
    law_decimal_is_digits(other_port as nat);
    assert(a.len() == host.len() + 1 + d.len());
    assert(b.len() == other_host.len() + 1 + e.len());
    assert(a[host.len() as int] == ':');
    assert(b[other_host.len() as int] == ':');
    if d.len() < e.len() {
        let i = host.len() - other_host.len() - 1;
        assert(b[host.len() as int] == e[i]);
    } else if e.len() < d.len() {
        let i = other_host.len() - host.len() - 1;
        assert(a[other_host.len() as int] == d[i]);
    }
    assert(a.take(host.len() as int) =~= host);
    assert(b.take(other_host.len() as int) =~= other_host);
    assert(a.skip(host.len() as int + 1) =~= d);
    assert(b.skip(other_host.len() as int + 1) =~= e);
    law_decimal_injective(port as nat, other_port as nat);
}

/// An address that a session has settled on needs no lookup when the same target is
/// asked for again.
pub proof fn law_settled_target_needs_no_lookup(
    s: SessionState,
    addr: crate::addr::SocketAddrV4,
    again: SessionState,
    port: Seq<u8>,
)
    requires
        s.target is Some,
        again.stage is Port,
        again.cache == settled(s, addr).cache,
        s.target == Some(target_text(again.host, be_number(port))),
    ensures
        after(again, port) matches Some(t) && t.stage == Stage::Connect(addr),
{
    crate::cache::law_inserted_key_is_found(
        s.cache,
        crate::server::CACHE_SIZE as nat,
        s.target->0,
        addr,
    );
}

/// An address that could not be connected to is looked up again when its target is
/// asked for again.
pub proof fn law_failed_target_is_looked_up_again(
    s: SessionState,
    again: SessionState,
    port: Seq<u8>,
)
    requires
        s.target is Some,
        again.stage is Port,
        again.cache == crate::cache::without(s.cache, s.target->0),
        s.target == Some(target_text(again.host, be_number(port))),
    ensures
        after(again, port) matches Some(t) && t.stage == Stage::Lookup,
{
    crate::cache::law_removed_key_is_forgotten(s.cache, s.target->0, s.target->0);
    assert(found(again.cache, s.target->0) is None);
}

/// What the server side makes of every stream of bytes, told by the bytes alone. The
/// first byte is the length of the host's name, then comes the name and then two bytes
/// for the port. A name that is no text is rejected; a stream that stops short of what
/// decides about it is incomplete; otherwise the target is the host's name, a colon and
/// the port in base ten, and nothing beyond is read.
pub proof fn law_every_address_is_read(s: SessionState, input: Seq<u8>)
    requires
        s.stage is Size,
    ensures
        ({
            let h = 1 + input[0];
            let host = input.subrange(1, h);
            let port = input.subrange(h, h + 2);
            if input.len() < 1 || input.len() < h {
                read_all(s, input) is Incomplete
            } else if !valid_utf8(host) {
                read_all(s, input) is NoText
            } else if input.len() < h + 2 {
                read_all(s, input) is Incomplete
            } else {
                &&& read_all(s, input) matches Reading::Complete { state, rest }
                &&& state.target matches Some(target)
                &&& names_target(target, decode_utf8(host), port)
                &&& rest == input.skip(h + 2)
            }
        }),
{
    if input.len() >= 1 {
        let len = input[0];
        let h = 1 + len;
        let s1 = SessionState { stage: Stage::Host(len), ..s };
        let i1 = input.skip(1);
        assert(read_all(s, input) == read_all(s1, i1));
        if input.len() >= h {
            let host = input.subrange(1, h);
            assert(i1.take(len as int) =~= host);
            if valid_utf8(host) {
                let s2 = SessionState { stage: Stage::Port, host: decode_utf8(host), ..s };
                let i2 = i1.skip(len as int);
                assert(i2 =~= input.skip(h));
                assert(read_all(s1, i1) == read_all(s2, i2));
                if input.len() >= h + 2 {
                    let port = input.subrange(h, h + 2);
                    assert(i2.take(2) =~= port);
                    let s3 = after(s2, port)->0;
                    assert(i2.skip(2) =~= input.skip(h + 2));
                    assert(read_all(s2, i2) == read_all(s3, input.skip(h + 2)));
                    law_target_names_host_and_port(decode_utf8(host), port);
                }
            }
        }
    }
}

/// What the client side sends once it is connected is read by the server side as the
/// target that the browser asked for: the text of the host's name, a colon and the port
/// in base ten.
pub proof fn law_sent_address_is_the_target(
    session: &mut client::Session,
    local: crate::addr::SocketAddr,
    result: Result<client::Opening, client::Rejection>,
    s: SessionState,
)
    requires
        old(session)@.host.len() <= 255,
        old(session)@.port.len() == 2,
        valid_utf8(old(session)@.host),
        s.stage is Size,
        call_ensures(
            client::Session::address,
            (session, Ok::<crate::addr::SocketAddr, client::ConnectError>(local)),
            result,
        ),
    ensures
        ({
            &&& result matches Ok(opening)
            &&& read_all(s, seq![opening.size] + opening.header@) matches Reading::Complete {
                state,
                rest,
            }
            &&& rest.len() == 0
            &&& state.target matches Some(target)
            &&& names_target(target, decode_utf8(old(session)@.host), old(session)@.port)
        }),
{
    if let Ok(opening) = result {
        let input = seq![opening.size] + opening.header@;
        let h = 1 + input[0];
        law_every_address_is_read(s, input);
        assert(input.subrange(1, h) =~= old(session)@.host);
        assert(input.subrange(h, h + 2) =~= old(session)@.port);
    }
}

} // verus!
