//! The server side: reads the wanted address from the client side and connects to
//! it.

use crate::addr::{be_number, u16_from_be_bytes, SocketAddr, SocketAddrV4};
use crate::addr::{law_text_names_the_address, writes_addr};
use crate::cache::{cache_cap, cache_entries, distinct, found, inserted, touched, without};
use crate::cache::{law_cache_keys_stay_distinct, law_cache_stays_bounded};
use crate::cache::{law_entry_of_a_known_key, law_entry_of_an_unknown_key};
use crate::cache::{cache_get, cache_pop, cache_put, new_cache};
use crate::channel::Channel;
use crate::random::{chosen, draw, drawn, pick};
use crate::relay::Relay;
use crate::stream::{AsyncRead, AsyncWrite};
use crate::text::{decimal, law_decimal_has_its_value, push_decimal, writes};
use lru::LruCache;
use std::string::FromUtf8Error;
use vstd::prelude::*;
use vstd::utf8::{decode_utf8, valid_utf8};

verus! {

/// How many resolved addresses a session remembers.
pub const CACHE_SIZE: usize = 128;

/// The shortest delay after a failure, in milliseconds.
pub const MIN_DELAY: u64 = 100;

/// All delays after a failure are shorter than this, in milliseconds.
pub const MAX_DELAY: u64 = 5000;

/// How long to wait before a failure is acted upon, in milliseconds: a random time
/// after a failure, none after success.
pub fn random_wait_on_fail<T, E>(result: &Result<T, E>) -> (millis: Option<u64>)
    ensures
        millis is Some <==> result is Err,
        millis matches Some(n) ==> MIN_DELAY <= n < MAX_DELAY && drawn(MIN_DELAY, MAX_DELAY, n),
{
    match result {
        Ok(_) => None,
        Err(_) => Some(draw(MIN_DELAY, MAX_DELAY)),
    }
}

/// What a session waits for.
#[derive(Clone, Copy, Debug, PartialEq, Eq)]
pub enum Stage {
    /// The length of the host's name.
    Size,
    /// The host's name, so many bytes long.
    Host(u8),
    /// The port.
    Port,
    /// The addresses of the host.
    Lookup,
    /// A connection to this address.
    Connect(SocketAddrV4),
    /// Nothing: bytes can be relayed.
    Relay,
}

/// What is to be done next.
#[derive(Clone, Copy, Debug, PartialEq, Eq)]
pub enum Next {
    /// Read so many bytes from the client side; a failure is acted upon at once or
    /// after a random wait.
    Read { len: usize, wait_on_fail: bool },
    /// Look up the addresses of the target.
    Lookup,
    /// Connect to an address.
    Connect(SocketAddrV4),
    /// Relay bytes.
    Relay,
}

/// Why a session failed.
#[derive(Debug)]
pub enum SessionError {
    /// The host's name is no text.
    Utf8(FromUtf8Error),
    /// The target cannot be reached, in words.
    Unreachable(String),
}

/// What a session is.
#[verifier::ext_equal]
pub struct SessionState {
    pub stage: Stage,
    pub host: Seq<char>,
    pub target: Option<Seq<char>>,
    /// The resolved addresses, the one used most recently first.
    pub cache: Seq<(Seq<char>, SocketAddrV4)>,
}

/// The state of a session that has read nothing.
pub open spec fn fresh() -> SessionState {
    SessionState { stage: Stage::Size, host: Seq::empty(), target: None, cache: Seq::empty() }
}

/// What a stage asks for.
pub open spec fn next_of(stage: Stage) -> Next {
    match stage {
        Stage::Size => Next::Read { len: 1, wait_on_fail: true },
        Stage::Host(n) => Next::Read { len: n as usize, wait_on_fail: true },
        Stage::Port => Next::Read { len: 2, wait_on_fail: false },
        Stage::Lookup => Next::Lookup,
        Stage::Connect(addr) => Next::Connect(addr),
        Stage::Relay => Next::Relay,
    }
}

/// A target as it is looked up: the host, a colon and the port.
pub open spec fn target_text(host: Seq<char>, port: u16) -> Seq<char> {
    host + seq![':'] + decimal(port as nat)
}

/// A session that has settled on an address of its target: it remembers it and asks
/// for a connection.
pub open spec fn settled(s: SessionState, addr: SocketAddrV4) -> SessionState {
    SessionState {
        stage: Stage::Connect(addr),
        cache: inserted(s.cache, CACHE_SIZE as nat, s.target->0, addr),
        ..s
    }
}

/// What bytes from the client side do to a session that asked for as many. `None`
/// means that the host's name is no text.
pub open spec fn after(s: SessionState, bytes: Seq<u8>) -> Option<SessionState> {
    match s.stage {
        Stage::Size => Some(SessionState { stage: Stage::Host(bytes[0]), ..s }),
        Stage::Host(_) => if valid_utf8(bytes) {
            Some(SessionState { stage: Stage::Port, host: decode_utf8(bytes), ..s })
        } else {
            None
        },
        Stage::Port => {
            let target = target_text(s.host, be_number(bytes));
            let t = SessionState { target: Some(target), cache: touched(s.cache, target), ..s };
            match found(s.cache, target) {
                Some(addr) => Some(settled(t, addr)),
                None => Some(SessionState { stage: Stage::Lookup, ..t }),
            }
        },
        _ => Some(s),
    }
}

/// The IPv4 addresses among some addresses, in their order.
pub open spec fn ipv4_of(addrs: Seq<SocketAddr>) -> Seq<SocketAddrV4>
    decreases addrs.len(),
{
    if addrs.len() == 0 {
        Seq::empty()
    } else {
        match addrs.last() {
            SocketAddr::V4(addr) => ipv4_of(addrs.drop_last()).push(addr),
            SocketAddr::V6(_) => ipv4_of(addrs.drop_last()),
        }
    }
}

/// The text of a failed lookup.
pub open spec fn resolve_error(target: Seq<char>, err: Seq<char>) -> Seq<char> {
    "fail to resolve "@ + target + ". err: "@ + err
}

/// The text of a failed connection.
pub open spec fn connect_error(target: Seq<char>, addr: SocketAddrV4, err: Seq<char>) -> Seq<char> {
    "failed to connect remote "@ + target + "("@ + addr.text() + "), "@ + err
}

/// The label of the target's end of the relay.
pub open spec fn target_label(target: Seq<char>, outbound: Seq<char>) -> Seq<char> {
    target + "("@ + outbound + ")"@
}

/// The IPv4 addresses among some addresses, in their order.
pub fn ipv4_addrs(addrs: &Vec<SocketAddr>) -> (v4: Vec<SocketAddrV4>)
    ensures
        v4@ == ipv4_of(addrs@),
{
    let mut v4: Vec<SocketAddrV4> = Vec::new();
    let mut i: usize = 0;
    while i < addrs.len()
        invariant
            i <= addrs@.len(),
            v4@ == ipv4_of(addrs@.take(i as int)),
        decreases addrs.len() - i,
    {
        assert(addrs@.take(i + 1).drop_last() =~= addrs@.take(i as int));
        if let SocketAddr::V4(addr) = addrs[i] {
            v4.push(addr);
        }
        i = i + 1;
    }
    assert(addrs@.take(addrs@.len() as int) =~= addrs@);
    v4
}

/// The operations on the cache keep it within its size and its targets distinct.
proof fn lemma_cache_ops(cache: Seq<(Seq<char>, SocketAddrV4)>, target: Seq<char>)
    requires
        cache.len() <= CACHE_SIZE,
        distinct(cache),
    ensures
        touched(cache, target).len() <= CACHE_SIZE,
        distinct(touched(cache, target)),
        without(cache, target).len() <= CACHE_SIZE,
        distinct(without(cache, target)),
        forall|addr: SocketAddrV4|
            {
                let cache_after = #[trigger] inserted(cache, CACHE_SIZE as nat, target, addr);
                cache_after.len() <= CACHE_SIZE && distinct(cache_after)
            },
{
    assert forall|addr: SocketAddrV4|
        {
            let cache_after = #[trigger] inserted(cache, CACHE_SIZE as nat, target, addr);
            cache_after.len() <= CACHE_SIZE && distinct(cache_after)
        } by {
        law_cache_stays_bounded(cache, CACHE_SIZE as nat, target, addr);
        law_cache_keys_stay_distinct(cache, CACHE_SIZE as nat, target, addr);
    }
    let addr = SocketAddrV4 { ip: [0, 0, 0, 0], port: 0 };
    law_cache_stays_bounded(cache, CACHE_SIZE as nat, target, addr);
    law_cache_keys_stay_distinct(cache, CACHE_SIZE as nat, target, addr);
}

/// A session with one client.
pub struct Session {
    stage: Stage,
    host: String,
    target_addr: Option<String>,
    addr_cache: LruCache<String, SocketAddrV4>,
}

impl View for Session {
    type V = SessionState;

    closed spec fn view(&self) -> SessionState {
        SessionState {
            stage: self.stage,
            host: self.host@,
            target: match self.target_addr {
                Some(target) => Some(target@),
                None => None,
            },
            cache: cache_entries(self.addr_cache),
        }
    }
}

impl Session {
    /// There is a target once it was read; the cache has its size, does not exceed it
    /// and holds no target twice.
    pub closed spec fn wf(&self) -> bool {
        &&& self.stage is Lookup || self.stage is Connect || self.stage is Relay
            ==> self.target_addr is Some
        &&& cache_cap(self.addr_cache) == CACHE_SIZE
        &&& self@.cache.len() <= CACHE_SIZE
        &&& distinct(self@.cache)
    }

    /// In every state of a session at most so many addresses are remembered, and none
    /// for a target twice.
    pub proof fn law_cache_is_bounded(&self)
        requires
            self.wf(),
        ensures
            self@.cache.len() <= CACHE_SIZE,
            distinct(self@.cache),
            self@.stage is Lookup || self@.stage is Connect || self@.stage is Relay
                ==> self@.target is Some,
    {
    }

    /// A session that has read nothing.
    pub fn new() -> (session: Session)
        ensures
            session.wf(),
            session@ == fresh(),
    {
        Session {
            stage: Stage::Size,
            host: String::new(),
            target_addr: None,
            addr_cache: new_cache(CACHE_SIZE),
        }
    }

    /// Starts over with reading an address; what is remembered stays so.
    pub fn restart(&mut self)
        requires
            old(self).wf(),
        ensures
            final(self).wf(),
            final(self)@ == (SessionState { stage: Stage::Size, ..old(self)@ }),
    {
        self.stage = Stage::Size;
    }

    /// What the session asks for.
    pub fn next(&self) -> (next: Next)
        ensures
            next == next_of(self@.stage),
    {
        match self.stage {
            Stage::Size => Next::Read { len: 1, wait_on_fail: true },
            Stage::Host(n) => Next::Read { len: n as usize, wait_on_fail: true },
            Stage::Port => Next::Read { len: 2, wait_on_fail: false },
            Stage::Lookup => Next::Lookup,
            Stage::Connect(addr) => Next::Connect(addr),
            Stage::Relay => Next::Relay,
        }
    }

    /// The target, as it is looked up.
    pub fn target_addr(&self) -> (target: &str)
        requires
            self@.target is Some,
        ensures
            target@ == self@.target->0,
    {
        self.target_addr.as_ref().unwrap().as_str()
    }

    /// Takes in the bytes that the session asked for: the length of the host's name,
    /// the name, the port. With the port the target is known, and if its address is
    /// remembered no lookup is needed.
    pub fn read_address(&mut self, bytes: Vec<u8>) -> (result: Result<(), SessionError>)
        requires
            old(self).wf(),
            next_of(old(self)@.stage) matches Next::Read { len, .. } && len == bytes@.len(),
        ensures
            final(self).wf(),
            match after(old(self)@, bytes@) {
                Some(s) => result is Ok && final(self)@ == s,
                None => {
                    &&& result matches Err(SessionError::Utf8(e))
                    &&& call_ensures(String::from_utf8, (bytes,), Err(e))
                    &&& final(self)@ == old(self)@
                },
            },
    {
        match self.stage {
            Stage::Size => {
                self.stage = Stage::Host(bytes[0]);
                Ok(())
            },
            Stage::Host(_) => {
                let from_utf8 = String::from_utf8;
                match from_utf8(bytes) {
                    Ok(host) => {
                        self.host = host;
                        self.stage = Stage::Port;
                        Ok(())
                    },
                    Err(e) => Err(SessionError::Utf8(e)),
                }
            },
            _ => {
                let port = u16_from_be_bytes([bytes[0], bytes[1]]);
                let mut target = self.host.clone();
                target.push(':');
                push_decimal(&mut target, port as u32);
                assert(target@ =~= target_text(old(self)@.host, be_number(bytes@)));
                proof {
                    lemma_cache_ops(self@.cache, target@);
                }
                let cached = cache_get(&mut self.addr_cache, &target);
                self.target_addr = Some(target);
                match cached {
                    Some(addr) => {
                        self.settle(addr);
                    },
                    None => {
                        self.stage = Stage::Lookup;
                    },
                }
                Ok(())
            },
        }
    }

    /// Settles on an address of the target: remembers it, to connect to it.
    pub fn settle(&mut self, addr: SocketAddrV4)
        requires
            old(self).wf(),
            old(self)@.target is Some,
        ensures
            final(self).wf(),
            final(self)@ == settled(old(self)@, addr),
    {
        let target = self.target_addr.as_ref().unwrap().clone();
        proof {
            lemma_cache_ops(self@.cache, target@);
        }
        cache_put(&mut self.addr_cache, target, addr);
        self.stage = Stage::Connect(addr);
    }

    /// Takes in the addresses of the target, at least one of them an IPv4 address, or why
    /// there are none. The session settles on one of the IPv4 addresses, at random.
    pub fn looked_up(&mut self, outcome: Result<Vec<SocketAddr>, String>) -> (result: Result<
        SocketAddrV4,
        SessionError,
    >)
        requires
            old(self).wf(),
            old(self)@.stage is Lookup,
            outcome matches Ok(addrs) ==> ipv4_of(addrs@).len() > 0,
        ensures
            final(self).wf(),
            match outcome {
                Ok(addrs) => {
                    &&& result matches Ok(addr)
                    &&& ipv4_of(addrs@).contains(addr)
                    &&& chosen(ipv4_of(addrs@), addr)
                    &&& final(self)@ == settled(old(self)@, addr)
                },
                Err(err) => {
                    &&& result matches Err(SessionError::Unreachable(text))
                    &&& text@ == resolve_error(old(self)@.target->0, err@)
                    &&& final(self)@ == old(self)@
                },
            },
    {
        match outcome {
            Ok(addrs) => {
                let addr = pick(&ipv4_addrs(&addrs));
                self.settle(addr);
                Ok(addr)
            },
            Err(err) => {
                let mut text = String::new();
                text.append("fail to resolve ");
                text.append(self.target_addr());
                text.append(". err: ");
                text.append(err.as_str());
                assert(text@ =~= resolve_error(self@.target->0, err@));
                Err(SessionError::Unreachable(text))
            },
        }
    }

    /// Takes in whether the connection to the target was made, or why not. An address
    /// that could not be connected to is forgotten.
    pub fn connected(&mut self, outcome: Result<(), String>) -> (result: Result<(), SessionError>)
        requires
            old(self).wf(),
            old(self)@.stage is Connect,
        ensures
            final(self).wf(),
            match outcome {
                Ok(_) => {
                    &&& result is Ok
                    &&& final(self)@ == (SessionState { stage: Stage::Relay, ..old(self)@ })
                },
                Err(err) => {
                    &&& result matches Err(SessionError::Unreachable(text))
                    &&& old(self)@.stage matches Stage::Connect(addr)
                    &&& text@ == connect_error(old(self)@.target->0, addr, err@)
                    &&& final(self)@ == (SessionState {
                        cache: without(old(self)@.cache, old(self)@.target->0),
                        ..old(self)@
                    })
                },
            },
    {
        match outcome {
            Ok(_) => {
                self.stage = Stage::Relay;
                Ok(())
            },
            Err(err) => {
                let mut text = String::new();
                text.append("failed to connect remote ");
                text.append(self.target_addr());
                text.append("(");
                if let Stage::Connect(addr) = self.stage {
                    addr.push_text(&mut text);
                    assert(text@ =~= "failed to connect remote "@ + self@.target->0 + "("@
                        + addr.text());
                }
                text.append("), ");
                text.append(err.as_str());
                proof {
                    lemma_cache_ops(self@.cache, self@.target->0);
                }
                cache_pop(&mut self.addr_cache, self.target_addr.as_ref().unwrap());
                Err(SessionError::Unreachable(text))
            },
        }
    }

    /// The label of the target's end of the relay, connected to `outbound`.
    pub fn target_label(&self, outbound: &str) -> (label: String)
        requires
            self@.target is Some,
        ensures
            label@ == target_label(self@.target->0, outbound@),
    {
        let mut label = String::new();
        label.append(self.target_addr());
        label.append("(");
        label.append(outbound);
        label.append(")");
        assert(label@ =~= target_label(self@.target->0, outbound@));
        label
    }

    /// The relay between the client at `peer`, read by `ri` and written by `wi`, and the
    /// target, read by `ro` and written by `wo`, connected to `outbound`.
    pub fn relay<R: AsyncRead, W: AsyncWrite>(
        &self,
        ri: R,
        wi: W,
        ro: R,
        wo: W,
        peer: String,
        outbound: &str,
    ) -> (relay: Relay<R, W>)
        requires
            self@.target is Some,
        ensures
            relay.wf(),
            relay.is_fresh(),
            relay.inbound().joins(ri, peer@, wo, target_label(self@.target->0, outbound@)),
            relay.outbound().joins(ro, target_label(self@.target->0, outbound@), wi, peer@),
    {
        let out_addr = self.target_label(outbound);
        Relay::new(
            Channel::new(ri, peer.clone(), wo, out_addr.clone()),
            Channel::new(ro, out_addr, wi, peer),
        )
    }
}

/// After a failure, and only then, a session waits: for at least 100 milliseconds and
/// less than 5000, as they were drawn.
pub proof fn law_failures_are_delayed<T, E>(result: Result<T, E>, millis: Option<u64>)
    requires
        call_ensures(random_wait_on_fail::<T, E>, (&result,), millis),
    ensures
        result is Ok ==> millis is None,
        result is Err ==> (millis matches Some(n) && 100 <= n < 5000 && drawn(100, 5000, n)),
{
}

/// The IPv4 addresses are those among the given ones, all of them, as often and in the
/// same order.
pub proof fn law_ipv4_addresses_are_given_ones(addrs: Vec<SocketAddr>, v4: Vec<SocketAddrV4>)
    requires
        call_ensures(ipv4_addrs, (&addrs,), v4),
    ensures
        v4@.map_values(|addr: SocketAddrV4| SocketAddr::V4(addr)) == addrs@.filter(
            |addr: SocketAddr| addr is V4,
        ),
        forall|addr: SocketAddrV4| #[trigger]
            v4@.contains(addr) <==> addrs@.contains(SocketAddr::V4(addr)),
{
    lemma_ipv4_of(addrs@);
}

proof fn lemma_ipv4_of(addrs: Seq<SocketAddr>)
    ensures
        ipv4_of(addrs).map_values(|addr: SocketAddrV4| SocketAddr::V4(addr)) == addrs.filter(
            |addr: SocketAddr| addr is V4,
        ),
        forall|addr: SocketAddrV4| #[trigger]
            ipv4_of(addrs).contains(addr) <==> addrs.contains(SocketAddr::V4(addr)),
    decreases addrs.len(),
{
    let wrap = |addr: SocketAddrV4| SocketAddr::V4(addr);
    let is_v4 = |addr: SocketAddr| addr is V4;
    let v4 = ipv4_of(addrs);
    reveal(Seq::filter);
    if addrs.len() > 0 {
        let front = addrs.drop_last();
        lemma_ipv4_of(front);
        assert(v4.map_values(wrap) =~= addrs.filter(is_v4));
        assert(addrs =~= front.push(addrs.last()));
        assert forall|addr: SocketAddrV4| #[trigger] v4.contains(addr) <==> addrs.contains(
            SocketAddr::V4(addr),
        ) by {
            if v4.contains(addr) {
                let i = choose|i: int| 0 <= i < v4.len() && v4[i] == addr;
                if addrs.last() == SocketAddr::V4(addr) {
                    assert(addrs[addrs.len() - 1] == SocketAddr::V4(addr));
                } else {
                    assert(ipv4_of(front)[i] == addr);
                    assert(ipv4_of(front).contains(addr));
                    let j = choose|j: int| 0 <= j < front.len() && front[j] == SocketAddr::V4(addr);
                    assert(addrs[j] == SocketAddr::V4(addr));
                }
            }
            if addrs.contains(SocketAddr::V4(addr)) {
                let j = choose|j: int| 0 <= j < addrs.len() && addrs[j] == SocketAddr::V4(addr);
                if j == addrs.len() - 1 {
                    assert(v4[v4.len() - 1] == addr);
                } else {
                    assert(front[j] == SocketAddr::V4(addr));
                    assert(ipv4_of(front).contains(addr));
                    let i = choose|i: int|
                        0 <= i < ipv4_of(front).len() && ipv4_of(front)[i] == addr;
                    assert(v4[i] == addr);
                }
            }
        }
    } else {
        assert(v4.map_values(wrap) =~= addrs.filter(is_v4));
    }
}

/// `target` is a host's name, a colon and a port in base ten, made of two bytes of which
/// the first counts 256 times as much.
pub open spec fn names_target(target: Seq<char>, host: Seq<char>, port: Seq<u8>) -> bool {
    exists|number: Seq<char>| #[trigger]
        writes(number, port[0] * 256 + port[1]) && target == host + seq![':'] + number
}

/// The text of a target names its host and port.
pub proof fn law_target_names_host_and_port(host: Seq<char>, port: Seq<u8>)
    requires
        port.len() == 2,
    ensures
        names_target(target_text(host, be_number(port)), host, port),
{
    law_decimal_has_its_value(be_number(port) as nat);
    assert(writes(decimal(be_number(port) as nat), port[0] * 256 + port[1]));
}

/// `later` is `cache` after an address was remembered for a target: in front, with all
/// others behind it in their order, but for an entry that the target had before and,
/// if it had none, for the last of 128.
pub open spec fn remembers(
    later: Seq<(Seq<char>, SocketAddrV4)>,
    cache: Seq<(Seq<char>, SocketAddrV4)>,
    target: Seq<char>,
    addr: SocketAddrV4,
) -> bool {
    &&& forall|i: int|
        0 <= i < cache.len() && (#[trigger] cache[i]).0 == target ==> later == seq![(target, addr)]
            + cache.remove(i)
    &&& (forall|i: int| 0 <= i < cache.len() ==> (#[trigger] cache[i]).0 != target) ==> later
        == seq![(target, addr)] + cache.take(
        if cache.len() < 128 {
            cache.len() as int
        } else {
            127
        },
    )
}

proof fn lemma_remembers(
    cache: Seq<(Seq<char>, SocketAddrV4)>,
    target: Seq<char>,
    addr: SocketAddrV4,
)
    requires
        cache.len() <= CACHE_SIZE,
        distinct(cache),
    ensures
        remembers(inserted(cache, CACHE_SIZE as nat, target, addr), cache, target, addr),
{
    if exists|i: int| 0 <= i < cache.len() && (#[trigger] cache[i]).0 == target {
        let i = choose|i: int| 0 <= i < cache.len() && (#[trigger] cache[i]).0 == target;
        law_entry_of_a_known_key(cache, CACHE_SIZE as nat, target, addr, i);
    } else {
        law_entry_of_an_unknown_key(cache, CACHE_SIZE as nat, target, addr);
    }
}

/// A new session has read and remembers nothing, and asks for one byte. If reading this
/// byte fails, it waits.
pub proof fn law_new_session_has_read_nothing(session: Session, next: Next)
    requires
        call_ensures(Session::new, (), session),
        call_ensures(Session::next, (&session,), next),
    ensures
        session@.stage is Size,
        session@.target is None,
        session@.cache.len() == 0,
        next == (Next::Read { len: 1, wait_on_fail: true }),
{
}

/// The first byte is the length of the host's name: the session asks for as many bytes.
/// If reading them fails, it waits.
pub proof fn law_size_is_read(
    session: &mut Session,
    bytes: Vec<u8>,
    result: Result<(), SessionError>,
    next: Next,
)
    requires
        old(session)@.stage is Size,
        bytes@.len() == 1,
        call_ensures(Session::read_address, (session, bytes), result),
        call_ensures(Session::next, (&*final(session),), next),
    ensures
        result is Ok,
        next matches Next::Read { len, wait_on_fail } && len == bytes@[0] && wait_on_fail,
        final(session)@.stage is Host,
        final(session)@.cache == old(session)@.cache,
{
}

/// The host's name is taken as the text that the bytes encode, and the session then asks
/// for two bytes, without a wait. Bytes that encode no text are an error and change
/// nothing.
pub proof fn law_host_is_read(
    session: &mut Session,
    bytes: Vec<u8>,
    result: Result<(), SessionError>,
    next: Next,
)
    requires
        old(session)@.stage is Host,
        call_ensures(Session::read_address, (session, bytes), result),
        call_ensures(Session::next, (&*final(session),), next),
    ensures
        result is Ok <==> valid_utf8(bytes@),
        result is Ok ==> {
            &&& final(session)@.host == decode_utf8(bytes@)
            &&& final(session)@.stage is Port
            &&& final(session)@.cache == old(session)@.cache
            &&& next == (Next::Read { len: 2, wait_on_fail: false })
        },
        result matches Err(e) ==> {
            &&& e matches SessionError::Utf8(cause)
            &&& call_ensures(String::from_utf8, (bytes,), Err::<String, FromUtf8Error>(cause))
            &&& final(session)@ == old(session)@
        },
{
}

/// With the port the target is known: the host, a colon and the port in base ten. If an
/// address is remembered for exactly this target, the session asks to connect to it, and
/// it is the one used most recently; if none is, it asks for a lookup, and what it
/// remembers stays as it is.
pub proof fn law_port_is_read(
    session: &mut Session,
    bytes: Vec<u8>,
    result: Result<(), SessionError>,
    next: Next,
)
    requires
        old(session).wf(),
        old(session)@.stage is Port,
        bytes@.len() == 2,
        call_ensures(Session::read_address, (session, bytes), result),
        call_ensures(Session::next, (&*final(session),), next),
    ensures
        result is Ok,
        final(session)@.target matches Some(target) && {
            &&& names_target(target, old(session)@.host, bytes@)
            &&& forall|i: int|
                0 <= i < old(session)@.cache.len() && (#[trigger] old(session)@.cache[i]).0 == target
                    ==> {
                    &&& next == Next::Connect(old(session)@.cache[i].1)
                    &&& final(session)@.stage == Stage::Connect(old(session)@.cache[i].1)
                    &&& final(session)@.cache == seq![old(session)@.cache[i]]
                        + old(session)@.cache.remove(i)
                }
            &&& (forall|i: int|
                0 <= i < old(session)@.cache.len() ==> (#[trigger] old(session)@.cache[i]).0
                    != target) ==> {
                &&& next is Lookup
                &&& final(session)@.stage is Lookup
                &&& final(session)@.cache == old(session)@.cache
            }
        },
{
    let cache = old(session)@.cache;
    let target = final(session)@.target->0;
    law_target_names_host_and_port(old(session)@.host, bytes@);
    assert(target == target_text(old(session)@.host, be_number(bytes@)));
    assert forall|i: int| 0 <= i < cache.len() && (#[trigger] cache[i]).0 == target implies {
        &&& next == Next::Connect(cache[i].1)
        &&& final(session)@.stage == Stage::Connect(cache[i].1)
        &&& final(session)@.cache == seq![cache[i]] + cache.remove(i)
    } by {
        let addr = cache[i].1;
        law_entry_of_a_known_key(cache, CACHE_SIZE as nat, target, addr, i);
        let front = touched(cache, target);
        lemma_cache_ops(cache, target);
        assert(front[0] == (target, addr));
        law_entry_of_a_known_key(front, CACHE_SIZE as nat, target, addr, 0);
        assert(seq![(target, addr)] + front.remove(0) =~= front);
    }
    if forall|i: int| 0 <= i < cache.len() ==> (#[trigger] cache[i]).0 != target {
        law_entry_of_an_unknown_key(
            cache,
            CACHE_SIZE as nat,
            target,
            SocketAddrV4 { ip: [0, 0, 0, 0], port: 0 },
        );
    }
}

/// Settling on an address asks to connect to it and remembers it for the target.
pub proof fn law_settled_address_is_remembered(
    session: &mut Session,
    addr: SocketAddrV4,
    next: Next,
)
    requires
        old(session).wf(),
        old(session)@.target is Some,
        call_ensures(Session::settle, (session, addr), ()),
        call_ensures(Session::next, (&*final(session),), next),
    ensures
        next == Next::Connect(addr),
        final(session)@.stage == Stage::Connect(addr),
        final(session)@.target == old(session)@.target,
        final(session)@.host == old(session)@.host,
        remembers(final(session)@.cache, old(session)@.cache, old(session)@.target->0, addr),
{
    lemma_remembers(old(session)@.cache, old(session)@.target->0, addr);
}

/// The address that a session settles on after a lookup is one of those that it was
/// given, an IPv4 address chosen among all of these; it asks to connect to it and
/// remembers it for the target.
pub proof fn law_given_address_is_chosen(
    session: &mut Session,
    addrs: Vec<SocketAddr>,
    result: Result<SocketAddrV4, SessionError>,
    next: Next,
)
    requires
        old(session).wf(),
        old(session)@.stage is Lookup,
        call_ensures(
            Session::looked_up,
            (session, Ok::<Vec<SocketAddr>, String>(addrs)),
            result,
        ),
        call_ensures(Session::next, (&*final(session),), next),
    ensures
        result matches Ok(addr) && {
            &&& addrs@.contains(SocketAddr::V4(addr))
            &&& exists|among: Seq<SocketAddrV4>| #[trigger]
                chosen(among, addr) && among.map_values(
                    |a: SocketAddrV4| SocketAddr::V4(a),
                ) == addrs@.filter(|a: SocketAddr| a is V4)
            &&& next == Next::Connect(addr)
            &&& final(session)@.stage == Stage::Connect(addr)
            &&& final(session)@.target == old(session)@.target
            &&& remembers(
                final(session)@.cache,
                old(session)@.cache,
                old(session)@.target->0,
                addr,
            )
        },
{
    lemma_ipv4_of(addrs@);
    if let Ok(addr) = result {
        lemma_remembers(old(session)@.cache, old(session)@.target->0, addr);
        assert(chosen(ipv4_of(addrs@), addr));
        assert(ipv4_of(addrs@).contains(addr));
    }
}

/// A failed lookup is reported with the target and the reason, and changes nothing.
pub proof fn law_failed_lookup_is_reported(
    session: &mut Session,
    err: String,
    result: Result<SocketAddrV4, SessionError>,
)
    requires
        call_ensures(
            Session::looked_up,
            (session, Err::<Vec<SocketAddr>, String>(err)),
            result,
        ),
    ensures
        result matches Err(SessionError::Unreachable(text)) && text@ == "fail to resolve "@
            + old(session)@.target->0 + ". err: "@ + err@,
        final(session)@ == old(session)@,
{
}

/// With the connection made, bytes can be relayed; what is remembered stays so.
pub proof fn law_connection_is_relayed(
    session: &mut Session,
    result: Result<(), SessionError>,
    next: Next,
)
    requires
        old(session)@.stage is Connect,
        call_ensures(Session::connected, (session, Ok::<(), String>(())), result),
        call_ensures(Session::next, (&*final(session),), next),
    ensures
        result is Ok,
        next is Relay,
        final(session)@.target == old(session)@.target,
        final(session)@.cache == old(session)@.cache,
{
}

/// A failed connection is reported with the target, the address and the reason. The
/// address is forgotten, and all others stay remembered in their order.
pub proof fn law_failed_connection_is_reported(
    session: &mut Session,
    err: String,
    result: Result<(), SessionError>,
)
    requires
        old(session).wf(),
        old(session)@.stage is Connect,
        call_ensures(Session::connected, (session, Err::<(), String>(err)), result),
    ensures
        exists|addr: Seq<char>| #[trigger]
            writes_addr(addr, old(session)@.stage->Connect_0) && (result matches Err(
                SessionError::Unreachable(text),
            ) && text@ == "failed to connect remote "@ + old(session)@.target->0 + "("@ + addr
                + "), "@ + err@),
        final(session)@.target == old(session)@.target,
        forall|i: int|
            0 <= i < old(session)@.cache.len() && (#[trigger] old(session)@.cache[i]).0
                == old(session)@.target->0 ==> final(session)@.cache
                == old(session)@.cache.remove(i),
        (forall|i: int|
            0 <= i < old(session)@.cache.len() ==> (#[trigger] old(session)@.cache[i]).0
                != old(session)@.target->0) ==> final(session)@.cache == old(session)@.cache,
{
    let cache = old(session)@.cache;
    let target = old(session)@.target->0;
    let addr = old(session)@.stage->Connect_0;
    law_text_names_the_address(addr);
    assert(writes_addr(addr.text(), addr));
    assert forall|i: int| 0 <= i < cache.len() && (#[trigger] cache[i]).0 == target implies
        final(session)@.cache == cache.remove(i) by {
        law_entry_of_a_known_key(cache, CACHE_SIZE as nat, target, addr, i);
    }
    if forall|i: int| 0 <= i < cache.len() ==> (#[trigger] cache[i]).0 != target {
        law_entry_of_an_unknown_key(cache, CACHE_SIZE as nat, target, addr);
    }
}

/// Starting over asks for one byte again and keeps what is remembered.
pub proof fn law_restart_keeps_the_cache(session: &mut Session, next: Next)
    requires
        call_ensures(Session::restart, (session,), ()),
        call_ensures(Session::next, (&*final(session),), next),
    ensures
        next == (Next::Read { len: 1, wait_on_fail: true }),
        final(session)@.stage is Size,
        final(session)@.cache == old(session)@.cache,
{
}

/// The target is the one that was read, and its label adds where it is connected to.
pub proof fn law_target_is_labelled(
    session: Session,
    target: &str,
    outbound: &str,
    label: String,
)
    requires
        call_ensures(Session::target_addr, (&session,), target),
        call_ensures(Session::target_label, (&session, outbound), label),
    ensures
        target@ == session@.target->0,
        label@ == session@.target->0 + "("@ + outbound@ + ")"@,
{
}

/// A relay carries what is read from the client to the target, and what is read from the
/// target to the client, each under the labels of both ends. Neither direction is
/// closed, and nothing was copied yet.
pub proof fn law_relay_joins_client_and_target<R: AsyncRead, W: AsyncWrite>(
    session: Session,
    ri: R,
    wi: W,
    ro: R,
    wo: W,
    peer: String,
    outbound: &str,
    relay: Relay<R, W>,
)
    requires
        call_ensures(Session::relay::<R, W>, (&session, ri, wi, ro, wo, peer, outbound), relay),
    ensures
        relay.inbound().reader() == ri,
        relay.inbound().writer() == wo,
        relay.outbound().reader() == ro,
        relay.outbound().writer() == wi,
        relay.inbound().read_label() == peer@,
        relay.outbound().write_label() == peer@,
        relay.inbound().write_label() == session@.target->0 + "("@ + outbound@ + ")"@,
        relay.outbound().read_label() == session@.target->0 + "("@ + outbound@ + ")"@,
        !relay.inbound_closed(),
        !relay.outbound_closed(),
        relay.inbound().reads().len() == 0,
        relay.inbound().writes().len() == 0,
        relay.outbound().reads().len() == 0,
        relay.outbound().writes().len() == 0,
{
}

} // verus!
