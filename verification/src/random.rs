//! Random choices.

use crate::addr::SocketAddrV4;
use rand::distributions::{Distribution, Uniform};
use rand::seq::IteratorRandom;
use vstd::prelude::*;

verus! {

/// `rand::distributions::Uniform`, sampled with the generator of the thread: some
/// number from `low` on and below `high`.
#[verifier::external_body]
pub(crate) fn sample_uniform(low: u64, high: u64) -> (n: u64)
    requires
        low < high,
    ensures
        low <= n < high,
{
    Uniform::new(low, high).sample(&mut rand::thread_rng())
}

/// `n` is a number that sampling from `low` on and below `high` can return.
pub closed spec fn drawn(low: u64, high: u64, n: u64) -> bool {
    call_ensures(sample_uniform, (low, high), n)
}

/// A number that is sampled from `low` on and below `high`.
pub(crate) fn draw(low: u64, high: u64) -> (n: u64)
    requires
        low < high,
    ensures
        low <= n < high,
        drawn(low, high, n),
{
    let sample = sample_uniform;
    sample(low, high)
}

/// `rand::seq::IteratorRandom::choose`, with the generator of the thread: one of the
/// addresses, or `None` if and only if there is none.
#[verifier::external_body]
pub(crate) fn choose_addr(addrs: &Vec<SocketAddrV4>) -> (choice: Option<SocketAddrV4>)
    ensures
        choice is None <==> addrs@.len() == 0,
        choice matches Some(addr) ==> addrs@.contains(addr),
{
    addrs.iter().copied().choose(&mut rand::thread_rng())
}

/// `addr` is an address that choosing among these can return.
pub closed spec fn chosen(addrs: Seq<SocketAddrV4>, addr: SocketAddrV4) -> bool {
    exists|from: Vec<SocketAddrV4>|
        from@ == addrs && #[trigger] call_ensures(choose_addr, (&from,), Some(addr))
}

/// One of the addresses, chosen at random.
pub(crate) fn pick(addrs: &Vec<SocketAddrV4>) -> (addr: SocketAddrV4)
    requires
        addrs@.len() > 0,
    ensures
        addrs@.contains(addr),
        chosen(addrs@, addr),
{
    let choose_from = choose_addr;
    choose_from(addrs).unwrap()
}

/// A number that was drawn comes from sampling between the same bounds, and lies from
/// `low` on and below `high`.
pub(crate) proof fn law_drawn_is_sampled(low: u64, high: u64, n: u64)
    requires
        drawn(low, high, n),
    ensures
        call_ensures(sample_uniform, (low, high), n),
        low <= n < high,
{
}

/// An address that was chosen comes from choosing among exactly these addresses, and is
/// one of them.
pub(crate) proof fn law_chosen_is_one_of_them(addrs: Seq<SocketAddrV4>, addr: SocketAddrV4)
    requires
        chosen(addrs, addr),
    ensures
        exists|from: Vec<SocketAddrV4>|
            from@ == addrs && #[trigger] call_ensures(choose_addr, (&from,), Some(addr)),
        addrs.contains(addr),
{
}

} // verus!
