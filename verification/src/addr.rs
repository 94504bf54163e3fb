//! Socket addresses.

use crate::text::{decimal, law_decimal_has_its_value, push_decimal, writes};
use vstd::prelude::*;

verus! {

/// An IPv4 address with a port.
#[derive(Clone, Copy, Debug, PartialEq, Eq)]
pub struct SocketAddrV4 {
    pub ip: [u8; 4],
    pub port: u16,
}

/// An IPv6 address with a port.
#[derive(Clone, Copy, Debug, PartialEq, Eq)]
pub struct SocketAddrV6 {
    pub ip: [u8; 16],
    pub port: u16,
}

/// An address of either kind.
#[derive(Clone, Copy, Debug, PartialEq, Eq)]
pub enum SocketAddr {
    V4(SocketAddrV4),
    V6(SocketAddrV6),
}

/// A 16-bit number as two bytes, the more significant one first.
pub open spec fn be_bytes(n: u16) -> Seq<u8> {
    seq![(n / 256) as u8, (n % 256) as u8]
}

/// The number that two bytes stand for, the more significant one first.
pub open spec fn be_number(bytes: Seq<u8>) -> u16 {
    (bytes[0] * 256 + bytes[1]) as u16
}

/// Reading two bytes gives back the number that was written.
pub proof fn law_be_round_trip(n: u16)
    ensures
        be_bytes(n).len() == 2,
        be_number(be_bytes(n)) == n,
{
}

/// Two bytes are those of the number that they stand for.
pub proof fn law_be_bytes_unique(bytes: Seq<u8>)
    requires
        bytes.len() == 2,
    ensures
        be_bytes(be_number(bytes)) == bytes,
{
    assert(be_bytes(be_number(bytes)) =~= bytes);
}

/// The number that two bytes stand for, the more significant one first.
pub fn u16_from_be_bytes(bytes: [u8; 2]) -> (n: u16)
    ensures
        n == be_number(bytes@),
{
    bytes[0] as u16 * 256 + bytes[1] as u16
}

/// A number as two bytes, the more significant one first.
pub fn u16_to_be_bytes(n: u16) -> (bytes: [u8; 2])
    ensures
        bytes@ == be_bytes(n),
{
    let bytes = [(n / 256) as u8, (n % 256) as u8];
    assert(bytes@ =~= be_bytes(n));
    bytes
}

impl SocketAddrV4 {
    /// The address as four numbers with dots between them, a colon and the port.
    pub open spec fn text(&self) -> Seq<char> {
        decimal(self.ip[0] as nat) + seq!['.'] + decimal(self.ip[1] as nat) + seq!['.'] + decimal(
            self.ip[2] as nat,
        ) + seq!['.'] + decimal(self.ip[3] as nat) + seq![':'] + decimal(self.port as nat)
    }

    /// Appends the address as text.
    pub fn push_text(&self, s: &mut String)
        ensures
            final(s)@ == old(s)@ + self.text(),
    {
        push_decimal(s, self.ip[0] as u32);
        s.push('.');
        push_decimal(s, self.ip[1] as u32);
        s.push('.');
        push_decimal(s, self.ip[2] as u32);
        s.push('.');
        push_decimal(s, self.ip[3] as u32);
        s.push(':');
        push_decimal(s, self.port as u32);
        proof {
            assert(s@ =~= old(s)@ + self.text());
        }
    }
}

/// Two bytes are read as a number of which the first counts 256 times as much as the
/// second.
pub proof fn law_bytes_are_read_in_order(bytes: [u8; 2], n: u16)
    requires
        call_ensures(u16_from_be_bytes, (bytes,), n),
    ensures
        n == bytes@[0] * 256 + bytes@[1],
{
}

/// A number is written as two bytes of which the first counts 256 times as much as the
/// second.
pub proof fn law_bytes_are_written_in_order(n: u16, bytes: [u8; 2])
    requires
        call_ensures(u16_to_be_bytes, (n,), bytes),
    ensures
        n == bytes@[0] * 256 + bytes@[1],
{
}

/// Two bytes are those of a number exactly if they have its value, the first counting
/// 256 times as much as the second.
pub proof fn law_be_bytes_have_their_value(n: u16, bytes: Seq<u8>)
    requires
        bytes.len() == 2,
    ensures
        bytes == be_bytes(n) <==> n == bytes[0] * 256 + bytes[1],
        n == be_number(bytes) <==> n == bytes[0] * 256 + bytes[1],
{
    if n == bytes[0] * 256 + bytes[1] {
        assert(bytes =~= be_bytes(n));
    }
}

/// `text` is an address: its four bytes in base ten and in their order, with a dot
/// between each two, a colon and the port in base ten.
pub open spec fn writes_addr(text: Seq<char>, addr: SocketAddrV4) -> bool {
    exists|a: Seq<char>, b: Seq<char>, c: Seq<char>, d: Seq<char>, port: Seq<char>|
        {
            &&& #[trigger] writes(a, addr.ip@[0] as int)
            &&& #[trigger] writes(b, addr.ip@[1] as int)
            &&& #[trigger] writes(c, addr.ip@[2] as int)
            &&& #[trigger] writes(d, addr.ip@[3] as int)
            &&& #[trigger] writes(port, addr.port as int)
            &&& text == a + seq!['.'] + b + seq!['.'] + c + seq!['.'] + d + seq![':'] + port
        }
}

/// The text of an address names that address.
pub proof fn law_text_names_the_address(addr: SocketAddrV4)
    ensures
        writes_addr(addr.text(), addr),
{
    law_decimal_has_its_value(addr.ip@[0] as nat);
    law_decimal_has_its_value(addr.ip@[1] as nat);
    law_decimal_has_its_value(addr.ip@[2] as nat);
    law_decimal_has_its_value(addr.ip@[3] as nat);
    law_decimal_has_its_value(addr.port as nat);
}

/// Appending an address keeps the text before it and adds what names the address.
pub proof fn law_appended_address(addr: SocketAddrV4, s: &mut String)
    requires
        call_ensures(SocketAddrV4::push_text, (&addr, s), ()),
    ensures
        final(s)@.len() >= old(s)@.len(),
        final(s)@.take(old(s)@.len() as int) == old(s)@,
        writes_addr(final(s)@.skip(old(s)@.len() as int), addr),
{
    law_text_names_the_address(addr);
    assert(final(s)@.take(old(s)@.len() as int) =~= old(s)@);
    assert(final(s)@.skip(old(s)@.len() as int) =~= addr.text());
}

} // verus!
