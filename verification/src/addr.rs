//! Network addresses as plain values.

use vstd::arithmetic::div_mod::lemma_fundamental_div_mod_converse;
use std::cmp::Ordering;
use vstd::prelude::*;

verus! {

/// An IPv4 address, held as the 32-bit number its four octets spell in
/// network order.
#[derive(Clone, Copy, Debug, PartialEq, Eq, Structural, Hash, PartialOrd, Ord)]
pub struct Ipv4Addr {
    pub bits: u32,
}

/// An IPv6 address, held as the 128-bit number its octets spell in network
/// order.
#[derive(Clone, Copy, Debug, PartialEq, Eq, Structural, Hash, PartialOrd, Ord)]
pub struct Ipv6Addr {
    pub bits: u128,
}

/// An address of either family.
#[derive(Clone, Copy, Debug, PartialEq, Eq, Structural, Hash, PartialOrd, Ord)]
pub enum IpAddr {
    V4(Ipv4Addr),
    V6(Ipv6Addr),
}

/// The number that the octets `a.b.c.d` spell in network order.
pub open spec fn bits_of_octets(a: u8, b: u8, c: u8, d: u8) -> int {
    a * 0x100_0000 + b * 0x1_0000 + c * 0x100 + d
}

/// Octet `i` (0 is the first on the wire) of a 32-bit number in network order.
pub open spec fn octet_of_bits(bits: u32, i: int) -> u8 {
    if i == 0 {
        (bits / 0x100_0000) as u8
    } else if i == 1 {
        (bits / 0x1_0000 % 0x100) as u8
    } else if i == 2 {
        (bits / 0x100 % 0x100) as u8
    } else {
        (bits % 0x100) as u8
    }
}

impl Ipv4Addr {
    /// The four octets in network order.
    pub open spec fn spec_octets(self) -> Seq<u8> {
        seq![
            octet_of_bits(self.bits, 0),
            octet_of_bits(self.bits, 1),
            octet_of_bits(self.bits, 2),
            octet_of_bits(self.bits, 3),
        ]
    }

    /// The address `a.b.c.d`.
    pub fn new(a: u8, b: u8, c: u8, d: u8) -> (addr: Ipv4Addr)
        ensures
            addr.bits == bits_of_octets(a, b, c, d),
            addr.spec_octets() == seq![a, b, c, d],
    {
        let bits: u32 = (a as u32) * 0x100_0000 + (b as u32) * 0x1_0000 + (c as u32) * 0x100 + (
        d as u32);
        let addr = Ipv4Addr { bits };
        proof {
            lemma_octets_of_bits(a, b, c, d);
            assert(addr.spec_octets() =~= seq![a, b, c, d]);
        }
        addr
    }

    /// The four octets in network order.
    pub fn octets(&self) -> (out: [u8; 4])
        ensures
            out@ == self.spec_octets(),
    {
        let out = [
            (self.bits / 0x100_0000) as u8,
            (self.bits / 0x1_0000 % 0x100) as u8,
            (self.bits / 0x100 % 0x100) as u8,
            (self.bits % 0x100) as u8,
        ];
        assert(out@ =~= self.spec_octets());
        out
    }

    /// The address 127.0.0.1.
    pub fn localhost() -> (addr: Ipv4Addr)
        ensures
            addr.spec_octets() == seq![127u8, 0u8, 0u8, 1u8],
    {
        Ipv4Addr::new(127, 0, 0, 1)
    }
}

/// The last `n` octets of `value` in network order.
pub open spec fn be_octets(value: nat, n: nat) -> Seq<u8>
    decreases n,
{
    if n == 0 {
        Seq::empty()
    } else {
        be_octets(value / 256, (n - 1) as nat).push((value % 256) as u8)
    }
}

fn push_be_octets(out: &mut Vec<u8>, value: u128, n: u8)
    ensures
        final(out)@ == old(out)@ + be_octets(value as nat, n as nat),
    decreases n,
{
    if n > 0 {
        push_be_octets(out, value / 256, n - 1);
        out.push((value % 256) as u8);
        assert(out@ =~= old(out)@ + be_octets(value as nat, n as nat));
    } else {
        assert(out@ =~= old(out)@ + be_octets(value as nat, n as nat));
    }
}

impl Ipv6Addr {
    /// The sixteen octets in network order.
    pub open spec fn spec_octets(self) -> Seq<u8> {
        be_octets(self.bits as nat, 16)
    }

    /// The sixteen octets in network order.
    pub fn octets(&self) -> (out: Vec<u8>)
        ensures
            out@ == self.spec_octets(),
    {
        let mut out: Vec<u8> = Vec::new();
        push_be_octets(&mut out, self.bits, 16);
        out
    }
}

/// How the address `a` stands to the address `b`: IPv4 addresses come
/// before IPv6 addresses, and addresses of one family are ordered as the
/// numbers that their octets spell.
pub open spec fn address_order(a: IpAddr, b: IpAddr) -> Ordering {
    match (a, b) {
        (IpAddr::V4(a), IpAddr::V4(b)) => if a.bits < b.bits {
            Ordering::Less
        } else if a.bits > b.bits {
            Ordering::Greater
        } else {
            Ordering::Equal
        },
        (IpAddr::V4(_), IpAddr::V6(_)) => Ordering::Less,
        (IpAddr::V6(_), IpAddr::V4(_)) => Ordering::Greater,
        (IpAddr::V6(a), IpAddr::V6(b)) => if a.bits < b.bits {
            Ordering::Less
        } else if a.bits > b.bits {
            Ordering::Greater
        } else {
            Ordering::Equal
        },
    }
}

impl IpAddr {
    /// How the address stands to `other`: see [`address_order`].
    pub fn order(&self, other: &IpAddr) -> (order: Ordering)
        ensures
            order == address_order(*self, *other),
    {
        match (self, other) {
            (IpAddr::V4(a), IpAddr::V4(b)) => if a.bits < b.bits {
                Ordering::Less
            } else if a.bits > b.bits {
                Ordering::Greater
            } else {
                Ordering::Equal
            },
            (IpAddr::V4(_), IpAddr::V6(_)) => Ordering::Less,
            (IpAddr::V6(_), IpAddr::V4(_)) => Ordering::Greater,
            (IpAddr::V6(a), IpAddr::V6(b)) => if a.bits < b.bits {
                Ordering::Less
            } else if a.bits > b.bits {
                Ordering::Greater
            } else {
                Ordering::Equal
            },
        }
    }

    /// The octets of the address in network order: four or sixteen.
    pub open spec fn spec_octets(self) -> Seq<u8> {
        match self {
            IpAddr::V4(addr) => addr.spec_octets(),
            IpAddr::V6(addr) => addr.spec_octets(),
        }
    }

    /// The octets of the address in network order: four or sixteen.
    pub fn octets(&self) -> (out: Vec<u8>)
        ensures
            out@ == self.spec_octets(),
    {
        match self {
            IpAddr::V4(addr) => {
                let four = addr.octets();
                let mut out: Vec<u8> = Vec::new();
                out.push(four[0]);
                out.push(four[1]);
                out.push(four[2]);
                out.push(four[3]);
                assert(out@ =~= addr.spec_octets());
                out
            },
            IpAddr::V6(addr) => addr.octets(),
        }
    }

    /// Whether the address is an IPv4 address.
    pub fn is_ipv4(&self) -> (b: bool)
        ensures
            b == (*self is V4),
    {
        match self {
            IpAddr::V4(_) => true,
            IpAddr::V6(_) => false,
        }
    }

    /// Whether the address is an IPv6 address.
    pub fn is_ipv6(&self) -> (b: bool)
        ensures
            b == (*self is V6),
    {
        match self {
            IpAddr::V4(_) => false,
            IpAddr::V6(_) => true,
        }
    }
}

/// The octets of the number that `a.b.c.d` spell are `a`, `b`, `c`, `d`.
pub proof fn lemma_octets_of_bits(a: u8, b: u8, c: u8, d: u8)
    ensures
        0 <= bits_of_octets(a, b, c, d) <= u32::MAX,
        octet_of_bits(bits_of_octets(a, b, c, d) as u32, 0) == a,
        octet_of_bits(bits_of_octets(a, b, c, d) as u32, 1) == b,
        octet_of_bits(bits_of_octets(a, b, c, d) as u32, 2) == c,
        octet_of_bits(bits_of_octets(a, b, c, d) as u32, 3) == d,
{
    let bits = bits_of_octets(a, b, c, d);
    lemma_fundamental_div_mod_converse(bits, 0x100_0000, a as int, b * 0x1_0000 + c * 0x100 + d);
    lemma_fundamental_div_mod_converse(bits, 0x1_0000, a * 0x100 + b, c * 0x100 + d);
    lemma_fundamental_div_mod_converse(bits, 0x100, a * 0x1_0000 + b * 0x100 + c, d as int);
    lemma_fundamental_div_mod_converse(a * 0x100 + b, 0x100, a as int, b as int);
    lemma_fundamental_div_mod_converse(a * 0x1_0000 + b * 0x100 + c, 0x100, a * 0x100 + b, c as int);
}

} // verus!
