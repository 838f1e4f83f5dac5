use crate::protocol::Protocol;
use vstd::prelude::*;

verus! {

/// How a trace is to be run.
#[derive(Clone, Copy, Debug, PartialEq, Eq, PartialOrd, Ord)]
pub struct TraceOptions {
    /// The lowest hop limit to probe. 0 makes no sense: such a packet would
    /// not leave this machine
    pub min_ttl: u8,
    /// The highest hop limit to probe, not below the lowest
    pub max_ttl: u8,
    /// The delay between packets, in milliseconds
    pub delay: u16,
    /// The time a probe's reply is given, in milliseconds
    pub timeout: u16,
    /// The hop limits to skip, such as those of the nearest known routers:
    /// entry `i` stands for the hop limit `i + 1`
    pub mask: [bool; 32],
    /// The protocol to probe with
    pub protocol: Protocol,
    /// Whether the output is wanted in dot format
    pub dot: bool,
}

/// Whether each entry of `s` is less than the next.
pub open spec fn increasing(s: Seq<u8>) -> bool {
    forall|i: int, j: int| 0 <= i < j < s.len() ==> s[i] < s[j]
}

/// A value is in `s` with `v` pushed when it is in `s` or is `v`.
pub proof fn lemma_push_contains<T>(s: Seq<T>, v: T)
    ensures
        forall|x: T| s.push(v).contains(x) <==> s.contains(x) || x == v,
{
    assert forall|x: T| s.push(v).contains(x) <==> s.contains(x) || x == v by {
        if s.contains(x) {
            let k = choose|k: int| 0 <= k < s.len() && s[k] == x;
            assert(s.push(v)[k] == x);
        }
        if x == v {
            assert(s.push(v)[s.len() as int] == x);
        }
        if s.push(v).contains(x) {
            let k = choose|k: int| 0 <= k < s.push(v).len() && s.push(v)[k] == x;
            if k < s.len() {
                assert(s[k] == x);
            }
        }
    }
}

impl TraceOptions {
    /// Whether the hop limit `ttl` is to be skipped. Hop limits above 32
    /// cannot be masked.
    pub open spec fn is_masked(self, ttl: u8) -> bool {
        1 <= ttl <= 32 && self.mask@[ttl - 1]
    }

    /// Whether a probe is sent with the hop limit `ttl`: it lies between the
    /// lowest and the highest and is not masked.
    pub open spec fn is_probed(self, ttl: u8) -> bool {
        self.min_ttl <= ttl <= self.max_ttl && !self.is_masked(ttl)
    }

    /// Whether the hop limit `ttl` lies between the lowest and the highest
    /// and is masked.
    pub open spec fn is_skipped(self, ttl: u8) -> bool {
        self.min_ttl <= ttl <= self.max_ttl && self.is_masked(ttl)
    }

    /// Whether the hop limit `ttl` is to be skipped.
    pub fn masks(&self, ttl: u8) -> (masked: bool)
        ensures
            masked == self.is_masked(ttl),
    {
        1 <= ttl && ttl <= 32 && self.mask[(ttl - 1) as usize]
    }

    /// The masked hop limits, in ascending order. Empty where nothing is
    /// masked.
    pub fn get_masked(&self) -> (masked: Vec<u8>)
        ensures
            increasing(masked@),
            forall|ttl: u8| masked@.contains(ttl) <==> self.is_masked(ttl),
    {
        let mut masked: Vec<u8> = Vec::new();
        let mut ttl: u8 = 1;
        while ttl <= 32
            invariant
                1 <= ttl <= 33,
                increasing(masked@),
                forall|k: int| 0 <= k < masked@.len() ==> masked@[k] < ttl,
                forall|t: u8| masked@.contains(t) <==> self.is_masked(t) && t < ttl,
            decreases 33 - ttl,
        {
            if self.masks(ttl) {
                proof {
                    lemma_push_contains(masked@, ttl);
                }
                masked.push(ttl);
            }
            ttl += 1;
        }
        masked
    }

    /// The hop limits that a round probes, in ascending order: those from
    /// the lowest to the highest that are not masked.
    pub fn get_ttl_range(&self) -> (range: Vec<u8>)
        ensures
            increasing(range@),
            forall|ttl: u8| range@.contains(ttl) <==> self.is_probed(ttl),
    {
        let mut range: Vec<u8> = Vec::new();
        let mut next: u16 = self.min_ttl as u16;
        while next <= self.max_ttl as u16
            invariant
                self.min_ttl <= next <= 256,
                increasing(range@),
                forall|k: int| 0 <= k < range@.len() ==> range@[k] < next,
                forall|t: u8| range@.contains(t) <==> self.is_probed(t) && t < next,
            decreases self.max_ttl + 1 - next,
        {
            let ttl = next as u8;
            if !self.masks(ttl) {
                proof {
                    lemma_push_contains(range@, ttl);
                }
                range.push(ttl);
            }
            next += 1;
        }
        range
    }

    /// The masked hop limits that lie between the lowest and the highest, in
    /// ascending order.
    pub fn get_skipped(&self) -> (skipped: Vec<u8>)
        ensures
            increasing(skipped@),
            forall|ttl: u8| skipped@.contains(ttl) <==> self.is_skipped(ttl),
    {
        let mut skipped: Vec<u8> = Vec::new();
        let mut next: u16 = self.min_ttl as u16;
        while next <= self.max_ttl as u16
            invariant
                self.min_ttl <= next <= 256,
                increasing(skipped@),
                forall|k: int| 0 <= k < skipped@.len() ==> skipped@[k] < next,
                forall|t: u8| skipped@.contains(t) <==> self.is_skipped(t) && t < next,
            decreases self.max_ttl + 1 - next,
        {
            let ttl = next as u8;
            if self.masks(ttl) {
                proof {
                    lemma_push_contains(skipped@, ttl);
                }
                skipped.push(ttl);
            }
            next += 1;
        }
        skipped
    }

    /// Masks the hop limit `ttl`, which lies between 1 and 32.
    pub fn mask(&mut self, ttl: u8)
        requires
            1 <= ttl <= 32,
        ensures
            final(self).mask@ == old(self).mask@.update(ttl - 1, true),
            final(self).min_ttl == old(self).min_ttl,
            final(self).max_ttl == old(self).max_ttl,
            final(self).delay == old(self).delay,
            final(self).timeout == old(self).timeout,
            final(self).protocol == old(self).protocol,
            final(self).dot == old(self).dot,
    {
        self.mask[(ttl - 1) as usize] = true;
    }
}

impl Default for TraceOptions {
    fn default() -> (options: Self)
        ensures
            options.min_ttl == 1,
            options.max_ttl == 32,
            options.delay == 10,
            options.timeout == 300,
            forall|ttl: u8| !options.is_masked(ttl),
            options.protocol == Protocol::UDP(crate::protocol::UdpParams { source_port: 33434, destination_port: 33434 }),
            !options.dot,
    {
        Self { min_ttl: 1, max_ttl: 32, delay: 10, timeout: 300, mask: [false;32], protocol: Protocol::default(), dot: false }
    }
}

} // verus!
