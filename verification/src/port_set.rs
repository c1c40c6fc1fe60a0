//! Membership of ports over the whole 16-bit port space, one bit per port
//! and protocol.

use crate::bits::{
    bit_seq, bits_and, bits_count_ones, bits_fill, bits_get, bits_repeat, bits_set, count_true,
    lemma_count_true_bound, Bits,
};
use crate::port::PortInfo;
use vstd::prelude::*;

verus! {

/// The number of ports of one protocol.
pub const PORT_SPACE: usize = 0x10000;

/// A set of ports. Every port of either protocol is present or absent.
pub struct PortSet {
    tcp: Bits,
    udp: Bits,
}

/// The ports of one protocol whose number is below `limit` and whose bit is set.
pub open spec fn members_below(tcp: bool, bits: Seq<bool>, limit: int) -> Set<PortInfo> {
    Set::new(|p: PortInfo| p.is_tcp() == tcp && p.number() < limit && bits[p.number() as int])
}

/// The ports that a pair of bit sequences marks as present.
pub open spec fn members(tcp: Seq<bool>, udp: Seq<bool>) -> Set<PortInfo> {
    Set::new(
        |p: PortInfo|
            match p {
                PortInfo::TCP(n) => tcp[n as int],
                PortInfo::UDP(n) => udp[n as int],
            },
    )
}

/// The ports of one protocol below `limit` are as many as the set bits among
/// the first `limit` bits.
pub proof fn lemma_members_below_len(tcp: bool, bits: Seq<bool>, limit: int)
    requires
        0 <= limit <= bits.len(),
        limit <= PORT_SPACE,
    ensures
        members_below(tcp, bits, limit).finite(),
        members_below(tcp, bits, limit).len() == count_true(bits.take(limit)),
    decreases limit,
{
    let cur = members_below(tcp, bits, limit);
    if limit == 0 {
        assert(cur =~= Set::<PortInfo>::empty());
        assert(bits.take(0).len() == 0);
    } else {
        let prev = members_below(tcp, bits, limit - 1);
        lemma_members_below_len(tcp, bits, limit - 1);
        let n: u16 = (limit - 1) as u16;
        let p = if tcp { PortInfo::TCP(n) } else { PortInfo::UDP(n) };
        assert(bits.take(limit).drop_last() =~= bits.take(limit - 1));
        assert(bits.take(limit).last() == bits[limit - 1]);
        if bits[limit - 1] {
            assert(cur =~= prev.insert(p));
            assert(!prev.contains(p));
        } else {
            assert(cur =~= prev);
        }
    }
}

/// The ports that two full-length bit sequences mark are as many as their
/// set bits.
pub proof fn lemma_members_len(tcp: Seq<bool>, udp: Seq<bool>)
    requires
        tcp.len() == PORT_SPACE,
        udp.len() == PORT_SPACE,
    ensures
        members(tcp, udp).finite(),
        members(tcp, udp).len() == count_true(tcp) + count_true(udp),
{
    let t = members_below(true, tcp, PORT_SPACE as int);
    let u = members_below(false, udp, PORT_SPACE as int);
    lemma_members_below_len(true, tcp, PORT_SPACE as int);
    lemma_members_below_len(false, udp, PORT_SPACE as int);
    assert(tcp.take(PORT_SPACE as int) =~= tcp);
    assert(udp.take(PORT_SPACE as int) =~= udp);
    assert(members(tcp, udp) =~= t.union(u));
    assert(t.disjoint(u));
    vstd::set_lib::lemma_set_disjoint_lens(t, u);
}

impl PortSet {
    /// Both bit vectors span the whole port space.
    pub closed spec fn wf(&self) -> bool {
        &&& bit_seq(self.tcp).len() == PORT_SPACE
        &&& bit_seq(self.udp).len() == PORT_SPACE
    }

    /// The ports that are present.
    pub closed spec fn view(&self) -> Set<PortInfo> {
        members(bit_seq(self.tcp), bit_seq(self.udp))
    }

    /// A set with no port present.
    pub fn new() -> (r: PortSet)
        ensures
            r.wf(),
            r@ == Set::<PortInfo>::empty(),
    {
        let r = PortSet { tcp: bits_repeat(false, PORT_SPACE), udp: bits_repeat(false, PORT_SPACE) };
        assert(r@ =~= Set::<PortInfo>::empty());
        r
    }

    /// Makes `port` present or absent; every other port stays as it was.
    pub fn set(&mut self, port: PortInfo, present: bool)
        requires
            old(self).wf(),
        ensures
            final(self).wf(),
            final(self)@ == if present {
                old(self)@.insert(port)
            } else {
                old(self)@.remove(port)
            },
    {
        match port {
            PortInfo::TCP(n) => bits_set(&mut self.tcp, n as usize, present),
            PortInfo::UDP(n) => bits_set(&mut self.udp, n as usize, present),
        }
        assert(self@ =~= if present {
            old(self)@.insert(port)
        } else {
            old(self)@.remove(port)
        });
    }

    /// Whether `port` is present.
    pub fn test(&self, port: PortInfo) -> (r: bool)
        requires
            self.wf(),
        ensures
            r == self@.contains(port),
    {
        match port {
            PortInfo::TCP(n) => bits_get(&self.tcp, n as usize),
            PortInfo::UDP(n) => bits_get(&self.udp, n as usize),
        }
    }

    /// Makes every port absent.
    pub fn reset(&mut self)
        requires
            old(self).wf(),
        ensures
            final(self).wf(),
            final(self)@ == cleared(old(self)@),
    {
        bits_fill(&mut self.tcp, false);
        bits_fill(&mut self.udp, false);
        assert(self@ =~= Set::<PortInfo>::empty());
    }

    /// The number of ports present.
    pub fn count(&self) -> (r: usize)
        requires
            self.wf(),
        ensures
            self@.finite(),
            r == self@.len(),
    {
        proof {
            lemma_members_len(bit_seq(self.tcp), bit_seq(self.udp));
            lemma_count_true_bound(bit_seq(self.tcp));
            lemma_count_true_bound(bit_seq(self.udp));
        }
        bits_count_ones(&self.tcp) + bits_count_ones(&self.udp)
    }

    /// Keeps the ports that are also present in `other`.
    pub fn intersect_with(&mut self, other: &PortSet)
        requires
            old(self).wf(),
            other.wf(),
        ensures
            final(self).wf(),
            final(self)@ == old(self)@.intersect(other@),
    {
        bits_and(&mut self.tcp, &other.tcp);
        bits_and(&mut self.udp, &other.udp);
        assert(self@ =~= old(self)@.intersect(other@));
    }
}

impl Default for PortSet {
    /// A set with no port present.
    fn default() -> (r: PortSet)
        ensures
            r.wf(),
            r@ == Set::<PortInfo>::empty(),
    {
        PortSet::new()
    }
}

/// What clearing makes of a set of ports: the empty set.
pub open spec fn cleared(s: Set<PortInfo>) -> Set<PortInfo> {
    Set::empty()
}

/// Clearing twice is the same as clearing once, and leaves no port present.
pub proof fn lemma_reset_idempotent(s: Set<PortInfo>)
    ensures
        cleared(cleared(s)) == cleared(s),
        cleared(s).len() == 0,
{
}

} // verus!
