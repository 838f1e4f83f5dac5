//! The Internet checksum, as the packet library computes it.

use crate::addr::Ipv4Addr;
use pnet::packet::ipv4::Ipv4Packet;
use pnet::packet::udp::UdpPacket;
use vstd::prelude::*;

verus! {

/// The 16-bit word at word offset `w` of `data`, read in network order. A
/// last odd byte is the high half of a word; beyond the data a word is zero.
pub open spec fn be_word(data: Seq<u8>, w: int) -> nat {
    if 0 <= w && 2 * w + 1 < data.len() {
        (data[2 * w] * 256 + data[2 * w + 1]) as nat
    } else if 0 <= w && 2 * w < data.len() {
        (data[2 * w] * 256) as nat
    } else {
        0
    }
}

/// The sum of the first `n` words of `data`, without the word at offset
/// `skipword`.
pub open spec fn sum_be_words_upto(data: Seq<u8>, skipword: int, n: nat) -> nat
    decreases n,
{
    if n == 0 {
        0
    } else {
        sum_be_words_upto(data, skipword, (n - 1) as nat) + if n - 1 == skipword {
            0
        } else {
            be_word(data, n - 1)
        }
    }
}

/// The sum of all 16-bit words of `data`, without the word at offset
/// `skipword`.
pub open spec fn sum_be_words(data: Seq<u8>, skipword: int) -> nat {
    sum_be_words_upto(data, skipword, ((data.len() + 1) / 2) as nat)
}

/// Adds the carries above the low 16 bits back in, until none is left.
pub open spec fn fold_carries(sum: nat) -> nat
    decreases sum,
{
    if sum < 0x1_0000 {
        sum
    } else {
        fold_carries(sum / 0x1_0000 + sum % 0x1_0000)
    }
}

/// The checksum that a sum of words gives: the ones' complement of the sum
/// with its carries folded in.
pub open spec fn finalize_checksum(sum: nat) -> u16 {
    (0xffff - fold_carries(sum)) as u16
}

/// The number of bytes that an IPv4 header says it has, held between 20 and
/// the length of the packet.
pub open spec fn ipv4_header_span(packet: Seq<u8>) -> int {
    let stated = (packet[0] % 16) * 4;
    if stated < 20 {
        20
    } else if stated > packet.len() {
        packet.len() as int
    } else {
        stated
    }
}

/// The checksum of the IPv4 header that `packet` begins with: the checksum
/// field itself, the sixth word, counts as zero.
pub open spec fn ipv4_header_checksum(packet: Seq<u8>) -> u16 {
    finalize_checksum(sum_be_words(packet.subrange(0, ipv4_header_span(packet)), 5))
}

/// The sum of the two words of an IPv4 address.
pub open spec fn ipv4_word_sum(addr: Ipv4Addr) -> nat {
    let octets = addr.spec_octets();
    ((octets[0] * 256 + octets[1]) + (octets[2] * 256 + octets[3])) as nat
}

/// The checksum of a UDP datagram sent from `source` to `destination` over
/// IPv4: over the pseudo-header (the two addresses, the protocol number 17
/// and the datagram's length) and the datagram, whose own checksum field,
/// the fourth word, counts as zero.
pub open spec fn udp_ipv4_checksum(datagram: Seq<u8>, source: Ipv4Addr, destination: Ipv4Addr) -> u16 {
    finalize_checksum(
        ipv4_word_sum(source) + ipv4_word_sum(destination) + 17 + datagram.len() + sum_be_words(datagram, 3),
    )
}

/// Calls `pnet::packet::ipv4::checksum` on `packet` read as an IPv4 packet
/// by `Ipv4Packet::new`.
///
/// Claimed of them: a buffer of fewer than 20 bytes is no IPv4 packet; of a
/// longer one the result is [`ipv4_header_checksum`], the ones' complement
/// of the folded sum of the header's 16-bit words but the sixth.
#[verifier::external_body]
pub(crate) fn ipv4_checksum(packet: &[u8]) -> (sum: Option<u16>)
    ensures
        packet@.len() < 20 ==> sum is None,
        packet@.len() >= 20 ==> sum == Some(ipv4_header_checksum(packet@)),
{
    match Ipv4Packet::new(packet) {
        Some(header) => Some(pnet::packet::ipv4::checksum(&header)),
        None => None,
    }
}

/// Calls `pnet::packet::udp::ipv4_checksum` on `datagram` read as a UDP
/// datagram by `UdpPacket::new`.
///
/// Claimed of them: a buffer of fewer than 8 bytes is no UDP datagram; of a
/// longer one the result is [`udp_ipv4_checksum`]. Datagrams longer than
/// 65535 bytes are left out: IPv4 cannot carry them.
#[verifier::external_body]
pub(crate) fn udp_checksum(datagram: &[u8], source: Ipv4Addr, destination: Ipv4Addr) -> (sum: Option<u16>)
    requires
        datagram@.len() <= 65535,
    ensures
        datagram@.len() < 8 ==> sum is None,
        datagram@.len() >= 8 ==> sum == Some(udp_ipv4_checksum(datagram@, source, destination)),
{
    match UdpPacket::new(datagram) {
        Some(udp) => Some(pnet::packet::udp::ipv4_checksum(&udp, &source.bits.into(), &destination.bits.into())),
        None => None,
    }
}

/// Folding the carries in leaves a sum of at most 16 bits that differs from
/// the sum by a multiple of 0xffff, and is zero only where the sum is.
pub proof fn lemma_fold_carries(sum: nat)
    ensures
        fold_carries(sum) <= 0xffff,
        fold_carries(sum) % 0xffff == sum % 0xffff,
        sum > 0 ==> fold_carries(sum) > 0,
    decreases sum,
{
    if sum >= 0x1_0000 {
        let high = sum / 0x1_0000;
        let low = sum % 0x1_0000;
        lemma_fold_carries(high + low);
        assert(sum == 0xffff * high + (high + low));
        assert((0xffff * high + (high + low)) % 0xffff == (high + low) % 0xffff) by (nonlinear_arith);
    }
}

/// The checksum as UDP sends it: a checksum of zero is sent as 0xffff,
/// because a zero in the datagram says that no checksum was made.
pub open spec fn sent_checksum(checksum: u16) -> u16 {
    if checksum == 0 {
        0xffff
    } else {
        checksum
    }
}

/// A checksum verifies: the sum that it was made of and the checksum
/// itself, as it is or as UDP sends it, add up, carries folded in, to
/// 0xffff.
pub proof fn lemma_checksum_verifies(sum: nat)
    ensures
        fold_carries(sum + finalize_checksum(sum) as nat) == 0xffff,
        fold_carries(sum + sent_checksum(finalize_checksum(sum)) as nat) == 0xffff,
{
    if finalize_checksum(sum) == 0 {
        lemma_fold_carries(sum);
        let sent: nat = sum + 0xffff;
        lemma_fold_carries(sent);
        assert(fold_carries(sum) == 0xffff);
        assert(sent % 0xffff == 0) by (nonlinear_arith)
            requires
                sum % 0xffff == 0,
                sent == sum + 0xffff,
        ;
        let f = fold_carries(sent);
        assert(f % 0xffff == 0 && 0 < f <= 0xffff);
    }
    lemma_fold_carries(sum);
    let folded = fold_carries(sum);
    let checksum = finalize_checksum(sum);
    assert(checksum == 0xffff - folded);
    let all: nat = sum + checksum as nat;
    lemma_fold_carries(all);
    assert(all > 0);
    assert(all % 0xffff == 0) by {
        assert(sum % 0xffff == folded % 0xffff);
        assert((sum + (0xffff - folded)) % 0xffff == 0) by (nonlinear_arith)
            requires
                sum % 0xffff == folded % 0xffff,
                folded <= 0xffff,
        ;
    }
    assert(fold_carries(all) == 0xffff) by {
        let f = fold_carries(all);
        assert(f % 0xffff == 0);
        assert(0 < f <= 0xffff);
    }
}

/// The sum of the first `n` words with none left out is the sum without
/// the word at offset `skipword`, and that word.
pub proof fn lemma_sum_with_skipped(data: Seq<u8>, skipword: int, n: nat)
    requires
        0 <= skipword,
    ensures
        sum_be_words_upto(data, -1, n) == sum_be_words_upto(data, skipword, n) + if skipword < n {
            be_word(data, skipword)
        } else {
            0
        },
    decreases n,
{
    if n > 0 {
        lemma_sum_with_skipped(data, skipword, (n - 1) as nat);
    }
}

/// The sum without the word at offset `skipword` is the same for two
/// buffers that differ in that word only.
pub proof fn lemma_sum_ignores_skipped(a: Seq<u8>, b: Seq<u8>, skipword: int, n: nat)
    requires
        a.len() == b.len(),
        forall|i: int| 0 <= i < a.len() && i != 2 * skipword && i != 2 * skipword + 1 ==> a[i] == b[i],
    ensures
        sum_be_words_upto(a, skipword, n) == sum_be_words_upto(b, skipword, n),
    decreases n,
{
    if n > 0 {
        lemma_sum_ignores_skipped(a, b, skipword, (n - 1) as nat);
    }
}

/// A buffer of whole words in which the word at offset `skipword` holds
/// the checksum of the buffer, as it is or as UDP sends it, verifies: all its words and `extra` add up,
/// carries folded in, to 0xffff. `extra` is what is summed besides the
/// buffer, such as a pseudo-header.
pub proof fn lemma_summed_buffer_verifies(unsummed: Seq<u8>, summed: Seq<u8>, skipword: int, extra: nat)
    requires
        unsummed.len() == summed.len(),
        0 <= skipword,
        2 * skipword + 1 < summed.len(),
        forall|i: int| 0 <= i < summed.len() && i != 2 * skipword && i != 2 * skipword + 1 ==> summed[i] == unsummed[i],
        be_word(summed, skipword) == finalize_checksum(extra + sum_be_words(unsummed, skipword)) || be_word(summed, skipword)
            == sent_checksum(finalize_checksum(extra + sum_be_words(unsummed, skipword))),
    ensures
        fold_carries(extra + sum_be_words(summed, -1)) == 0xffff,
{
    let n = ((summed.len() + 1) / 2) as nat;
    lemma_sum_with_skipped(summed, skipword, n);
    lemma_sum_ignores_skipped(unsummed, summed, skipword, n);
    lemma_checksum_verifies(extra + sum_be_words(unsummed, skipword));
}

} // verus!
