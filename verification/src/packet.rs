//! Raw IPv4 packets: addresses, the Internet checksum, and the ICMP message
//! that tells a sender that its packets are too large.

use vstd::prelude::*;
use crate::bytes::{be16, copy_range, push_all, push_be16};
use crate::net::Ipv4Addr;

verus! {

/// Whether `pkt` begins with an IPv4 header.
pub open spec fn is_ipv4(pkt: Seq<u8>) -> bool {
    pkt.len() >= 20 && pkt[0] / 16 == 4
}

/// The source address of an IPv4 packet.
pub open spec fn src_of(pkt: Seq<u8>) -> Option<Ipv4Addr> {
    if is_ipv4(pkt) {
        Some(Ipv4Addr { a: pkt[12], b: pkt[13], c: pkt[14], d: pkt[15] })
    } else {
        None
    }
}

/// The destination address of an IPv4 packet.
pub open spec fn dst_of(pkt: Seq<u8>) -> Option<Ipv4Addr> {
    if is_ipv4(pkt) {
        Some(Ipv4Addr { a: pkt[16], b: pkt[17], c: pkt[18], d: pkt[19] })
    } else {
        None
    }
}

/// The destination address of an IPv4 packet.
pub fn ipv4_dst(pkt: &[u8]) -> (r: Option<Ipv4Addr>)
    ensures
        r == dst_of(pkt@),
{
    if pkt.len() < 20 || pkt[0] / 16 != 4 {
        return None;
    }
    Some(Ipv4Addr { a: pkt[16], b: pkt[17], c: pkt[18], d: pkt[19] })
}

/// The source address of an IPv4 packet.
pub fn ipv4_src(pkt: &[u8]) -> (r: Option<Ipv4Addr>)
    ensures
        r == src_of(pkt@),
{
    if pkt.len() < 20 || pkt[0] / 16 != 4 {
        return None;
    }
    Some(Ipv4Addr { a: pkt[12], b: pkt[13], c: pkt[14], d: pkt[15] })
}

/// The sum of the 16-bit words of `data`, a last odd byte being the high half
/// of a word.
pub open spec fn word_sum(data: Seq<u8>) -> nat
    decreases data.len(),
{
    if data.len() == 0 {
        0
    } else if data.len() == 1 {
        (data[0] * 256) as nat
    } else {
        (data[0] * 256 + data[1]) as nat + word_sum(data.skip(2))
    }
}

/// A sum in ones' complement: carries are added back in.
pub open spec fn folded(sum: nat) -> nat {
    if sum == 0 {
        0
    } else {
        ((sum - 1) % 65535 + 1) as nat
    }
}

/// The Internet checksum (RFC 1071).
pub open spec fn checksum_of(data: Seq<u8>) -> u16 {
    (65535 - folded(word_sum(data))) as u16
}

proof fn lemma_fold_step(sum: nat)
    requires
        sum > 65535,
    ensures
        sum % 65536 + sum / 65536 > 0,
        sum % 65536 + sum / 65536 < sum,
        folded((sum % 65536 + sum / 65536) as nat) == folded(sum),
{
    let q = (sum / 65536) as int;
    let r = (sum % 65536) as int;
    assert(sum == 65536 * q + r);
    vstd::arithmetic::div_mod::lemma_mod_multiples_vanish(q, q + r - 1, 65535);
    assert(sum - 1 == 65535 * q + (q + r - 1));
}

proof fn lemma_fold_small(sum: nat)
    requires
        sum <= 65535,
    ensures
        folded(sum) == sum,
{
    if sum > 0 {
        vstd::arithmetic::div_mod::lemma_small_mod((sum - 1) as nat, 65535);
    }
}

/// The Internet checksum of `data`.
pub fn inet_checksum(data: &[u8]) -> (r: u16)
    ensures
        r == checksum_of(data@),
{
    let mut sum: u128 = 0;
    let len: usize = data.len();
    let mut i: usize = 0;
    proof {
        assert(data@.skip(0) =~= data@);
        assert(len as u128 <= 0xffff_ffff_ffff_ffff);
    }
    while len - i >= 2
        invariant
            i <= len == data@.len(),
            len <= 0xffff_ffff_ffff_ffff,
            sum + word_sum(data@.skip(i as int)) == word_sum(data@),
            sum <= i * 65535,
        decreases len - i,
    {
        proof {
            assert(data@.skip(i as int).skip(2) =~= data@.skip(i + 2));
        }
        sum = sum + (data[i] as u128 * 256 + data[i + 1] as u128);
        i = i + 2;
    }
    if i < len {
        proof {
            assert(data@.skip(i as int).len() == 1);
        }
        sum = sum + data[i] as u128 * 256;
    } else {
        proof {
            assert(data@.skip(i as int).len() == 0);
        }
    }
    let ghost total = sum as nat;
    while sum > 0xffff
        invariant
            folded(sum as nat) == folded(total),
        decreases sum,
    {
        proof {
            lemma_fold_step(sum as nat);
        }
        sum = sum % 65536 + sum / 65536;
    }
    proof {
        lemma_fold_small(sum as nat);
    }
    65535 - sum as u16
}

proof fn lemma_word_sum_add(a: Seq<u8>, b: Seq<u8>)
    requires
        a.len() % 2 == 0,
    ensures
        word_sum(a + b) == word_sum(a) + word_sum(b),
    decreases a.len(),
{
    if a.len() == 0 {
        assert(a + b =~= b);
    } else {
        lemma_word_sum_add(a.skip(2), b);
        assert((a + b).skip(2) =~= a.skip(2) + b);
    }
}

/// A packet whose checksum field, at an even offset, holds the checksum that
/// it had with that field zero, has the checksum zero.
pub proof fn law_checksum_verifies(before: Seq<u8>, after: Seq<u8>)
    requires
        before.len() % 2 == 0,
    ensures
        checksum_of(before + be16(checksum_of(before + be16(0) + after)) + after) == 0,
{
    let blank = before + be16(0) + after;
    let c = checksum_of(blank);
    let full = before + be16(c) + after;
    lemma_two_byte_sum(0);
    lemma_two_byte_sum(c);
    lemma_word_sum_add(before, be16(0) + after);
    lemma_word_sum_add(be16(0), after);
    lemma_word_sum_add(before, be16(c) + after);
    lemma_word_sum_add(be16(c), after);
    assert(blank =~= before + (be16(0) + after));
    assert(full =~= before + (be16(c) + after));
    let s = word_sum(blank);
    let f = folded(s);
    assert(word_sum(full) == s + c);
    assert(f <= 65535);
    if s == 0 {
        lemma_fold_small(65535);
    } else {
        let k = (s - 1) / 65535;
        vstd::arithmetic::div_mod::lemma_fundamental_div_mod(s - 1, 65535);
        assert(s == 65535 * k + f);
        assert(s + c == 65535 * (k + 1));
        assert(s + c - 1 == 65535 * k + 65534);
        vstd::arithmetic::div_mod::lemma_mod_multiples_vanish(k, 65534, 65535);
        vstd::arithmetic::div_mod::lemma_small_mod(65534, 65535);
        assert(folded((s + c) as nat) == 65535);
    }
}

proof fn lemma_two_byte_sum(n: u16)
    ensures
        word_sum(be16(n)) == n,
{
    assert(be16(n).skip(2) =~= Seq::<u8>::empty());
    reveal_with_fuel(word_sum, 2);
}

/// Bytes of the header of an IPv4 packet.
pub open spec fn header_len(pkt: Seq<u8>) -> int {
    (pkt[0] % 16) * 4
}

/// Whether a sender is told that a packet is too large: it is IPv4, not ICMP
/// itself, comes from one host and goes to one: neither to a group of hosts
/// nor to all of them.
pub open spec fn answerable(orig: Seq<u8>) -> bool {
    &&& orig.len() >= 20
    &&& header_len(orig) >= 20
    &&& orig.len() >= header_len(orig)
    &&& orig[0] / 16 == 4
    &&& orig[9] != 1
    &&& !(orig[12] == 0 && orig[13] == 0 && orig[14] == 0 && orig[15] == 0)
    &&& !(orig[12] == 255 && orig[13] == 255 && orig[14] == 255 && orig[15] == 255)
    &&& !(224 <= orig[12] <= 239)
    &&& orig[12] != 127
    &&& !(orig[16] == 255 && orig[17] == 255 && orig[18] == 255 && orig[19] == 255)
    &&& !(224 <= orig[16] <= 239)
}

/// What an ICMP error quotes: the header and eight bytes behind it.
pub open spec fn quote_of(orig: Seq<u8>) -> Seq<u8> {
    let n = header_len(orig) + 8;
    if orig.len() <= n {
        orig
    } else {
        orig.take(n)
    }
}

/// The ICMP message "fragmentation needed" with this checksum.
pub open spec fn error_body(quote: Seq<u8>, mtu: u16, checksum: u16) -> Seq<u8> {
    seq![3u8, 4] + be16(checksum) + (seq![0u8, 0] + be16(mtu) + quote)
}

/// The IPv4 header of an ICMP packet with this checksum.
pub open spec fn error_header(total: u16, checksum: u16, src: Seq<u8>, dst: Seq<u8>) -> Seq<u8> {
    (seq![0x45u8, 0] + be16(total) + seq![0u8, 0, 0, 0, 64, 1]) + be16(checksum) + (src + dst)
}

/// The packet that tells the sender of `orig` the largest size.
pub open spec fn frag_needed(orig: Seq<u8>, mtu: u16, gateway: Ipv4Addr) -> Option<Seq<u8>> {
    if !answerable(orig) {
        None
    } else {
        let quote = quote_of(orig);
        let body = error_body(quote, mtu, checksum_of(error_body(quote, mtu, 0)));
        let total = (20 + body.len()) as u16;
        let src = gateway.octets();
        let dst = orig.subrange(12, 16);
        Some(error_header(total, checksum_of(error_header(total, 0, src, dst)), src, dst) + body)
    }
}

fn header_size(first: u8) -> (r: usize)
    ensures
        r == (first % 16) * 4,
{
    (first % 16) as usize * 4
}

fn total_size(body: &[u8]) -> (r: u16)
    requires
        body@.len() <= 76,
    ensures
        r == (20 + body@.len()) as u16,
{
    20 + body.len() as u16
}

fn write_body(quote: &[u8], mtu: u16, checksum: u16) -> (r: Vec<u8>)
    ensures
        r@ == error_body(quote@, mtu, checksum),
{
    let mut out: Vec<u8> = Vec::new();
    out.push(3);
    out.push(4);
    push_be16(&mut out, checksum);
    out.push(0);
    out.push(0);
    push_be16(&mut out, mtu);
    push_all(&mut out, quote);
    proof {
        assert(out@ =~= error_body(quote@, mtu, checksum));
    }
    out
}

fn write_header(total: u16, checksum: u16, gateway: Ipv4Addr, dst: &[u8]) -> (r: Vec<u8>)
    ensures
        r@ == error_header(total, checksum, gateway.octets(), dst@),
{
    let mut out: Vec<u8> = Vec::new();
    out.push(0x45);
    out.push(0);
    push_be16(&mut out, total);
    out.push(0);
    out.push(0);
    out.push(0);
    out.push(0);
    out.push(64);
    out.push(1);
    push_be16(&mut out, checksum);
    out.push(gateway.a);
    out.push(gateway.b);
    out.push(gateway.c);
    out.push(gateway.d);
    push_all(&mut out, dst);
    proof {
        assert(out@ =~= error_header(total, checksum, gateway.octets(), dst@));
    }
    out
}

/// The ICMP packet "fragmentation needed" for a packet that was too large,
/// sent from `gateway` to the packet's source. `None` where none is owed: for
/// what is not IPv4, for ICMP, for sources that are not one host, and for
/// multicast and broadcast destinations.
pub fn build_icmp_frag_needed(orig: &[u8], next_hop_mtu: u16, gateway: Ipv4Addr) -> (r: Option<
    Vec<u8>,
>)
    ensures
        match r {
            Some(pkt) => frag_needed(orig@, next_hop_mtu, gateway) == Some(pkt@),
            None => frag_needed(orig@, next_hop_mtu, gateway) is None,
        },
{
    if orig.len() < 20 {
        return None;
    }
    let ihl: usize = header_size(orig[0]);
    if ihl < 20 || orig.len() < ihl || orig[0] / 16 != 4 || orig[9] == 1 {
        return None;
    }
    if (orig[12] == 0 && orig[13] == 0 && orig[14] == 0 && orig[15] == 0) || (orig[12] == 255
        && orig[13] == 255 && orig[14] == 255 && orig[15] == 255) || (224 <= orig[12] && orig[12]
        <= 239) || orig[12] == 127 {
        return None;
    }
    if (orig[16] == 255 && orig[17] == 255 && orig[18] == 255 && orig[19] == 255) || (224
        <= orig[16] && orig[16] <= 239) {
        return None;
    }
    let quote_len: usize = if orig.len() <= ihl + 8 {
        orig.len()
    } else {
        ihl + 8
    };
    let quote = copy_range(orig, 0, quote_len);
    proof {
        assert(quote@ =~= quote_of(orig@));
    }
    let blank = write_body(quote.as_slice(), next_hop_mtu, 0);
    let sum: u16 = inet_checksum(blank.as_slice());
    let body = write_body(quote.as_slice(), next_hop_mtu, sum);
    let total: u16 = total_size(body.as_slice());
    let dst = copy_range(orig, 12, 16);
    let blank_header = write_header(total, 0, gateway, dst.as_slice());
    let header_sum: u16 = inet_checksum(blank_header.as_slice());
    let mut pkt = write_header(total, header_sum, gateway, dst.as_slice());
    push_all(&mut pkt, body.as_slice());
    Some(pkt)
}

/// Both checksums of the packet verify: recomputed over header and message,
/// their fields in place, they are zero.
pub proof fn law_error_checksums_verify(orig: Seq<u8>, mtu: u16, gateway: Ipv4Addr)
    requires
        answerable(orig),
    ensures
        ({
            let pkt = frag_needed(orig, mtu, gateway)->0;
            checksum_of(pkt.take(20)) == 0 && checksum_of(pkt.skip(20)) == 0
        }),
{
    let quote = quote_of(orig);
    let body = error_body(quote, mtu, checksum_of(error_body(quote, mtu, 0)));
    let total = (20 + body.len()) as u16;
    let src = gateway.octets();
    let dst = orig.subrange(12, 16);
    let header = error_header(total, checksum_of(error_header(total, 0, src, dst)), src, dst);
    law_checksum_verifies(seq![3u8, 4], seq![0u8, 0] + be16(mtu) + quote);
    law_checksum_verifies(seq![0x45u8, 0] + be16(total) + seq![0u8, 0, 0, 0, 64, 1], src + dst);
    let pkt = header + body;
    assert(pkt.take(20) =~= header);
    assert(pkt.skip(20) =~= body);
}

/// An ICMP packet is never answered with an error, so errors cannot feed on
/// each other.
pub proof fn law_errors_are_not_answered(orig: Seq<u8>, mtu: u16, gateway: Ipv4Addr, mtu2: u16)
    ensures
        frag_needed(orig, mtu, gateway) matches Some(pkt) ==> frag_needed(pkt, mtu2, gateway)
            is None,
{
    if answerable(orig) {
        let quote = quote_of(orig);
        let body = error_body(quote, mtu, checksum_of(error_body(quote, mtu, 0)));
        let total = (20 + body.len()) as u16;
        let src = gateway.octets();
        let dst = orig.subrange(12, 16);
        let pkt = frag_needed(orig, mtu, gateway)->0;
        let front = seq![0x45u8, 0] + be16(total) + seq![0u8, 0, 0, 0, 64, 1];
        assert(front[9] == 1);
        assert(pkt[9] == front[9]);
    }
}

/// How many bytes of a packet an error quotes: the header, whose length its
/// first byte gives in words, and eight more, as far as there are so many.
pub open spec fn quoted_len(b: Seq<u8>) -> int {
    let wanted = 4 * (b[0] - 0x40) + 8;
    if b.len() < wanted {
        b.len() as int
    } else {
        wanted
    }
}

proof fn lemma_error_layout(b: Seq<u8>, mtu: u16, gateway: Ipv4Addr)
    requires
        answerable(b),
    ensures
        ({
            let p = frag_needed(b, mtu, gateway)->0;
            &&& p.len() == 28 + quoted_len(b)
            &&& p[0] == 0x45 && p[2] * 256 + p[3] == p.len()
            &&& p[8] == 64 && p[9] == 1
            &&& p.subrange(12, 16) == gateway.octets()
            &&& p.subrange(16, 20) == b.subrange(12, 16)
            &&& p[20] == 3 && p[21] == 4 && p[24] == 0 && p[25] == 0
            &&& p[26] * 256 + p[27] == mtu
            &&& p.skip(28) == b.take(quoted_len(b))
        }),
{
    let p = frag_needed(b, mtu, gateway)->0;
    let quote = quote_of(b);
    let sum = checksum_of(error_body(quote, mtu, 0));
    let body = error_body(quote, mtu, sum);
    let total = (20 + body.len()) as u16;
    let src = gateway.octets();
    let dst = b.subrange(12, 16);
    let head_sum = checksum_of(error_header(total, 0, src, dst));
    let head = error_header(total, head_sum, src, dst);
    assert(head.len() == 20);
    assert(p == head + body);
    assert(body.len() == 8 + quote.len());
    assert(quote =~= b.take(quoted_len(b)));
    assert(p.subrange(12, 16) =~= src);
    assert(p.subrange(16, 20) =~= dst);
    assert(p.skip(28) =~= quote);
    assert(p[2] == be16(total)[0] && p[3] == be16(total)[1]);
    assert(p[26] == be16(mtu)[0] && p[27] == be16(mtu)[1]);
    assert(p[20] == body[0] && p[21] == body[1] && p[24] == body[4] && p[25] == body[5]);
}

/// A packet that is too large is answered exactly where it is an IPv4 packet
/// with a whole header, is not ICMP, comes from a host, that is not from
/// 0.0.0.0, 127.0.0.0/8, 224.0.0.0/4 or 255.255.255.255, and goes to one, that
/// is not to 224.0.0.0/4 or 255.255.255.255. The answer goes from the gateway
/// to the sender, is as long as it says, tells the size, and quotes the header
/// with eight bytes behind it.
pub proof fn law_large_packets_are_answered(
    orig: &[u8],
    mtu: u16,
    gateway: Ipv4Addr,
    r: Option<Vec<u8>>,
)
    requires
        call_ensures(build_icmp_frag_needed, (orig, mtu, gateway), r),
    ensures
        ({
            let b = orig@;
            let from = b[12] * 0x100_0000 + b[13] * 0x1_0000 + b[14] * 0x100 + b[15];
            let to = b[16] * 0x100_0000 + b[17] * 0x1_0000 + b[18] * 0x100 + b[19];
            &&& r is Some <==> b.len() >= 20 && 0x45 <= b[0] <= 0x4f && b.len() >= 4 * (b[0] - 0x40)
                && b[9] != 1 && from != 0 && !(0x7f00_0000 <= from < 0x8000_0000) && !(0xe000_0000
                <= from < 0xf000_0000) && from != 0xffff_ffff && !(0xe000_0000 <= to < 0xf000_0000)
                && to != 0xffff_ffff
            &&& r matches Some(p) ==> {
                &&& p@.len() == 28 + quoted_len(b)
                &&& p@[0] == 0x45 && p@[2] * 256 + p@[3] == p@.len()
                &&& p@[8] == 64 && p@[9] == 1
                &&& p@.subrange(12, 16) == gateway.octets()
                &&& p@.subrange(16, 20) == b.subrange(12, 16)
                &&& p@[20] == 3 && p@[21] == 4 && p@[24] == 0 && p@[25] == 0
                &&& p@[26] * 256 + p@[27] == mtu
                &&& p@.skip(28) == b.take(quoted_len(b))
            }
        }),
{
    if answerable(orig@) {
        lemma_error_layout(orig@, mtu, gateway);
    }
}

/// The checksum and the 16-bit words of the data, the last byte of an odd
/// number being a high half, add up to a multiple of 65535, whatever is
/// appended in whole words.
pub proof fn law_checksum_adds_up(data: &[u8], longer: &[u8], hi: u8, lo: u8, a: u16, b: u16)
    requires
        call_ensures(inet_checksum, (data,), a),
        call_ensures(inet_checksum, (longer,), b),
        data@.len() % 2 == 0,
        longer@ == data@ + seq![hi, lo] || longer@ == data@ + seq![hi] && lo == 0,
    ensures
        (b + hi * 256 + lo - a) % 65535 == 0,
        data@.len() == 0 ==> a == 65535,
{
    let one = longer@.skip(data@.len() as int);
    assert(longer@ =~= data@ + one);
    lemma_word_sum_add(data@, one);
    reveal_with_fuel(word_sum, 2);
    if longer@ == data@ + seq![hi, lo] {
        assert(one =~= seq![hi, lo]);
        assert(one.skip(2) =~= Seq::<u8>::empty());
    } else {
        assert(one =~= seq![hi]);
    }
    let s = word_sum(data@);
    let t = word_sum(longer@);
    assert(t == s + hi * 256 + lo);
    lemma_folded_is_congruent(s);
    lemma_folded_is_congruent(t);
    let x = (folded(s) - s) / 65535;
    let y = (folded(t) - t) / 65535;
    vstd::arithmetic::div_mod::lemma_fundamental_div_mod(folded(s) - s, 65535);
    vstd::arithmetic::div_mod::lemma_fundamental_div_mod(folded(t) - t, 65535);
    assert(b + hi * 256 + lo - a == 65535 * (x - y));
    vstd::arithmetic::div_mod::lemma_mod_multiples_basic(x - y, 65535);
}

proof fn lemma_folded_is_congruent(sum: nat)
    ensures
        (folded(sum) - sum) % 65535 == 0,
        folded(sum) <= 65535,
{
    if sum > 0 {
        vstd::arithmetic::div_mod::lemma_fundamental_div_mod(sum - 1, 65535);
        let q = (sum - 1) / 65535;
        assert(folded(sum) - sum == -q * 65535);
        vstd::arithmetic::div_mod::lemma_mod_multiples_basic(-q, 65535);
    }
}

} // verus!
