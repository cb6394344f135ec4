//! The header that tells the far side where to dial, and the SOCKS5 server
//! handshake (RFC 1928, no authentication, CONNECT only) that local clients
//! speak.
//!
//! Both take their addresses in SOCKS5's own encoding. Input comes from peers:
//! whatever it holds, it is either accepted or refused with an error.

use vstd::prelude::*;
use vstd::utf8::{decode_utf8, encode_utf8, valid_utf8};
use crate::bytes::{
    be16, be16_at, copy_range, lemma_be16_round_trip, push_all, push_be16, read_be16,
};
use crate::exit;
use crate::exit::{says, Error};
use crate::i18n::{looked_up, lookup, said, say1, say2, Catalog};
use crate::net::{IpAddr, Ipv4Addr, Ipv6Addr, SocketAddr};
use crate::text::{decimal, decimal_of, text_from_utf8, utf8_refusal};

verus! {

/// How long resolving a domain may take, in seconds.
pub const DNS_RESOLVE_TIMEOUT_SECS: u64 = 10;

/// Where a stream is to be connected to.
#[derive(Debug)]
pub enum Target {
    Addr(SocketAddr),
    Domain(String, u16),
}

/// A target as a value of the specification.
pub enum TargetView {
    Addr(SocketAddr),
    Domain(Seq<char>, u16),
}

impl View for Target {
    type V = TargetView;

    open spec fn view(&self) -> TargetView {
        match self {
            Target::Addr(a) => TargetView::Addr(*a),
            Target::Domain(host, port) => TargetView::Domain(host@, *port),
        }
    }
}

/// What looking up a domain gave.
#[derive(Debug)]
pub enum Lookup {
    TimedOut,
    /// It failed, for this reason.
    Failed(String),
    /// The addresses, in the resolver's order.
    Found(Vec<SocketAddr>),
}

impl Target {
    /// The address to dial: a domain's first one, and every other target's
    /// own. `found` is what looking up the domain gave.
    pub fn resolve(&self, catalog: &Catalog, found: Lookup) -> (r: Result<SocketAddr, Error>)
        ensures
            match self@ {
                TargetView::Addr(a) => r == Ok::<SocketAddr, Error>(a),
                TargetView::Domain(host, _) => match found {
                    Lookup::TimedOut => r is Err && says(
                        r->Err_0,
                        said(
                            catalog@,
                            "timed out resolving {0} after {1} seconds"@,
                            seq![host, decimal_of(DNS_RESOLVE_TIMEOUT_SECS as nat)],
                        ),
                        None,
                    ),
                    Lookup::Failed(why) => r is Err && r->Err_0.wf() && r->Err_0@ == seq![
                        (said(catalog@, "resolving {0}"@, seq![host]), None::<i32>),
                        (why@, None::<i32>),
                    ],
                    Lookup::Found(addrs) => if addrs@.len() > 0 {
                        r == Ok::<SocketAddr, Error>(addrs@[0])
                    } else {
                        r is Err && says(
                            r->Err_0,
                            said(catalog@, "no addresses for {0}"@, seq![host]),
                            None,
                        )
                    },
                },
            },
    {
        match self {
            Target::Addr(a) => Ok(*a),
            Target::Domain(host, _) => match found {
                Lookup::TimedOut => Err(
                    Error::msg(
                        say2(
                            catalog,
                            "timed out resolving {0} after {1} seconds",
                            host.clone(),
                            decimal(DNS_RESOLVE_TIMEOUT_SECS),
                        ),
                    ),
                ),
                Lookup::Failed(why) => {
                    let ghost w = why@;
                    let e = Error::msg(why).context(say1(catalog, "resolving {0}", host.clone()));
                    proof {
                        assert(e@ =~= seq![
                            (said(catalog@, "resolving {0}"@, seq![host@]), None::<i32>),
                            (w, None::<i32>),
                        ]);
                    }
                    Err(e)
                },
                Lookup::Found(addrs) => {
                    if addrs.len() > 0 {
                        Ok(addrs[0])
                    } else {
                        Err(Error::msg(say1(catalog, "no addresses for {0}", host.clone())))
                    }
                },
            },
        }
    }
}

/// The sixteen bytes of an IPv6 address.
#[verifier::opaque]
pub open spec fn v6_bytes(ip: Ipv6Addr) -> Seq<u8> {
    be16(ip.s0) + be16(ip.s1) + be16(ip.s2) + be16(ip.s3) + be16(ip.s4) + be16(ip.s5) + be16(ip.s6)
        + be16(ip.s7)
}

/// The IPv4 address in the four bytes of `b` from `off`.
pub open spec fn v4_at(b: Seq<u8>, off: int) -> Ipv4Addr {
    Ipv4Addr { a: b[off], b: b[off + 1], c: b[off + 2], d: b[off + 3] }
}

/// The IPv6 address in the sixteen bytes of `b` from `off`.
pub open spec fn v6_at(b: Seq<u8>, off: int) -> Ipv6Addr {
    Ipv6Addr {
        s0: be16_at(b, off) as u16,
        s1: be16_at(b, off + 2) as u16,
        s2: be16_at(b, off + 4) as u16,
        s3: be16_at(b, off + 6) as u16,
        s4: be16_at(b, off + 8) as u16,
        s5: be16_at(b, off + 10) as u16,
        s6: be16_at(b, off + 12) as u16,
        s7: be16_at(b, off + 14) as u16,
    }
}

/// Whether a target has an encoding: a domain takes at most 255 bytes.
pub open spec fn encodable(t: TargetView) -> bool {
    match t {
        TargetView::Addr(_) => true,
        TargetView::Domain(host, _) => encode_utf8(host).len() <= 255,
    }
}

/// The encoding of a target: address type, address, port.
pub open spec fn target_bytes(t: TargetView) -> Seq<u8> {
    match t {
        TargetView::Addr(a) => match a.ip {
            IpAddr::V4(ip) => seq![1u8] + ip.octets() + be16(a.port),
            IpAddr::V6(ip) => seq![4u8] + v6_bytes(ip) + be16(a.port),
        },
        TargetView::Domain(host, port) => seq![3u8, encode_utf8(host).len() as u8] + encode_utf8(
            host,
        ) + be16(port),
    }
}

/// The domain of a header that names one.
pub open spec fn header_domain(header: Seq<u8>) -> Seq<u8> {
    if header.len() >= 2 && header.len() >= 2 + header[1] {
        header.subrange(2, 2 + header[1] as int)
    } else {
        Seq::empty()
    }
}

/// The report of a message on bytes: what is wrong with their UTF-8, if
/// anything is, is its cause.
pub open spec fn utf8_report(message: Seq<char>, bytes: Seq<u8>) -> Seq<(Seq<char>, Option<i32>)> {
    if valid_utf8(bytes) {
        seq![(message, None::<i32>)]
    } else {
        seq![(message, None::<i32>), (utf8_refusal(bytes), None::<i32>)]
    }
}

fn utf8_error(message: String, bytes: &[u8]) -> (r: Error)
    ensures
        r.wf(),
        r@ == utf8_report(message@, bytes@),
{
    match text_from_utf8(bytes) {
        Ok(_) => Error::msg(message),
        Err(why) => exit::because(message, why),
    }
}

/// The part of a header that is missing where it ends early.
#[derive(Clone, Copy, Debug, PartialEq, Eq, Structural)]
pub enum HeaderPart {
    /// The address type, its first byte.
    Kind,
    /// Bytes of an address or of a domain.
    Run,
    /// A length or a port.
    Number,
}

/// What a reader says of input that ends in the middle of a run of bytes.
pub open spec fn early_end() -> Seq<char> {
    "early eof"@
}

/// What a reader says of input that ends in the middle of a number.
pub open spec fn unexpected_end() -> Seq<char> {
    "unexpected end of file"@
}

/// Why a target was not encoded or read.
#[derive(Clone, Copy, Debug, PartialEq, Eq, Structural)]
pub enum TargetError {
    /// The domain takes this many bytes, over 255.
    DomainTooLong(usize),
    /// The header goes on with this part: so many bytes are needed in all to
    /// read it.
    Truncated(usize, HeaderPart),
    /// The domain is not UTF-8.
    DomainNotUtf8,
    /// No address type has this number.
    UnknownAddressType(u8),
}

impl TargetError {
    /// What is reported.
    pub open spec fn says(self, catalog: Map<Seq<char>, Seq<char>>) -> Seq<char> {
        match self {
            TargetError::DomainTooLong(n) => said(
                catalog,
                "domain name too long: {0} bytes"@,
                seq![decimal_of(n as nat)],
            ),
            TargetError::Truncated(_, HeaderPart::Kind) => looked_up(
                catalog,
                "reading target header"@,
            ),
            TargetError::Truncated(_, HeaderPart::Run) => early_end(),
            TargetError::Truncated(_, HeaderPart::Number) => unexpected_end(),
            TargetError::DomainNotUtf8 => looked_up(catalog, "non-utf8 domain in target header"@),
            TargetError::UnknownAddressType(t) => said(
                catalog,
                "unknown address type {0} in target header"@,
                seq![decimal_of(t as nat)],
            ),
        }
    }

    /// What is reported.
    pub fn message(&self, catalog: &Catalog) -> (r: String)
        ensures
            r@ == self.says(catalog@),
    {
        match self {
            TargetError::DomainTooLong(n) => say1(
                catalog,
                "domain name too long: {0} bytes",
                decimal(*n as u64),
            ),
            TargetError::Truncated(_, HeaderPart::Kind) => lookup(catalog, "reading target header"),
            TargetError::Truncated(_, HeaderPart::Run) => "early eof".to_owned(),
            TargetError::Truncated(_, HeaderPart::Number) => "unexpected end of file".to_owned(),
            TargetError::DomainNotUtf8 => lookup(catalog, "non-utf8 domain in target header"),
            TargetError::UnknownAddressType(t) => say1(
                catalog,
                "unknown address type {0} in target header",
                decimal(*t as u64),
            ),
        }
    }

    /// What is reported of a header that was refused: a domain that is not
    /// UTF-8 is reported with what is wrong with it, and a header without its
    /// first byte with what the reader says.
    pub open spec fn report(self, catalog: Map<Seq<char>, Seq<char>>, header: Seq<u8>) -> Seq<
        (Seq<char>, Option<i32>),
    > {
        if self is DomainNotUtf8 {
            utf8_report(self.says(catalog), header_domain(header))
        } else if self matches TargetError::Truncated(_, HeaderPart::Kind) {
            seq![(self.says(catalog), None::<i32>), (unexpected_end(), None::<i32>)]
        } else {
            seq![(self.says(catalog), None::<i32>)]
        }
    }

    /// What is reported of a header that was refused.
    pub fn error(&self, catalog: &Catalog, header: &[u8]) -> (r: Error)
        ensures
            r.wf(),
            r@ == self.report(catalog@, header@),
    {
        let message = self.message(catalog);
        if matches!(self, TargetError::Truncated(_, HeaderPart::Kind)) {
            return exit::because(message, "unexpected end of file".to_owned());
        }
        if !matches!(self, TargetError::DomainNotUtf8) {
            return Error::msg(message);
        }
        let mut domain: Vec<u8> = Vec::new();
        if header.len() >= 2 && header.len() >= 2 + header[1] as usize {
            domain = copy_range(header, 2, 2 + header[1] as usize);
        }
        proof {
            assert(domain@ =~= header_domain(header@));
        }
        utf8_error(message, domain.as_slice())
    }
}

/// The error of a reader that failed after `got` bytes of a header: it is
/// explained where it failed on the first byte, and handed on as it is later.
pub fn header_unread(catalog: &Catalog, got: usize, cause: String) -> (r: Error)
    ensures
        r.wf(),
        r@ == (if got == 0 {
            seq![
                (looked_up(catalog@, "reading target header"@), None::<i32>),
                (cause@, None::<i32>),
            ]
        } else {
            seq![(cause@, None::<i32>)]
        }),
{
    if got == 0 {
        exit::because(lookup(catalog, "reading target header"), cause)
    } else {
        Error::msg(cause)
    }
}

fn push_v6(buf: &mut Vec<u8>, ip: Ipv6Addr)
    ensures
        final(buf)@ == old(buf)@ + v6_bytes(ip),
{
    push_be16(buf, ip.s0);
    push_be16(buf, ip.s1);
    push_be16(buf, ip.s2);
    push_be16(buf, ip.s3);
    push_be16(buf, ip.s4);
    push_be16(buf, ip.s5);
    push_be16(buf, ip.s6);
    push_be16(buf, ip.s7);
    proof {
        reveal(v6_bytes);
        assert(buf@ =~= old(buf)@ + v6_bytes(ip));
    }
}

/// Appends the header for `t`; a domain over 255 bytes is refused and leaves
/// `buf` alone.
pub fn encode_target(buf: &mut Vec<u8>, t: &Target) -> (r: Result<(), TargetError>)
    ensures
        encodable(t@) ==> r == Ok::<(), TargetError>(()) && final(buf)@ == old(buf)@
            + target_bytes(t@),
        !encodable(t@) ==> final(buf)@ == old(buf)@ && match t@ {
            TargetView::Domain(host, _) => r == Err::<(), TargetError>(
                TargetError::DomainTooLong(encode_utf8(host).len() as usize),
            ),
            TargetView::Addr(_) => false,
        },
{
    match t {
        Target::Addr(a) => {
            match a.ip {
                IpAddr::V4(ip) => {
                    buf.push(1);
                    buf.push(ip.a);
                    buf.push(ip.b);
                    buf.push(ip.c);
                    buf.push(ip.d);
                    push_be16(buf, a.port);
                },
                IpAddr::V6(ip) => {
                    buf.push(4);
                    push_v6(buf, ip);
                    push_be16(buf, a.port);
                },
            }
            proof {
                assert(buf@ =~= old(buf)@ + target_bytes(t@));
            }
            Ok(())
        },
        Target::Domain(host, port) => {
            let name = host.as_str().as_bytes();
            let len: usize = name.len();
            if len > 255 {
                return Err(TargetError::DomainTooLong(len));
            }
            buf.push(3);
            buf.push(len as u8);
            push_all(buf, name);
            push_be16(buf, *port);
            proof {
                assert(buf@ =~= old(buf)@ + target_bytes(t@));
            }
            Ok(())
        },
    }
}

/// What the header in `b` says: the target and how many bytes it took, or why
/// it cannot be read.
pub open spec fn target_in(b: Seq<u8>) -> Result<(TargetView, nat), TargetError> {
    if b.len() < 1 {
        Err(TargetError::Truncated(1, HeaderPart::Kind))
    } else if b[0] == 1 {
        if b.len() < 5 {
            Err(TargetError::Truncated(5, HeaderPart::Run))
        } else if b.len() < 7 {
            Err(TargetError::Truncated(7, HeaderPart::Number))
        } else {
            Ok(
                (
                    TargetView::Addr(
                        SocketAddr { ip: IpAddr::V4(v4_at(b, 1)), port: be16_at(b, 5) as u16 },
                    ),
                    7,
                ),
            )
        }
    } else if b[0] == 4 {
        if b.len() < 17 {
            Err(TargetError::Truncated(17, HeaderPart::Run))
        } else if b.len() < 19 {
            Err(TargetError::Truncated(19, HeaderPart::Number))
        } else {
            Ok(
                (
                    TargetView::Addr(
                        SocketAddr { ip: IpAddr::V6(v6_at(b, 1)), port: be16_at(b, 17) as u16 },
                    ),
                    19,
                ),
            )
        }
    } else if b[0] == 3 {
        if b.len() < 2 {
            Err(TargetError::Truncated(2, HeaderPart::Number))
        } else {
            let len = b[1] as int;
            if b.len() < 2 + len {
                Err(TargetError::Truncated((2 + len) as usize, HeaderPart::Run))
            } else if !valid_utf8(b.subrange(2, 2 + len)) {
                Err(TargetError::DomainNotUtf8)
            } else if b.len() < 4 + len {
                Err(TargetError::Truncated((4 + len) as usize, HeaderPart::Number))
            } else {
                Ok(
                    (
                        TargetView::Domain(
                            decode_utf8(b.subrange(2, 2 + len)),
                            be16_at(b, 2 + len) as u16,
                        ),
                        (4 + len) as nat,
                    ),
                )
            }
        }
    } else {
        Err(TargetError::UnknownAddressType(b[0]))
    }
}

fn read_v6(b: &[u8], off: usize) -> (r: Ipv6Addr)
    requires
        off + 16 <= b@.len(),
    ensures
        r == v6_at(b@, off as int),
{
    let len: usize = b.len();
    assert(off + 16 <= len);
    let s0: u16 = read_be16(b, off);
    Ipv6Addr {
        s0,
        s1: read_be16(b, off + 2),
        s2: read_be16(b, off + 4),
        s3: read_be16(b, off + 6),
        s4: read_be16(b, off + 8),
        s5: read_be16(b, off + 10),
        s6: read_be16(b, off + 12),
        s7: read_be16(b, off + 14),
    }
}

/// Reads the header at the front of `input`: the target and the bytes it took.
///
/// `Truncated(n, _)` asks for `n` bytes in all. A reader that starts with none
/// and never fetches more than asked for reads no byte behind the header.
pub fn read_target(input: &[u8]) -> (r: Result<(Target, usize), TargetError>)
    ensures
        match r {
            Ok((t, n)) => target_in(input@) == Ok::<(TargetView, nat), TargetError>((t@, n as nat)),
            Err(e) => target_in(input@) == Err::<(TargetView, nat), TargetError>(e),
        },
{
    if input.len() < 1 {
        return Err(TargetError::Truncated(1, HeaderPart::Kind));
    }
    let kind: u8 = input[0];
    if kind == 1 {
        if input.len() < 5 {
            return Err(TargetError::Truncated(5, HeaderPart::Run));
        }
        if input.len() < 7 {
            return Err(TargetError::Truncated(7, HeaderPart::Number));
        }
        let ip = Ipv4Addr { a: input[1], b: input[2], c: input[3], d: input[4] };
        let port: u16 = read_be16(input, 5);
        return Ok((Target::Addr(SocketAddr { ip: IpAddr::V4(ip), port }), 7));
    }
    if kind == 4 {
        if input.len() < 17 {
            return Err(TargetError::Truncated(17, HeaderPart::Run));
        }
        if input.len() < 19 {
            return Err(TargetError::Truncated(19, HeaderPart::Number));
        }
        let ip = read_v6(input, 1);
        let port: u16 = read_be16(input, 17);
        return Ok((Target::Addr(SocketAddr { ip: IpAddr::V6(ip), port }), 19));
    }
    if kind != 3 {
        return Err(TargetError::UnknownAddressType(kind));
    }
    if input.len() < 2 {
        return Err(TargetError::Truncated(2, HeaderPart::Number));
    }
    let len: usize = input[1] as usize;
    if input.len() < 2 + len {
        return Err(TargetError::Truncated(2 + len, HeaderPart::Run));
    }
    let name = copy_range(input, 2, 2 + len);
    match text_from_utf8(name.as_slice()) {
        Err(_) => Err(TargetError::DomainNotUtf8),
        Ok(host) => {
            if input.len() < 4 + len {
                return Err(TargetError::Truncated(4 + len, HeaderPart::Number));
            }
            let port: u16 = read_be16(input, 2 + len);
            Ok((Target::Domain(host, port), 4 + len))
        },
    }
}

proof fn lemma_v6_round_trip(ip: Ipv6Addr, before: Seq<u8>, after: Seq<u8>)
    ensures
        v6_bytes(ip).len() == 16,
        v6_at(before + v6_bytes(ip) + after, before.len() as int) == ip,
{
    reveal(v6_bytes);
    let b = before + v6_bytes(ip) + after;
    let k = before.len() as int;
    let v = v6_bytes(ip);
    assert forall|i: int| 0 <= i < 16 implies b[k + i] == #[trigger] v[i] by {}
    assert(v[0] == be16(ip.s0)[0] && v[1] == be16(ip.s0)[1]);
    assert(v[2] == be16(ip.s1)[0] && v[3] == be16(ip.s1)[1]);
    assert(v[4] == be16(ip.s2)[0] && v[5] == be16(ip.s2)[1]);
    assert(v[6] == be16(ip.s3)[0] && v[7] == be16(ip.s3)[1]);
    assert(v[8] == be16(ip.s4)[0] && v[9] == be16(ip.s4)[1]);
    assert(v[10] == be16(ip.s5)[0] && v[11] == be16(ip.s5)[1]);
    assert(v[12] == be16(ip.s6)[0] && v[13] == be16(ip.s6)[1]);
    assert(v[14] == be16(ip.s7)[0] && v[15] == be16(ip.s7)[1]);
}

proof fn lemma_v4_round_trip(ip: Ipv4Addr, port: u16, after: Seq<u8>)
    ensures
        ({
            let t = TargetView::Addr(SocketAddr { ip: IpAddr::V4(ip), port });
            target_in(target_bytes(t) + after) == Ok::<(TargetView, nat), TargetError>((t, 7nat))
                && target_bytes(t).len() == 7
        }),
{
    let t = TargetView::Addr(SocketAddr { ip: IpAddr::V4(ip), port });
    let b = target_bytes(t) + after;
    let front = seq![1u8] + ip.octets();
    lemma_be16_round_trip(port, front, after);
    assert(b =~= front + be16(port) + after);
    assert(b[0] == 1 && b[1] == ip.a && b[2] == ip.b && b[3] == ip.c && b[4] == ip.d);
}

proof fn lemma_v6_target_round_trip(ip: Ipv6Addr, port: u16, after: Seq<u8>)
    ensures
        ({
            let t = TargetView::Addr(SocketAddr { ip: IpAddr::V6(ip), port });
            target_in(target_bytes(t) + after) == Ok::<(TargetView, nat), TargetError>((t, 19nat))
                && target_bytes(t).len() == 19
        }),
{
    let t = TargetView::Addr(SocketAddr { ip: IpAddr::V6(ip), port });
    let b = target_bytes(t) + after;
    let front = seq![4u8] + v6_bytes(ip);
    lemma_v6_round_trip(ip, seq![4u8], be16(port) + after);
    assert(b =~= seq![4u8] + v6_bytes(ip) + (be16(port) + after));
    lemma_be16_round_trip(port, front, after);
    assert(b =~= front + be16(port) + after);
    assert(b[0] == 4);
}

proof fn lemma_domain_round_trip(host: Seq<char>, port: u16, after: Seq<u8>)
    requires
        encode_utf8(host).len() <= 255,
    ensures
        ({
            let t = TargetView::Domain(host, port);
            target_in(target_bytes(t) + after) == Ok::<(TargetView, nat), TargetError>(
                (t, target_bytes(t).len()),
            )
        }),
{
    let t = TargetView::Domain(host, port);
    let b = target_bytes(t) + after;
    let name = encode_utf8(host);
    let front = seq![3u8, name.len() as u8] + name;
    lemma_be16_round_trip(port, front, after);
    assert(b =~= front + be16(port) + after);
    assert(b[0] == 3 && b[1] == name.len());
    assert(b.subrange(2, 2 + name.len() as int) =~= name);
    vstd::utf8::encode_utf8_valid_utf8(host);
    vstd::utf8::encode_utf8_decode_utf8(host);
}

/// A header that was written reads back as the same target, and nothing
/// behind it is touched.
pub proof fn law_target_round_trip(t: TargetView, after: Seq<u8>)
    requires
        encodable(t),
    ensures
        target_in(target_bytes(t) + after) == Ok::<(TargetView, nat), TargetError>(
            (t, target_bytes(t).len()),
        ),
{
    match t {
        TargetView::Addr(a) => match a.ip {
            IpAddr::V4(ip) => lemma_v4_round_trip(ip, a.port, after),
            IpAddr::V6(ip) => lemma_v6_target_round_trip(ip, a.port, after),
        },
        TargetView::Domain(host, port) => lemma_domain_round_trip(host, port, after),
    }
}

/// What the handshake waits for next.
#[derive(Debug)]
pub enum Phase {
    /// Version and number of methods.
    Greeting,
    /// The offered methods.
    Methods(u8),
    /// Version, command, reserved, address type.
    Request,
    /// An IPv4 address and a port.
    AddressV4,
    /// An IPv6 address and a port.
    AddressV6,
    /// The length of a domain.
    DomainLength,
    /// A domain of this many bytes.
    DomainName(u8),
    /// The port behind this domain.
    DomainPort(String),
}

impl Phase {
    /// How many bytes the phase takes.
    pub open spec fn takes(&self) -> nat {
        match self {
            Phase::Greeting => 2,
            Phase::Methods(n) => *n as nat,
            Phase::Request => 4,
            Phase::AddressV4 => 6,
            Phase::AddressV6 => 18,
            Phase::DomainLength => 1,
            Phase::DomainName(n) => *n as nat,
            Phase::DomainPort(_) => 2,
        }
    }

    /// How many bytes to read next.
    pub fn wanted(&self) -> (r: usize)
        ensures
            r == self.takes(),
    {
        match self {
            Phase::Greeting => 2,
            Phase::Methods(n) => *n as usize,
            Phase::Request => 4,
            Phase::AddressV4 => 6,
            Phase::AddressV6 => 18,
            Phase::DomainLength => 1,
            Phase::DomainName(n) => *n as usize,
            Phase::DomainPort(_) => 2,
        }
    }

    /// What is reported where the bytes of the phase could not be read: the
    /// greeting and the request are named, other errors handed on as they are.
    pub open spec fn unread_report(&self, catalog: Map<Seq<char>, Seq<char>>, cause: Seq<char>) -> Seq<
        (Seq<char>, Option<i32>),
    > {
        match self {
            Phase::Greeting => seq![
                (looked_up(catalog, "reading SOCKS5 greeting"@), None::<i32>),
                (cause, None::<i32>),
            ],
            Phase::Request => seq![
                (looked_up(catalog, "reading SOCKS5 request"@), None::<i32>),
                (cause, None::<i32>),
            ],
            _ => seq![(cause, None::<i32>)],
        }
    }

    /// What is reported where the bytes of the phase could not be read.
    pub fn unread(&self, catalog: &Catalog, cause: String) -> (r: Error)
        ensures
            r.wf(),
            r@ == self.unread_report(catalog@, cause@),
    {
        match self {
            Phase::Greeting => exit::because(lookup(catalog, "reading SOCKS5 greeting"), cause),
            Phase::Request => exit::because(lookup(catalog, "reading SOCKS5 request"), cause),
            _ => Error::msg(cause),
        }
    }
}

/// Why a handshake was refused.
#[derive(Clone, Copy, Debug, PartialEq, Eq, Structural)]
pub enum HandshakeError {
    /// The greeting names another version.
    Version(u8),
    /// The client did not offer to go without authentication.
    NoAcceptableMethod,
    /// The request names another version.
    RequestVersion(u8),
    /// A command other than CONNECT.
    Command(u8),
    /// An address type that SOCKS5 does not have.
    AddressType(u8),
    /// The domain is not UTF-8.
    DomainNotUtf8,
}

impl HandshakeError {
    /// What is reported.
    pub open spec fn says(self, catalog: Map<Seq<char>, Seq<char>>) -> Seq<char> {
        match self {
            HandshakeError::Version(v) => said(
                catalog,
                "unsupported SOCKS version {0} (only SOCKS5 is supported)"@,
                seq![decimal_of(v as nat)],
            ),
            HandshakeError::NoAcceptableMethod => looked_up(
                catalog,
                "no acceptable SOCKS5 authentication method"@,
            ),
            HandshakeError::RequestVersion(v) => said(
                catalog,
                "bad SOCKS5 request version {0}"@,
                seq![decimal_of(v as nat)],
            ),
            HandshakeError::Command(c) => said(
                catalog,
                "only CONNECT is supported (got command {0})"@,
                seq![decimal_of(c as nat)],
            ),
            HandshakeError::AddressType(t) => said(
                catalog,
                "unsupported address type {0}"@,
                seq![decimal_of(t as nat)],
            ),
            HandshakeError::DomainNotUtf8 => looked_up(
                catalog,
                "non-utf8 domain in SOCKS5 request"@,
            ),
        }
    }

    /// What is reported.
    pub fn message(&self, catalog: &Catalog) -> (r: String)
        ensures
            r@ == self.says(catalog@),
    {
        match self {
            HandshakeError::Version(v) => say1(
                catalog,
                "unsupported SOCKS version {0} (only SOCKS5 is supported)",
                decimal(*v as u64),
            ),
            HandshakeError::NoAcceptableMethod => lookup(
                catalog,
                "no acceptable SOCKS5 authentication method",
            ),
            HandshakeError::RequestVersion(v) => say1(
                catalog,
                "bad SOCKS5 request version {0}",
                decimal(*v as u64),
            ),
            HandshakeError::Command(c) => say1(
                catalog,
                "only CONNECT is supported (got command {0})",
                decimal(*c as u64),
            ),
            HandshakeError::AddressType(t) => say1(
                catalog,
                "unsupported address type {0}",
                decimal(*t as u64),
            ),
            HandshakeError::DomainNotUtf8 => lookup(catalog, "non-utf8 domain in SOCKS5 request"),
        }
    }

    /// What is reported of the bytes that were refused: a domain that is not
    /// UTF-8 is reported with what is wrong with it.
    pub open spec fn report(self, catalog: Map<Seq<char>, Seq<char>>, chunk: Seq<u8>) -> Seq<
        (Seq<char>, Option<i32>),
    > {
        if self is DomainNotUtf8 {
            utf8_report(self.says(catalog), chunk)
        } else {
            seq![(self.says(catalog), None::<i32>)]
        }
    }

    /// What is reported of the bytes that were refused.
    pub fn error(&self, catalog: &Catalog, chunk: &[u8]) -> (r: Error)
        ensures
            r.wf(),
            r@ == self.report(catalog@, chunk@),
    {
        let message = self.message(catalog);
        if matches!(self, HandshakeError::DomainNotUtf8) {
            utf8_error(message, chunk)
        } else {
            Error::msg(message)
        }
    }

    /// What is reported where the reply to the client could not be sent
    /// either: that, where it would have been the choice of a method, and
    /// otherwise why the handshake was refused.
    pub fn unsent(&self, catalog: &Catalog, chunk: &[u8], cause: String) -> (r: Error)
        ensures
            r.wf(),
            r@ == (if *self is NoAcceptableMethod {
                seq![
                    (looked_up(catalog@, "sending SOCKS5 method selection"@), None::<i32>),
                    (cause@, None::<i32>),
                ]
            } else {
                self.report(catalog@, chunk@)
            }),
    {
        match self {
            HandshakeError::NoAcceptableMethod => exit::because(
                lookup(catalog, "sending SOCKS5 method selection"),
                cause,
            ),
            _ => self.error(catalog, chunk),
        }
    }
}

/// What to do after a phase: send `reply`, then go on, pipe, or give up.
#[derive(Debug)]
pub enum Step {
    Continue(Vec<u8>, Phase),
    Done(Vec<u8>, Target),
    Refused(Vec<u8>, HandshakeError),
}

/// The phase that a specification step leads to.
pub enum PhaseView {
    Greeting,
    Methods(u8),
    Request,
    AddressV4,
    AddressV6,
    DomainLength,
    DomainName(u8),
    DomainPort(Seq<char>),
}

impl View for Phase {
    type V = PhaseView;

    open spec fn view(&self) -> PhaseView {
        match self {
            Phase::Greeting => PhaseView::Greeting,
            Phase::Methods(n) => PhaseView::Methods(*n),
            Phase::Request => PhaseView::Request,
            Phase::AddressV4 => PhaseView::AddressV4,
            Phase::AddressV6 => PhaseView::AddressV6,
            Phase::DomainLength => PhaseView::DomainLength,
            Phase::DomainName(n) => PhaseView::DomainName(*n),
            Phase::DomainPort(h) => PhaseView::DomainPort(h@),
        }
    }
}

/// A step as a value of the specification.
pub enum StepView {
    Continue(Seq<u8>, PhaseView),
    Done(Seq<u8>, TargetView),
    Refused(Seq<u8>, HandshakeError),
}

impl View for Step {
    type V = StepView;

    open spec fn view(&self) -> StepView {
        match self {
            Step::Continue(reply, next) => StepView::Continue(reply@, next@),
            Step::Done(reply, t) => StepView::Done(reply@, t@),
            Step::Refused(reply, e) => StepView::Refused(reply@, *e),
        }
    }
}

/// A reply to the request: `code`, bound to `0.0.0.0:0`.
pub open spec fn reply_bytes(code: u8) -> Seq<u8> {
    seq![5u8, code, 0, 1, 0, 0, 0, 0, 0, 0]
}

/// How many bytes a phase takes.
pub open spec fn phase_takes(phase: PhaseView) -> nat {
    match phase {
        PhaseView::Greeting => 2,
        PhaseView::Methods(n) => n as nat,
        PhaseView::Request => 4,
        PhaseView::AddressV4 => 6,
        PhaseView::AddressV6 => 18,
        PhaseView::DomainLength => 1,
        PhaseView::DomainName(n) => n as nat,
        PhaseView::DomainPort(_) => 2,
    }
}

/// What the server does when a phase has received `chunk`.
pub open spec fn step_of(phase: PhaseView, chunk: Seq<u8>) -> StepView {
    let nothing = Seq::<u8>::empty();
    match phase {
        PhaseView::Greeting => if chunk[0] != 5 {
            StepView::Refused(nothing, HandshakeError::Version(chunk[0]))
        } else {
            StepView::Continue(nothing, PhaseView::Methods(chunk[1]))
        },
        PhaseView::Methods(_) => if chunk.contains(0) {
            StepView::Continue(seq![5u8, 0], PhaseView::Request)
        } else {
            StepView::Refused(seq![5u8, 0xff], HandshakeError::NoAcceptableMethod)
        },
        PhaseView::Request => if chunk[0] != 5 {
            StepView::Refused(nothing, HandshakeError::RequestVersion(chunk[0]))
        } else if chunk[1] != 1 {
            StepView::Refused(reply_bytes(7), HandshakeError::Command(chunk[1]))
        } else if chunk[3] == 1 {
            StepView::Continue(nothing, PhaseView::AddressV4)
        } else if chunk[3] == 4 {
            StepView::Continue(nothing, PhaseView::AddressV6)
        } else if chunk[3] == 3 {
            StepView::Continue(nothing, PhaseView::DomainLength)
        } else {
            StepView::Refused(reply_bytes(8), HandshakeError::AddressType(chunk[3]))
        },
        PhaseView::AddressV4 => StepView::Done(
            reply_bytes(0),
            TargetView::Addr(
                SocketAddr { ip: IpAddr::V4(v4_at(chunk, 0)), port: be16_at(chunk, 4) as u16 },
            ),
        ),
        PhaseView::AddressV6 => StepView::Done(
            reply_bytes(0),
            TargetView::Addr(
                SocketAddr { ip: IpAddr::V6(v6_at(chunk, 0)), port: be16_at(chunk, 16) as u16 },
            ),
        ),
        PhaseView::DomainLength => StepView::Continue(nothing, PhaseView::DomainName(chunk[0])),
        PhaseView::DomainName(_) => if valid_utf8(chunk) {
            StepView::Continue(nothing, PhaseView::DomainPort(decode_utf8(chunk)))
        } else {
            StepView::Refused(nothing, HandshakeError::DomainNotUtf8)
        },
        PhaseView::DomainPort(host) => StepView::Done(
            reply_bytes(0),
            TargetView::Domain(host, be16_at(chunk, 0) as u16),
        ),
    }
}

fn reply(code: u8) -> (r: Vec<u8>)
    ensures
        r@ == reply_bytes(code),
{
    let mut out: Vec<u8> = Vec::new();
    out.push(5);
    out.push(code);
    out.push(0);
    out.push(1);
    out.push(0);
    out.push(0);
    out.push(0);
    out.push(0);
    out.push(0);
    out.push(0);
    proof {
        assert(out@ =~= reply_bytes(code));
    }
    out
}

fn method_reply(method: u8) -> (r: Vec<u8>)
    ensures
        r@ == seq![5u8, method],
{
    let mut out: Vec<u8> = Vec::new();
    out.push(5);
    out.push(method);
    proof {
        assert(out@ =~= seq![5u8, method]);
    }
    out
}

fn no_reply() -> (r: Vec<u8>)
    ensures
        r@ == Seq::<u8>::empty(),
{
    Vec::new()
}

fn offers_no_auth(methods: &[u8]) -> (r: bool)
    ensures
        r == methods@.contains(0),
{
    let mut i: usize = 0;
    while i < methods.len()
        invariant
            i <= methods@.len(),
            forall|j: int| 0 <= j < i ==> methods@[j] != 0,
        decreases methods@.len() - i,
    {
        if methods[i] == 0 {
            return true;
        }
        i = i + 1;
    }
    false
}

/// One step of the server's handshake: given a phase and the bytes that it
/// asked for, what to send and what comes next.
///
/// A client that does not offer to go without authentication, asks for
/// something other than CONNECT, or uses an unknown address type is told so
/// before it is refused.
pub fn accept_handshake(phase: Phase, chunk: &[u8]) -> (r: Step)
    requires
        chunk@.len() == phase.takes(),
    ensures
        r@ == step_of(phase@, chunk@),
{
    match phase {
        Phase::Greeting => {
            if chunk[0] != 5 {
                Step::Refused(no_reply(), HandshakeError::Version(chunk[0]))
            } else {
                Step::Continue(no_reply(), Phase::Methods(chunk[1]))
            }
        },
        Phase::Methods(_) => {
            if offers_no_auth(chunk) {
                Step::Continue(method_reply(0), Phase::Request)
            } else {
                Step::Refused(method_reply(0xff), HandshakeError::NoAcceptableMethod)
            }
        },
        Phase::Request => {
            if chunk[0] != 5 {
                Step::Refused(no_reply(), HandshakeError::RequestVersion(chunk[0]))
            } else if chunk[1] != 1 {
                Step::Refused(reply(7), HandshakeError::Command(chunk[1]))
            } else if chunk[3] == 1 {
                Step::Continue(no_reply(), Phase::AddressV4)
            } else if chunk[3] == 4 {
                Step::Continue(no_reply(), Phase::AddressV6)
            } else if chunk[3] == 3 {
                Step::Continue(no_reply(), Phase::DomainLength)
            } else {
                Step::Refused(reply(8), HandshakeError::AddressType(chunk[3]))
            }
        },
        Phase::AddressV4 => {
            let ip = Ipv4Addr { a: chunk[0], b: chunk[1], c: chunk[2], d: chunk[3] };
            let port: u16 = read_be16(chunk, 4);
            Step::Done(reply(0), Target::Addr(SocketAddr { ip: IpAddr::V4(ip), port }))
        },
        Phase::AddressV6 => {
            let ip = read_v6(chunk, 0);
            let port: u16 = read_be16(chunk, 16);
            Step::Done(reply(0), Target::Addr(SocketAddr { ip: IpAddr::V6(ip), port }))
        },
        Phase::DomainLength => Step::Continue(no_reply(), Phase::DomainName(chunk[0])),
        Phase::DomainName(_) => match text_from_utf8(chunk) {
            Ok(host) => Step::Continue(no_reply(), Phase::DomainPort(host)),
            Err(_) => Step::Refused(no_reply(), HandshakeError::DomainNotUtf8),
        },
        Phase::DomainPort(host) => {
            let port: u16 = read_be16(chunk, 0);
            Step::Done(reply(0), Target::Domain(host, port))
        },
    }
}

/// How a conversation ends: what the server has sent, and the target, the
/// refusal, or `None` while it waits for more.
pub struct Conversation {
    pub sent: Seq<u8>,
    pub outcome: Option<Result<TargetView, HandshakeError>>,
}

/// The server's side of the conversation when the client sends `input`.
pub open spec fn conversation(phase: PhaseView, input: Seq<u8>, fuel: nat) -> Conversation
    decreases fuel,
{
    let n = phase_takes(phase) as int;
    if fuel == 0 || input.len() < n {
        Conversation { sent: Seq::empty(), outcome: None }
    } else {
        match step_of(phase, input.take(n)) {
            StepView::Continue(reply, next) => {
                let rest = conversation(next, input.skip(n), (fuel - 1) as nat);
                Conversation { sent: reply + rest.sent, outcome: rest.outcome }
            },
            StepView::Done(reply, t) => Conversation { sent: reply, outcome: Some(Ok(t)) },
            StepView::Refused(reply, e) => Conversation { sent: reply, outcome: Some(Err(e)) },
        }
    }
}

/// The most steps that a handshake has.
pub open spec fn max_steps() -> nat {
    6
}

proof fn lemma_v4_body(ip: Ipv4Addr, port: u16, fuel: nat)
    requires
        fuel > 0,
    ensures
        conversation(PhaseView::AddressV4, ip.octets() + be16(port), fuel) == (Conversation {
            sent: reply_bytes(0),
            outcome: Some(Ok(TargetView::Addr(SocketAddr { ip: IpAddr::V4(ip), port }))),
        }),
{
    let body = ip.octets() + be16(port);
    assert(body.take(6) =~= body);
    assert(body[0] == ip.a && body[1] == ip.b && body[2] == ip.c && body[3] == ip.d);
    lemma_be16_round_trip(port, ip.octets(), Seq::empty());
    assert(ip.octets() + be16(port) + Seq::<u8>::empty() =~= body);
}

proof fn lemma_v6_body(ip: Ipv6Addr, port: u16, fuel: nat)
    requires
        fuel > 0,
    ensures
        conversation(PhaseView::AddressV6, v6_bytes(ip) + be16(port), fuel) == (Conversation {
            sent: reply_bytes(0),
            outcome: Some(Ok(TargetView::Addr(SocketAddr { ip: IpAddr::V6(ip), port }))),
        }),
{
    let body = v6_bytes(ip) + be16(port);
    lemma_v6_round_trip(ip, Seq::empty(), be16(port));
    assert(body.take(18) =~= body);
    assert(Seq::<u8>::empty() + v6_bytes(ip) + be16(port) =~= body);
    lemma_be16_round_trip(port, v6_bytes(ip), Seq::empty());
    assert(v6_bytes(ip) + be16(port) + Seq::<u8>::empty() =~= body);
}

proof fn lemma_domain_body(host: Seq<char>, port: u16, fuel: nat)
    requires
        encode_utf8(host).len() <= 255,
        fuel > 2,
    ensures
        conversation(
            PhaseView::DomainLength,
            seq![encode_utf8(host).len() as u8] + encode_utf8(host) + be16(port),
            fuel,
        ) == (Conversation {
            sent: reply_bytes(0),
            outcome: Some(Ok(TargetView::Domain(host, port))),
        }),
{
    let name = encode_utf8(host);
    let body = seq![name.len() as u8] + name + be16(port);
    let after_len = name + be16(port);
    assert(body.take(1) =~= seq![name.len() as u8]);
    assert(body.skip(1) =~= after_len);
    assert(after_len.take(name.len() as int) =~= name);
    assert(after_len.skip(name.len() as int) =~= be16(port));
    assert(be16(port).take(2) =~= be16(port));
    vstd::utf8::encode_utf8_valid_utf8(host);
    vstd::utf8::encode_utf8_decode_utf8(host);
    lemma_be16_round_trip(port, Seq::empty(), Seq::empty());
    assert(Seq::<u8>::empty() + be16(port) + Seq::<u8>::empty() =~= be16(port));
    reveal_with_fuel(conversation, 4);
    assert(Seq::<u8>::empty() + (Seq::<u8>::empty() + reply_bytes(0)) =~= reply_bytes(0));
}

/// A client that offers to go without authentication and asks to connect to a
/// target gets both success replies, and the server learns that target.
#[verifier::rlimit(60)]
pub proof fn law_connect_request_is_served(methods: Seq<u8>, reserved: u8, t: TargetView)
    requires
        0 < methods.len() <= 255,
        methods.contains(0),
        encodable(t),
    ensures
        ({
            let input = seq![5u8, methods.len() as u8] + methods + seq![5u8, 1, reserved]
                + target_bytes(t);
            let c = conversation(PhaseView::Greeting, input, max_steps());
            c.outcome == Some(Ok::<TargetView, HandshakeError>(t)) && c.sent == seq![5u8, 0]
                + reply_bytes(0)
        }),
{
    let input = seq![5u8, methods.len() as u8] + methods + seq![5u8, 1, reserved] + target_bytes(t);
    let kind = target_bytes(t)[0];
    let body = target_bytes(t).skip(1);
    let next = match t {
        TargetView::Addr(a) => match a.ip {
            IpAddr::V4(_) => PhaseView::AddressV4,
            IpAddr::V6(_) => PhaseView::AddressV6,
        },
        TargetView::Domain(_, _) => PhaseView::DomainLength,
    };
    let after_greeting = methods + seq![5u8, 1, reserved] + target_bytes(t);
    let after_methods = seq![5u8, 1, reserved] + target_bytes(t);
    assert(input.take(2) =~= seq![5u8, methods.len() as u8]);
    assert(input.skip(2) =~= after_greeting);
    assert(after_greeting.take(methods.len() as int) =~= methods);
    assert(after_greeting.skip(methods.len() as int) =~= after_methods);
    assert(after_methods.take(4) =~= seq![5u8, 1, reserved, kind]);
    assert(after_methods.skip(4) =~= body);
    match t {
        TargetView::Addr(a) => match a.ip {
            IpAddr::V4(ip) => {
                assert(body =~= ip.octets() + be16(a.port));
                lemma_v4_body(ip, a.port, 3);
            },
            IpAddr::V6(ip) => {
                assert(body =~= v6_bytes(ip) + be16(a.port));
                lemma_v6_body(ip, a.port, 3);
            },
        },
        TargetView::Domain(host, port) => {
            let name = encode_utf8(host);
            assert(body =~= seq![name.len() as u8] + name + be16(port));
            lemma_domain_body(host, port, 3);
        },
    }
    let c3 = conversation(next, body, 3);
    let c2 = conversation(PhaseView::Request, after_methods, 4);
    assert(c2.outcome == c3.outcome && c2.sent =~= c3.sent);
    let c1 = conversation(PhaseView::Methods(methods.len() as u8), after_greeting, 5);
    assert(c1.outcome == c3.outcome && c1.sent =~= seq![5u8, 0] + c3.sent);
    let c = conversation(PhaseView::Greeting, input, 6);
    assert(c.outcome == c3.outcome && c.sent =~= seq![5u8, 0] + c3.sent);
}

/// A client that does not offer to go without authentication is answered
/// `05 FF` and refused.
pub proof fn law_missing_method_is_answered(methods: Seq<u8>, after: Seq<u8>)
    requires
        methods.len() <= 255,
        !methods.contains(0),
    ensures
        ({
            let c = conversation(
                PhaseView::Greeting,
                seq![5u8, methods.len() as u8] + methods + after,
                max_steps(),
            );
            c.outcome == Some(
                Err::<TargetView, HandshakeError>(HandshakeError::NoAcceptableMethod),
            ) && c.sent == seq![5u8, 0xff]
        }),
{
    let input = seq![5u8, methods.len() as u8] + methods + after;
    assert(input.take(2) =~= seq![5u8, methods.len() as u8]);
    assert(input.skip(2) =~= methods + after);
    assert((methods + after).take(methods.len() as int) =~= methods);
    reveal_with_fuel(conversation, 3);
    let c = conversation(PhaseView::Greeting, input, max_steps());
    assert(c.sent =~= seq![5u8, 0xff]);
}

/// A command other than CONNECT is answered with code 7, an unknown address
/// type with code 8, and both are refused.
pub proof fn law_unsupported_requests_are_answered(
    methods: Seq<u8>,
    command: u8,
    reserved: u8,
    kind: u8,
    after: Seq<u8>,
)
    requires
        0 < methods.len() <= 255,
        methods.contains(0),
        command != 1 || (kind != 1 && kind != 3 && kind != 4),
    ensures
        ({
            let input = seq![5u8, methods.len() as u8] + methods + seq![5u8, command, reserved, kind]
                + after;
            let c = conversation(PhaseView::Greeting, input, max_steps());
            if command != 1 {
                c.outcome == Some(
                    Err::<TargetView, HandshakeError>(HandshakeError::Command(command)),
                ) && c.sent == seq![5u8, 0] + reply_bytes(7)
            } else {
                c.outcome == Some(
                    Err::<TargetView, HandshakeError>(HandshakeError::AddressType(kind)),
                ) && c.sent == seq![5u8, 0] + reply_bytes(8)
            }
        }),
{
    let request = seq![5u8, command, reserved, kind];
    let input = seq![5u8, methods.len() as u8] + methods + request + after;
    assert(input.take(2) =~= seq![5u8, methods.len() as u8]);
    assert(input.skip(2) =~= methods + request + after);
    assert((methods + request + after).take(methods.len() as int) =~= methods);
    assert((methods + request + after).skip(methods.len() as int) =~= request + after);
    assert((request + after).take(4) =~= request);
    reveal_with_fuel(conversation, 4);
    let c = conversation(PhaseView::Greeting, input, max_steps());
    assert(c.sent =~= seq![5u8, 0] + reply_bytes(if command != 1 {
        7u8
    } else {
        8u8
    }));
}

/// A header names the target that its bytes write: type 1 is followed by four
/// octets, type 4 by eight segments, type 3 by a length and so many bytes of
/// UTF-8, and each by a port, high byte first. Every other type is refused, and
/// so is what ends before.
pub proof fn law_headers_name_their_target(
    input: &[u8],
    host: Seq<char>,
    k: int,
    r: Result<(Target, usize), TargetError>,
)
    requires
        call_ensures(read_target, (input,), r),
    ensures
        ({
            let b = input@;
            &&& b.len() >= 7 && b[0] == 1 ==> r is Ok && r->Ok_0.1 == 7 && (
            r->Ok_0.0@ matches TargetView::Addr(at) && at.port == b[5] * 256 + b[6] && (
            at.ip matches IpAddr::V4(ip) && ip.octets() == b.subrange(1, 5)))
            &&& b.len() >= 19 && b[0] == 4 ==> r is Ok && r->Ok_0.1 == 19 && (
            r->Ok_0.0@ matches TargetView::Addr(at) && at.port == b[17] * 256 + b[18] && (
            at.ip matches IpAddr::V6(ip) && (0 <= k < 8 ==> ip.segments()[k] == b[1 + 2 * k] * 256
                + b[2 + 2 * k])))
            &&& b.len() >= 2 && b[0] == 3 && b.len() >= 4 + b[1] && b.subrange(2, 2 + b[1] as int)
                == encode_utf8(host) ==> r is Ok && r->Ok_0.1 == 4 + b[1] && (
            r->Ok_0.0@ matches TargetView::Domain(h, p) && h == host && p == b[2 + b[1] as int]
                * 256 + b[3 + b[1] as int])
            &&& b.len() >= 1 && b[0] != 1 && b[0] != 3 && b[0] != 4 ==> r == Err::<
                (Target, usize),
                TargetError,
            >(TargetError::UnknownAddressType(b[0]))
            &&& b.len() == 0 || (b[0] == 1 && b.len() < 7) || (b[0] == 4 && b.len() < 19) || (b[0]
                == 3 && (b.len() < 2 || b.len() < 4 + b[1])) ==> r is Err
        }),
{
    let b = input@;
    if b.len() >= 7 && b[0] == 1 {
        assert(v4_at(b, 1).octets() =~= b.subrange(1, 5));
    }
    if b.len() >= 2 && b[0] == 3 && b.len() >= 4 + b[1] && b.subrange(2, 2 + b[1] as int)
        == encode_utf8(host) {
        vstd::utf8::encode_utf8_valid_utf8(host);
        vstd::utf8::encode_utf8_decode_utf8(host);
    }
}

/// A client is asked for its methods after the greeting of version 5 and
/// served where no authentication, method 0, is among them, at whatever place;
/// other greetings get no reply, and other clients `05 FF`.
pub proof fn law_greeting_and_methods(
    greeting: &[u8],
    methods: &[u8],
    n: u8,
    first: Step,
    second: Step,
)
    requires
        greeting@.len() == 2,
        methods@.len() == n,
        call_ensures(accept_handshake, (Phase::Greeting, greeting), first),
        call_ensures(accept_handshake, (Phase::Methods(n), methods), second),
    ensures
        greeting@[0] == 5 ==> first@ == StepView::Continue(
            Seq::empty(),
            PhaseView::Methods(greeting@[1]),
        ),
        greeting@[0] != 5 ==> first@ == StepView::Refused(
            Seq::empty(),
            HandshakeError::Version(greeting@[0]),
        ),
        (exists|i: int| 0 <= i < methods@.len() && #[trigger] methods@[i] == 0) ==> second@
            == StepView::Continue(seq![5u8, 0], PhaseView::Request),
        (forall|i: int| 0 <= i < methods@.len() ==> #[trigger] methods@[i] != 0) ==> second@
            == StepView::Refused(seq![5u8, 255], HandshakeError::NoAcceptableMethod),
{
}

/// Where a target is an address, what is dialed is that address, whatever was
/// looked up; where it is a domain, the first address that the resolver gave,
/// and an error where it gave none.
pub proof fn law_target_is_dialed_where_it_says(
    catalog: Catalog,
    target: Target,
    found: Lookup,
    r: Result<SocketAddr, Error>,
)
    requires
        call_ensures(Target::resolve, (&target, &catalog, found), r),
    ensures
        target matches Target::Addr(a) ==> r == Ok::<SocketAddr, Error>(a),
        target is Domain ==> (r is Ok <==> found is Found && found->Found_0@.len() > 0),
        target is Domain && r is Ok ==> r->Ok_0 == found->Found_0@[0],
{
}

} // verus!
