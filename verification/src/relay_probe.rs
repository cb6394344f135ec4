//! Ordering relays by how fast they answered, and the address that a relay
//! URL is probed at.

use vstd::prelude::*;
use crate::order::{arranged, is_key_order, key_order, latency_rank, rank_latency};
use crate::text::{
    all_digits, chars_of, has_prefix, is_digit, number_of, parse_number, split, split_of,
    starts_with, string_of, texts,
};

verus! {

/// How long one probe may take, in seconds.
pub const PROBE_TIMEOUT_SECS: u64 = 2;

/// The outcome of probing one relay.
#[derive(Debug)]
pub struct Probe {
    /// Position of the URL in the list that was probed.
    pub index: usize,
    pub url: String,
    /// Nanoseconds until the connection stood; `None` where it did not.
    pub rtt_nanos: Option<u64>,
}

/// What a probe is ranked by.
pub open spec fn probe_key(p: Probe) -> (u128, u64) {
    (latency_rank(p.rtt_nanos), p.index as u64)
}

/// The keys of a list of probes.
pub open spec fn probe_keys(probes: Seq<Probe>) -> Seq<(u128, u64)> {
    probes.map_values(|p: Probe| probe_key(p))
}

/// The URLs of a list of probes.
pub open spec fn probe_urls(probes: Seq<Probe>) -> Seq<Seq<char>> {
    probes.map_values(|p: Probe| p.url@)
}

/// The probed relays, fastest first; those that did not answer come last, in
/// the order they were listed.
pub fn order_by_connect_latency(probes: &Vec<Probe>) -> (r: Vec<String>)
    ensures
        exists|order: Seq<usize>|
            #[trigger] is_key_order(order, probe_keys(probes@)) && texts(r@) == arranged(
                probe_urls(probes@),
                order,
            ),
{
    let mut keys: Vec<(u128, u64)> = Vec::new();
    let mut i: usize = 0;
    while i < probes.len()
        invariant
            i <= probes@.len(),
            keys@.len() == i,
            forall|j: int| 0 <= j < i ==> #[trigger] keys@[j] == probe_key(probes@[j]),
        decreases probes@.len() - i,
    {
        let rank: u128 = rank_latency(probes[i].rtt_nanos);
        keys.push((rank, probes[i].index as u64));
        i = i + 1;
    }
    proof {
        assert(keys@ =~= probe_keys(probes@));
    }
    let order = key_order(&keys);
    let mut out: Vec<String> = Vec::new();
    let mut k: usize = 0;
    while k < order.len()
        invariant
            k <= order@.len(),
            is_key_order(order@, probe_keys(probes@)),
            out@.len() == k,
            forall|j: int| 0 <= j < k ==> (#[trigger] out@[j])@ == probes@[order@[j] as int].url@,
        decreases order@.len() - k,
    {
        out.push(probes[order[k]].url.clone());
        k = k + 1;
    }
    proof {
        assert(texts(out@) =~= arranged(probe_urls(probes@), order@));
        assert(is_key_order(order@, probe_keys(probes@)));
    }
    out
}

/// Faster relays come first, and the relays that did not answer come last, in
/// the order of their positions.
pub proof fn law_dead_relays_come_last(probes: Seq<Probe>, order: Seq<usize>, i: int, j: int)
    requires
        is_key_order(order, probe_keys(probes)),
        0 <= i < j < order.len(),
    ensures
        match (probes[order[i] as int].rtt_nanos, probes[order[j] as int].rtt_nanos) {
            (Some(a), Some(b)) => a <= b,
            (Some(_), None) => true,
            (None, Some(_)) => false,
            (None, None) => probes[order[i] as int].index <= probes[order[j] as int].index,
        },
{
    let a = order[i] as int;
    let b = order[j] as int;
    assert(crate::order::comes_before(probe_keys(probes), a, b));
    assert(probe_keys(probes)[a] == probe_key(probes[a]));
    assert(probe_keys(probes)[b] == probe_key(probes[b]));
}

/// Position of the first `://` in `s` from `i` on.
pub open spec fn scheme_end(s: Seq<char>, i: int) -> Option<int>
    decreases s.len() - i,
{
    if i + 3 > s.len() {
        None
    } else if s[i] == ':' && s[i + 1] == '/' && s[i + 2] == '/' {
        Some(i)
    } else {
        scheme_end(s, i + 1)
    }
}

/// A URL from behind `://`, or all of it where it has none.
pub open spec fn after_scheme(url: Seq<char>) -> Seq<char> {
    match scheme_end(url, 0) {
        Some(i) => url.skip(i + 3),
        None => url,
    }
}

/// Position of the last `c` in the first `k` characters of `s`.
pub open spec fn last_at(s: Seq<char>, c: char, k: int) -> Option<int>
    decreases k,
{
    if k <= 0 {
        None
    } else if s[k - 1] == c {
        Some(k - 1)
    } else {
        last_at(s, c, k - 1)
    }
}

/// Position of the first `c` in `s` from `i` on.
pub open spec fn first_at(s: Seq<char>, c: char, i: int) -> Option<int>
    decreases s.len() - i,
{
    if i >= s.len() {
        None
    } else if s[i] == c {
        Some(i)
    } else {
        first_at(s, c, i + 1)
    }
}

/// The port that a text writes: decimal digits, at most one `+` before them,
/// up to 65535.
pub open spec fn port_of(s: Seq<char>) -> Option<u16> {
    let digits = if s.len() > 0 && s[0] == '+' {
        s.skip(1)
    } else {
        s
    };
    if digits.len() > 0 && all_digits(digits) && number_of(digits) <= 65535 {
        Some(number_of(digits) as u16)
    } else {
        None
    }
}

/// `port_of`, or `default` where the text is no port.
pub open spec fn port_or(s: Seq<char>, default: u16) -> u16 {
    match port_of(s) {
        Some(p) => p,
        None => default,
    }
}

/// The part of a URL that names host and port.
pub open spec fn authority(url: Seq<char>) -> Seq<char> {
    split_of(split_of(after_scheme(url), '/')[0], '?')[0]
}

/// 443 for `https` URLs, else 80.
pub open spec fn default_port(url: Seq<char>) -> u16 {
    if starts_with(url, "https"@) {
        443
    } else {
        80
    }
}

/// Host and port of a URL: `scheme://host:port/...`, the host in brackets
/// where it is an IPv6 address. `None` where a bracket is left open.
pub open spec fn host_port_of(url: Seq<char>) -> Option<(Seq<char>, u16)> {
    let hp = authority(url);
    let default = default_port(url);
    if hp.len() > 0 && hp[0] == '[' {
        match first_at(hp, ']', 0) {
            None => None,
            Some(end) => Some(
                (
                    hp.subrange(1, end),
                    if end + 1 < hp.len() && hp[end + 1] == ':' {
                        port_or(hp.skip(end + 2), default)
                    } else {
                        default
                    },
                ),
            ),
        }
    } else {
        match last_at(hp, ':', hp.len() as int) {
            Some(i) => Some((hp.take(i), port_or(hp.skip(i + 1), default))),
            None => Some((hp, default)),
        }
    }
}

/// The port that `v[from..]` writes, or `default`.
fn parse_port(v: &Vec<char>, from: usize, default: u16) -> (r: u16)
    requires
        from <= v@.len(),
    ensures
        r == port_or(v@.skip(from as int), default),
{
    let ghost s = v@.skip(from as int);
    let len: usize = v.len();
    let start: usize = if from < len && v[from] == '+' {
        from + 1
    } else {
        from
    };
    let ghost digits = if s.len() > 0 && s[0] == '+' {
        s.skip(1)
    } else {
        s
    };
    proof {
        assert(digits =~= v@.skip(start as int));
        assert(v@.subrange(start as int, len as int) =~= digits);
    }
    if start >= len {
        return default;
    }
    let mut i: usize = start;
    while i < len
        invariant
            start <= i <= len == v@.len(),
            s == v@.skip(from as int),
            digits == v@.skip(start as int),
            digits == (if s.len() > 0 && s[0] == '+' {
                s.skip(1)
            } else {
                s
            }),
            forall|j: int| start <= j < i ==> is_digit(#[trigger] v@[j]),
        decreases len - i,
    {
        if !('0' <= v[i] && v[i] <= '9') {
            proof {
                assert(digits[i - start] == v@[i as int]);
                assert(!is_digit(digits[i - start]));
            }
            return default;
        }
        i = i + 1;
    }
    proof {
        assert forall|j: int| 0 <= j < digits.len() implies is_digit(#[trigger] digits[j]) by {
            assert(is_digit(v@[start + j]));
        }
    }
    match parse_number(v, start, len) {
        Some(n) => {
            if n <= 65535 {
                n as u16
            } else {
                default
            }
        },
        None => default,
    }
}

fn find_scheme_end(v: &Vec<char>) -> (r: Option<usize>)
    ensures
        match r {
            Some(i) => scheme_end(v@, 0) == Some(i as int) && i + 3 <= v@.len(),
            None => scheme_end(v@, 0) is None,
        },
{
    let len: usize = v.len();
    let mut i: usize = 0;
    while i < len && len - i >= 3
        invariant
            i <= len == v@.len(),
            scheme_end(v@, 0) == scheme_end(v@, i as int),
        decreases len - i,
    {
        if v[i] == ':' && v[i + 1] == '/' && v[i + 2] == '/' {
            return Some(i);
        }
        i = i + 1;
    }
    None
}

fn find_first(v: &Vec<char>, c: char) -> (r: Option<usize>)
    ensures
        match r {
            Some(i) => first_at(v@, c, 0) == Some(i as int) && i < v@.len() && v@[i as int] == c,
            None => first_at(v@, c, 0) is None,
        },
{
    let mut i: usize = 0;
    while i < v.len()
        invariant
            i <= v@.len(),
            first_at(v@, c, 0) == first_at(v@, c, i as int),
        decreases v@.len() - i,
    {
        if v[i] == c {
            return Some(i);
        }
        i = i + 1;
    }
    None
}

fn find_last(v: &Vec<char>, c: char) -> (r: Option<usize>)
    ensures
        match r {
            Some(i) => last_at(v@, c, v@.len() as int) == Some(i as int) && i < v@.len(),
            None => last_at(v@, c, v@.len() as int) is None,
        },
{
    let mut k: usize = v.len();
    while k > 0
        invariant
            k <= v@.len(),
            last_at(v@, c, v@.len() as int) == last_at(v@, c, k as int),
        decreases k,
    {
        if v[k - 1] == c {
            return Some(k - 1);
        }
        k = k - 1;
    }
    None
}

fn first_piece(s: &str, sep: char) -> (r: String)
    ensures
        r@ == split_of(s@, sep)[0],
{
    let pieces = split(s, sep);
    proof {
        crate::text::lemma_split_nonempty(s@, sep);
        assert(texts(pieces@).len() == pieces@.len());
        assert(texts(pieces@)[0] == pieces@[0]@);
    }
    pieces[0].clone()
}

/// Host and port that a relay URL is probed at.
pub fn host_port(url: &str) -> (r: Option<(String, u16)>)
    ensures
        match r {
            Some((host, port)) => host_port_of(url@) == Some((host@, port)),
            None => host_port_of(url@) is None,
        },
{
    let v = chars_of(url);
    let size: usize = v.len();
    let rest = match find_scheme_end(&v) {
        Some(i) => {
            let rest = string_of(&v, i + 3, size);
            proof {
                assert(v@.subrange(i + 3, v@.len() as int) =~= v@.skip(i + 3));
            }
            rest
        },
        None => url.to_owned(),
    };
    let hp_text = first_piece(first_piece(rest.as_str(), '/').as_str(), '?');
    let hp = chars_of(hp_text.as_str());
    let https = chars_of("https");
    let default: u16 = if has_prefix(&v, &https) {
        443
    } else {
        80
    };
    let len: usize = hp.len();
    if len > 0 && hp[0] == '[' {
        match find_first(&hp, ']') {
            None => None,
            Some(end) => {
                let host = string_of(&hp, 1, end);
                let port: u16 = if end + 1 < len && hp[end + 1] == ':' {
                    parse_port(&hp, end + 2, default)
                } else {
                    default
                };
                Some((host, port))
            },
        }
    } else {
        match find_last(&hp, ':') {
            Some(i) => {
                let host = string_of(&hp, 0, i);
                proof {
                    assert(hp@.subrange(0, i as int) =~= hp@.take(i as int));
                }
                Some((host, parse_port(&hp, i + 1, default)))
            },
            None => Some((hp_text, default)),
        }
    }
}

proof fn lemma_split_plain(a: Seq<char>, sep: char)
    requires
        !a.contains(sep),
    ensures
        split_of(a, sep) == seq![a],
    decreases a.len(),
{
    if a.len() > 0 {
        let front = a.drop_last();
        assert(!front.contains(sep)) by {
            if front.contains(sep) {
                let i = choose|i: int| 0 <= i < front.len() && front[i] == sep;
                assert(a[i] == sep);
            }
        }
        lemma_split_plain(front, sep);
        assert(a[a.len() - 1] == a.last());
        assert(front.push(a.last()) =~= a);
        assert(split_of(a, sep) =~= seq![a]);
    } else {
        assert(a =~= Seq::<char>::empty());
    }
}

/// The first piece ends at the first separator.
pub(crate) proof fn lemma_first_piece(a: Seq<char>, rest: Seq<char>, sep: char)
    requires
        !a.contains(sep),
        rest.len() == 0 || rest[0] == sep,
    ensures
        split_of(a + rest, sep).len() > 0,
        split_of(a + rest, sep)[0] == a,
        rest.len() > 0 ==> split_of(a + rest, sep).len() > 1,
    decreases rest.len(),
{
    if rest.len() == 0 {
        assert(a + rest =~= a);
        lemma_split_plain(a, sep);
    } else {
        lemma_first_piece(a, rest.drop_last(), sep);
        assert((a + rest).drop_last() =~= a + rest.drop_last());
        if rest.len() == 1 {
            assert((a + rest).last() == sep);
        }
    }
}

proof fn lemma_scheme_end(scheme: Seq<char>, rest: Seq<char>, i: int)
    requires
        !scheme.contains(':'),
        0 <= i <= scheme.len(),
    ensures
        scheme_end(scheme + seq![':', '/', '/'] + rest, i) == Some(scheme.len() as int),
    decreases scheme.len() - i,
{
    let s = scheme + seq![':', '/', '/'] + rest;
    if i < scheme.len() {
        assert(s[i] == scheme[i]);
        assert(s[i] != ':');
        lemma_scheme_end(scheme, rest, i + 1);
    } else {
        assert(s[i] == ':' && s[i + 1] == '/' && s[i + 2] == '/');
    }
}

/// Whether a URL is made of a scheme and `://`, what names host and port, and
/// a path, which begins with `/` or `?` or is empty.
pub open spec fn is_url(
    url: Seq<char>,
    scheme: Seq<char>,
    named: Seq<char>,
    path: Seq<char>,
) -> bool {
    &&& url == scheme + seq![':', '/', '/'] + named + path
    &&& !scheme.contains(':')
    &&& !named.contains('/')
    &&& !named.contains('?')
    &&& path.len() > 0 ==> path[0] == '/' || path[0] == '?'
}

proof fn lemma_authority(url: Seq<char>, scheme: Seq<char>, named: Seq<char>, path: Seq<char>)
    requires
        is_url(url, scheme, named, path),
    ensures
        authority(url) == named,
{
    let rest = named + path;
    assert(url =~= scheme + seq![':', '/', '/'] + rest);
    lemma_scheme_end(scheme, rest, 0);
    assert(after_scheme(url) =~= rest);
    if path.len() > 0 && path[0] == '?' {
        let q = split_of(path, '/')[0];
        lemma_piece_of_sum(named, path);
        assert(split_of(rest, '/')[0] == named + q);
        lemma_first_char_stays(path);
        lemma_first_piece(named, q, '?');
    } else {
        lemma_first_piece(named, path, '/');
        assert(named + Seq::<char>::empty() =~= named);
        lemma_first_piece(named, Seq::empty(), '?');
    }
}

proof fn lemma_piece_of_sum(a: Seq<char>, b: Seq<char>)
    requires
        !a.contains('/'),
    ensures
        split_of(a + b, '/').len() == split_of(b, '/').len(),
        split_of(b, '/').len() > 0,
        split_of(a + b, '/')[0] == a + split_of(b, '/')[0],
    decreases b.len(),
{
    if b.len() == 0 {
        assert(a + b =~= a);
        lemma_split_plain(a, '/');
        assert(a + split_of(b, '/')[0] =~= a);
    } else {
        lemma_piece_of_sum(a, b.drop_last());
        assert((a + b).drop_last() =~= a + b.drop_last());
        let x = split_of(b.drop_last(), '/');
        let y = split_of(a + b.drop_last(), '/');
        if b.last() != '/' && x.len() == 1 {
            assert(y[0].push(b.last()) =~= a + x[0].push(b.last()));
        }
    }
}

proof fn lemma_first_char_stays(b: Seq<char>)
    requires
        b.len() > 0,
        b[0] != '/',
    ensures
        split_of(b, '/')[0].len() > 0,
        split_of(b, '/')[0][0] == b[0],
    decreases b.len(),
{
    crate::text::lemma_split_nonempty(b.drop_last(), '/');
    if b.len() > 1 {
        lemma_first_char_stays(b.drop_last());
    } else {
        assert(b.drop_last() =~= Seq::<char>::empty());
    }
}

proof fn lemma_last_colon(a: Seq<char>, b: Seq<char>, k: int)
    requires
        !b.contains(':'),
        a.len() < k <= a.len() + 1 + b.len(),
    ensures
        last_at(a + seq![':'] + b, ':', k) == Some(a.len() as int),
    decreases k,
{
    let s = a + seq![':'] + b;
    if k > a.len() + 1 {
        assert(s[k - 1] == b[k - 2 - a.len()]);
        assert(b[k - 2 - a.len()] != ':');
        lemma_last_colon(a, b, k - 1);
    }
}

proof fn lemma_no_colon(a: Seq<char>, k: int)
    requires
        !a.contains(':'),
        0 <= k <= a.len(),
    ensures
        last_at(a, ':', k) is None,
    decreases k,
{
    if k > 0 {
        assert(a[k - 1] != ':');
        lemma_no_colon(a, k - 1);
    }
}

proof fn lemma_bracket(host: Seq<char>, behind: Seq<char>, i: int)
    requires
        !host.contains(']'),
        0 <= i <= host.len() + 1,
    ensures
        first_at(seq!['['] + host + seq![']'] + behind, ']', i) == Some((host.len() + 1) as int),
    decreases host.len() + 1 - i,
{
    let s = seq!['['] + host + seq![']'] + behind;
    if i <= host.len() {
        if i > 0 {
            assert(s[i] == host[i - 1]);
        }
        lemma_bracket(host, behind, i + 1);
    } else {
        assert(s[i] == ']');
    }
}

/// The port of a URL that names none: 443 where its scheme begins with
/// `https`, else 80.
pub open spec fn scheme_port(scheme: Seq<char>) -> u16 {
    if scheme.len() >= 5 && scheme.take(5) == seq!['h', 't', 't', 'p', 's'] {
        443
    } else {
        80
    }
}

proof fn lemma_scheme_port(url: Seq<char>, scheme: Seq<char>, rest: Seq<char>)
    requires
        !scheme.contains(':'),
        url == scheme + seq![':', '/', '/'] + rest,
    ensures
        default_port(url) == scheme_port(scheme),
{
    reveal_strlit("https");
    let https = seq!['h', 't', 't', 'p', 's'];
    assert("https"@ =~= https);
    if scheme.len() >= 5 {
        assert(url.take(5) =~= scheme.take(5));
    } else {
        assert(url[scheme.len() as int] == ':');
        if starts_with(url, "https"@) {
            assert(url.take(5)[scheme.len() as int] == https[scheme.len() as int]);
        }
    }
}

/// A relay URL is probed at the host and the port that it names, whatever path
/// follows them: the host stands before the last colon, or in brackets where
/// it is an IPv6 address. A port over 65535 is none, and where none is named
/// it is the scheme's.
pub proof fn law_url_is_probed_where_it_says(
    url: &str,
    scheme: Seq<char>,
    host: Seq<char>,
    bracketed: bool,
    port: Option<u64>,
    digits: String,
    path: Seq<char>,
    r: Option<(String, u16)>,
)
    requires
        call_ensures(host_port, (url,), r),
        port matches Some(n) ==> call_ensures(crate::text::decimal, (n,), digits),
        ({
            let shown = if bracketed {
                seq!['['] + host + seq![']']
            } else {
                host
            };
            let named = if port is Some {
                shown + seq![':'] + digits@
            } else {
                shown
            };
            is_url(url@, scheme, named, path)
        }),
        bracketed ==> !host.contains(']'),
        !bracketed ==> !host.contains(':') && (host.len() > 0 ==> host[0] != '['),
    ensures
        r matches Some((h, p)) && h@ == host && p == (match port {
            Some(n) if n <= 65535 => n as u16,
            _ => scheme_port(scheme),
        }),
{
    let shown = if bracketed {
        seq!['['] + host + seq![']']
    } else {
        host
    };
    let named = if port is Some {
        shown + seq![':'] + digits@
    } else {
        shown
    };
    lemma_authority(url@, scheme, named, path);
    assert(url@ =~= scheme + seq![':', '/', '/'] + (named + path));
    lemma_scheme_port(url@, scheme, named + path);
    if let Some(n) = port {
        crate::text::lemma_decimal_reads_back(n as nat);
        lemma_digits_lack_colon(digits@);
        if bracketed {
            let behind = seq![':'] + digits@;
            assert(named =~= seq!['['] + host + seq![']'] + behind);
            lemma_bracket(host, behind, 0);
            assert(named.subrange(1, (host.len() + 1) as int) =~= host);
            assert(named.skip((host.len() + 3) as int) =~= digits@);
        } else {
            lemma_last_colon(host, digits@, named.len() as int);
            assert(named.len() > 0);
            assert(host.len() > 0 ==> named[0] == host[0]);
            assert(named.take(host.len() as int) =~= host);
            assert(named.skip((host.len() + 1) as int) =~= digits@);
        }
        assert(digits@[0] != '+') by {
            assert(is_digit(digits@[0]));
        }
    } else if bracketed {
        let behind = Seq::<char>::empty();
        assert(named =~= seq!['['] + host + seq![']'] + behind);
        lemma_bracket(host, behind, 0);
        assert(named.subrange(1, (host.len() + 1) as int) =~= host);
    } else {
        lemma_no_colon(host, host.len() as int);
    }
}

proof fn lemma_digits_lack_colon(s: Seq<char>)
    requires
        all_digits(s),
    ensures
        !s.contains(':'),
{
    if s.contains(':') {
        let i = choose|i: int| 0 <= i < s.len() && s[i] == ':';
        assert(is_digit(s[i]));
    }
}

/// What stands behind the last colon and is no number is no port: the host is
/// probed at the scheme's port.
pub proof fn law_a_bad_port_is_none(
    url: &str,
    scheme: Seq<char>,
    host: Seq<char>,
    behind: Seq<char>,
    k: int,
    path: Seq<char>,
    r: Option<(String, u16)>,
)
    requires
        call_ensures(host_port, (url,), r),
        is_url(url@, scheme, host + seq![':'] + behind, path),
        !behind.contains(':'),
        host.len() > 0 ==> host[0] != '[',
        behind.len() == 0 || (0 <= k < behind.len() && !(48 <= behind[k] as u32 <= 57) && behind[k]
            != '+'),
    ensures
        r matches Some((h, p)) && h@ == host && p == scheme_port(scheme),
{
    let named = host + seq![':'] + behind;
    lemma_authority(url@, scheme, named, path);
    assert(url@ =~= scheme + seq![':', '/', '/'] + (named + path));
    lemma_scheme_port(url@, scheme, named + path);
    lemma_last_colon(host, behind, named.len() as int);
    assert(host.len() > 0 ==> named[0] == host[0]);
    assert(named.take(host.len() as int) =~= host);
    assert(named.skip((host.len() + 1) as int) =~= behind);
    if behind.len() > 0 {
        let digits = if behind[0] == '+' {
            behind.skip(1)
        } else {
            behind
        };
        if all_digits(digits) {
            if behind[0] == '+' {
                assert(is_digit(digits[k - 1]));
            } else {
                assert(is_digit(digits[k]));
            }
        }
    }
}

/// Every probed relay is listed exactly once: there is a way to number the
/// probes so that the list follows it. Those that answered come first, by the
/// time they took, and equals by their position; those that did not come
/// behind, by their position.
pub proof fn law_relays_are_ordered_by_answer(probes: Vec<Probe>, r: Vec<String>)
    requires
        call_ensures(order_by_connect_latency, (&probes,), r),
    ensures
        exists|from: Seq<usize>| #[trigger] is_answer_order(probes@, r@, from),
{
    let order = choose|order: Seq<usize>|
        #[trigger] is_key_order(order, probe_keys(probes@)) && texts(r@) == arranged(
            probe_urls(probes@),
            order,
        );
    assert forall|i: int, j: int| 0 <= i < j < order.len() implies #[trigger] order[i]
        != #[trigger] order[j] && answered_before(
        probes@[order[i] as int],
        probes@[order[j] as int],
    ) by {
        let a = order[i] as int;
        let b = order[j] as int;
        assert(crate::order::comes_before(probe_keys(probes@), a, b));
        assert(probe_keys(probes@)[a] == probe_key(probes@[a]));
        assert(probe_keys(probes@)[b] == probe_key(probes@[b]));
    }
    assert(texts(r@).len() == r@.len());
    assert forall|i: int| 0 <= i < r@.len() implies (#[trigger] r@[i])@
        == probes@[order[i] as int].url@ by {
        assert(texts(r@)[i] == r@[i]@);
    }
    assert(is_answer_order(probes@, r@, order));
}

/// Whether `a` may stand before `b`: it took no longer, or `b` did not answer;
/// of equals the one with the lower position.
pub open spec fn answered_before(a: Probe, b: Probe) -> bool {
    match (a.rtt_nanos, b.rtt_nanos) {
        (Some(x), Some(y)) => x < y || (x == y && a.index <= b.index),
        (Some(_), None) => true,
        (None, Some(_)) => false,
        (None, None) => a.index <= b.index,
    }
}

/// Whether `urls[i]` is that of probe `from[i]`, every probe standing at one
/// place, and none before one that answered sooner.
pub open spec fn is_answer_order(probes: Seq<Probe>, urls: Seq<String>, from: Seq<usize>) -> bool {
    &&& urls.len() == probes.len()
    &&& from.len() == probes.len()
    &&& forall|i: int|
        0 <= i < urls.len() ==> from[i] < probes.len() && (#[trigger] urls[i])@
            == probes[from[i] as int].url@
    &&& forall|i: int, j: int|
        0 <= i < j < from.len() ==> #[trigger] from[i] != #[trigger] from[j] && answered_before(
            probes[from[i] as int],
            probes[from[j] as int],
        )
}

} // verus!
