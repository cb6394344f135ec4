//! What the modes share: the peer to dial, allow lists, relays, dial
//! addresses and how an endpoint comes online.

use vstd::prelude::*;
use crate::contacts::copy_strings;
use crate::endpoint::{endpoint_refusal, endpoint_token, parse_endpoint_id, EndpointId};
use crate::exit;
use crate::exit::{because, says, says_because, usage, usage_because, Error};
use crate::i18n::{listed, looked_up, lookup, said, say1, say3, Catalog};
use crate::net::SocketAddr;
use crate::text::{
    chars_of, has_prefix, join, join_of, same_text, split, split_of, starts_with, string_of, texts,
    trim, trim_of,
};

verus! {

/// How long an endpoint may take to come online, in seconds.
pub const ONLINE_TIMEOUT_SECS: u64 = 30;

/// How long opening a stream may take, in seconds.
pub const OPEN_STREAM_TIMEOUT_SECS: u64 = 5;

/// The protocol name of forwarded streams.
pub const ALPN: &'static str = "link-p2p/tcp-forward/1";

/// The protocol name of the ping probe.
pub const PING_ALPN: &'static str = "link-p2p/ping/0";

/// Where a status line goes.
#[derive(Clone, Copy, Debug, PartialEq, Eq, Structural)]
pub enum Sink {
    Nowhere,
    Stdout,
    Stderr,
}

/// How the user is shown status lines.
#[derive(Clone, Copy, Debug, PartialEq, Eq, Structural)]
pub struct Ui {
    pub quiet: bool,
    pub stderr_only: bool,
}

impl Ui {
    /// Where a status line goes: nowhere when quiet, and to stderr where
    /// stdout carries data.
    pub fn line(self) -> (r: Sink)
        ensures
            r == (if self.quiet {
                Sink::Nowhere
            } else if self.stderr_only {
                Sink::Stderr
            } else {
                Sink::Stdout
            }),
    {
        if self.quiet {
            Sink::Nowhere
        } else if self.stderr_only {
            Sink::Stderr
        } else {
            Sink::Stdout
        }
    }
}

/// Why this side closes a connection, as the peer is told.
#[derive(Clone, Copy, Debug, PartialEq, Eq, Structural)]
pub enum CloseReason {
    /// There is a call already.
    Busy,
    /// The user refused the call.
    Rejected,
    /// Nobody answered the call.
    RingTimeout,
    /// The mesh's allow list does not name the peer.
    Denied,
    /// The peer is dialed from this side.
    TieBreak,
    /// The allow list of `serve` does not name the peer.
    PeerNotAllowed,
    /// A stream could not be opened in time.
    OpenTimeout,
}

impl CloseReason {
    /// The reason on the wire.
    pub open spec fn words(self) -> Seq<char> {
        match self {
            CloseReason::Busy => "busy"@,
            CloseReason::Rejected => "rejected"@,
            CloseReason::RingTimeout => "ring timeout"@,
            CloseReason::Denied => "denied"@,
            CloseReason::TieBreak => "tie-break"@,
            CloseReason::PeerNotAllowed => "peer not allowed"@,
            CloseReason::OpenTimeout => "open_bi timeout"@,
        }
    }

    /// The reason on the wire.
    pub fn as_str(self) -> (r: &'static str)
        ensures
            r@ == self.words(),
    {
        match self {
            CloseReason::Busy => "busy",
            CloseReason::Rejected => "rejected",
            CloseReason::RingTimeout => "ring timeout",
            CloseReason::Denied => "denied",
            CloseReason::TieBreak => "tie-break",
            CloseReason::PeerNotAllowed => "peer not allowed",
            CloseReason::OpenTimeout => "open_bi timeout",
        }
    }
}

/// How many connections are served at a time; 0 stands for no limit.
pub fn conn_semaphore(max_conns: usize) -> (r: usize)
    ensures
        r == (if max_conns == 0 {
            usize::MAX
        } else {
            max_conns
        }),
{
    if max_conns == 0 {
        usize::MAX
    } else {
        max_conns
    }
}

/// What a serving node does with streams.
#[derive(Clone, Copy, Debug, PartialEq, Eq, Structural)]
pub enum ServeMode {
    /// Connect each to one address.
    Forward(SocketAddr),
    /// Connect each to where it asks.
    Proxy { allow_private: bool },
}

/// Where the peer's name comes from.
#[derive(Debug)]
pub enum PeerTo {
    Given(String),
    /// It is read from stdin.
    FromStdin,
}

impl PeerTo {
    /// The name that was given, if one was.
    pub open spec fn name(self) -> Option<Seq<char>> {
        match self {
            PeerTo::Given(s) => Some(s@),
            PeerTo::FromStdin => None,
        }
    }
}

/// The peer that the command line names: a name, `None` for the one that
/// stdin names, or why there is none.
pub open spec fn peer_choice(
    catalog: Map<Seq<char>, Seq<char>>,
    to: Option<String>,
    stdio: bool,
    unix: bool,
) -> Result<Option<Seq<char>>, Seq<char>> {
    let raw = match to {
        Some(s) => trim_of(s@),
        None => Seq::empty(),
    };
    if raw.len() == 0 {
        Err(looked_up(catalog, "missing peer EndpointId (--to or LINK_P2P_TO)"@))
    } else if raw != "-"@ {
        Ok(Some(raw))
    } else if !unix {
        Err(
            looked_up(
                catalog,
                "--to - (read EndpointId from stdin) is only available on Unix builds"@,
            ),
        )
    } else if stdio {
        Err(looked_up(catalog, "--to - cannot be combined with --stdio (stdin conflict)"@))
    } else {
        Ok(None)
    }
}

/// The peer that the command line names: not empty, and `-` for stdin, which
/// only Unix builds read and not while stdin carries data.
pub fn resolve_peer_to(catalog: &Catalog, to: Option<String>, stdio: bool, unix: bool) -> (r:
    Result<PeerTo, Error>)
    ensures
        match peer_choice(catalog@, to, stdio, unix) {
            Ok(n) => r is Ok && r->Ok_0.name() == n,
            Err(m) => r is Err && says(r->Err_0, m, Some(exit::USAGE)),
        },
{
    let raw = match to {
        Some(s) => trim(s.as_str()),
        None => String::new(),
    };
    if raw.as_str().unicode_len() == 0 {
        return Err(usage(lookup(catalog, "missing peer EndpointId (--to or LINK_P2P_TO)")));
    }
    if !same_text(raw.as_str(), "-") {
        return Ok(PeerTo::Given(raw));
    }
    if !unix {
        return Err(
            usage(
                lookup(
                    catalog,
                    "--to - (read EndpointId from stdin) is only available on Unix builds",
                ),
            ),
        );
    }
    if stdio {
        return Err(
            usage(lookup(catalog, "--to - cannot be combined with --stdio (stdin conflict)")),
        );
    }
    Ok(PeerTo::FromStdin)
}

/// The peer that a line of stdin names; `ENDPOINT_ID=` before it is skipped.
pub open spec fn stdin_peer(line: Seq<char>) -> Seq<char> {
    let id = trim_of(line);
    if starts_with(id, "ENDPOINT_ID="@) {
        trim_of(id.skip("ENDPOINT_ID="@.len() as int))
    } else {
        id
    }
}

/// The peer that a line of stdin names.
pub fn peer_from_stdin(catalog: &Catalog, line: &str) -> (r: Result<String, Error>)
    ensures
        if trim_of(line@).len() == 0 {
            r is Err && r->Err_0.wf() && r->Err_0@ == seq![
                (looked_up(catalog@, "empty EndpointId on stdin"@), Some(exit::USAGE)),
            ]
        } else {
            r is Ok && r->Ok_0@ == stdin_peer(line@)
        },
{
    let id = trim(line);
    if id.as_str().unicode_len() == 0 {
        return Err(usage(lookup(catalog, "empty EndpointId on stdin")));
    }
    let v = chars_of(id.as_str());
    let prefix = chars_of("ENDPOINT_ID=");
    if has_prefix(&v, &prefix) {
        let n: usize = prefix.len();
        let rest = string_of(&v, n, v.len());
        proof {
            assert(v@.subrange(n as int, v@.len() as int) =~= v@.skip(n as int));
        }
        Ok(trim(rest.as_str()))
    } else {
        Ok(id)
    }
}

/// The allow list: that of the command line where it is not empty, else the
/// comma-separated one of the environment.
pub open spec fn allowed(cli: Seq<Seq<char>>, env: Option<Seq<char>>) -> Seq<Seq<char>> {
    if cli.len() > 0 {
        cli
    } else {
        match env {
            Some(s) => listed(split_of(s, ',')),
            None => Seq::empty(),
        }
    }
}

/// The allow list; `env` is the value of `LINK_P2P_ALLOW`.
pub fn merge_allow_list(cli: Vec<String>, env: &Option<String>) -> (r: Vec<String>)
    ensures
        texts(r@) == allowed(
            texts(cli@),
            match *env {
                Some(s) => Some(s@),
                None => None,
            },
        ),
{
    if cli.len() > 0 {
        return cli;
    }
    let mut out: Vec<String> = Vec::new();
    proof {
        assert(texts(out@) =~= Seq::<Seq<char>>::empty());
    }
    if let Some(s) = env {
        let parts = split(s.as_str(), ',');
        let mut i: usize = 0;
        while i < parts.len()
            invariant
                i <= parts@.len(),
                texts(out@) == listed(texts(parts@).take(i as int)),
            decreases parts@.len() - i,
        {
            let p = trim(parts[i].as_str());
            let ghost before = texts(out@);
            let ghost pv = p@;
            proof {
                assert(texts(parts@).take(i + 1).drop_last() =~= texts(parts@).take(i as int));
                assert(texts(parts@).take(i + 1).last() == parts@[i as int]@);
            }
            if p.as_str().unicode_len() > 0 {
                out.push(p);
                proof {
                    assert(texts(out@) =~= before.push(pv));
                }
            }
            i = i + 1;
        }
        proof {
            assert(texts(parts@).take(parts@.len() as int) =~= texts(parts@));
        }
    }
    out
}

/// The bytes of a list of ids.
pub open spec fn id_views(v: Seq<EndpointId>) -> Seq<Seq<u8>> {
    v.map_values(|id: EndpointId| id@)
}

/// Whether `id` is in the list.
pub fn holds_id(list: &Vec<EndpointId>, id: &EndpointId) -> (r: bool)
    ensures
        r == id_views(list@).contains(id@),
{
    let mut i: usize = 0;
    while i < list.len()
        invariant
            i <= list@.len(),
            forall|j: int| 0 <= j < i ==> (#[trigger] list@[j])@ != id@,
        decreases list@.len() - i,
    {
        if list[i].same(id) {
            proof {
                assert(id_views(list@)[i as int] == id@);
            }
            return true;
        }
        i = i + 1;
    }
    proof {
        assert forall|j: int| 0 <= j < id_views(list@).len() implies id_views(list@)[j] != id@ by {
            assert(list@[j]@ != id@);
        }
    }
    false
}

/// Position of the first entry that is no endpoint id.
pub open spec fn first_bad_id(allow: Seq<Seq<char>>) -> Option<int>
    decreases allow.len(),
{
    if allow.len() == 0 {
        None
    } else {
        match first_bad_id(allow.drop_last()) {
            Some(i) => Some(i),
            None => if endpoint_token(allow.last()) is None {
                Some(allow.len() - 1)
            } else {
                None
            },
        }
    }
}

pub proof fn lemma_first_bad_id_stays(allow: Seq<Seq<char>>, k: int)
    requires
        0 <= k <= allow.len(),
        first_bad_id(allow.take(k)) is Some,
    ensures
        first_bad_id(allow) == first_bad_id(allow.take(k)),
    decreases allow.len() - k,
{
    if k < allow.len() {
        assert(allow.take(k + 1).drop_last() =~= allow.take(k));
        lemma_first_bad_id_stays(allow, k + 1);
    } else {
        assert(allow.take(k) =~= allow);
    }
}

/// What is said of an allow list with an entry that is no id.
pub open spec fn allow_refusal(
    catalog: Map<Seq<char>, Seq<char>>,
    allow: Seq<Seq<char>>,
) -> Seq<char> {
    said(
        catalog,
        "'{0}' is not a valid EndpointId in --allow"@,
        seq![allow[first_bad_id(allow)->0]],
    )
}

/// Why the first such entry is no id.
pub open spec fn allow_cause(allow: Seq<Seq<char>>) -> Seq<char> {
    endpoint_refusal(allow[first_bad_id(allow)->0])
}

/// Who may join: the ids of the allow list, or `None` where it is empty and
/// everyone may. The first entry that is no id is a usage error.
pub fn parse_tun_allow(catalog: &Catalog, allow: &Vec<String>) -> (r: Result<
    Option<Vec<EndpointId>>,
    Error,
>)
    ensures
        match r {
            Ok(None) => allow@.len() == 0,
            Ok(Some(ids)) => allow@.len() > 0 && first_bad_id(texts(allow@)) is None && id_views(
                ids@,
            ) == allow_ids(texts(allow@)),
            Err(e) => first_bad_id(texts(allow@)) is Some && says_because(
                e,
                allow_refusal(catalog@, texts(allow@)),
                Some(exit::USAGE),
                allow_cause(texts(allow@)),
            ),
        },
{
    if allow.len() == 0 {
        return Ok(None);
    }
    let mut ids: Vec<EndpointId> = Vec::new();
    let mut i: usize = 0;
    proof {
        assert(id_views(ids@) =~= allow_ids(texts(allow@).take(0)));
    }
    while i < allow.len()
        invariant
            i <= allow@.len(),
            first_bad_id(texts(allow@).take(i as int)) is None,
            id_views(ids@) == allow_ids(texts(allow@).take(i as int)),
        decreases allow@.len() - i,
    {
        proof {
            assert(texts(allow@)[i as int] == allow@[i as int]@);
            assert(texts(allow@).take(i + 1).drop_last() =~= texts(allow@).take(i as int));
        }
        match parse_endpoint_id(allow[i].as_str()) {
            Err(why) => {
                proof {
                    lemma_first_bad_id_stays(texts(allow@), i + 1);
                }
                return Err(
                    usage_because(
                        say1(
                            catalog,
                            "'{0}' is not a valid EndpointId in --allow",
                            allow[i].clone(),
                        ),
                        why,
                    ),
                );
            },
            Ok(id) => {
                let ghost before = id_views(ids@);
                if !holds_id(&ids, &id) {
                    ids.push(id);
                    proof {
                        assert(id_views(ids@) =~= before.push(id@));
                    }
                }
            },
        }
        i = i + 1;
    }
    proof {
        assert(texts(allow@).take(allow@.len() as int) =~= texts(allow@));
    }
    Ok(Some(ids))
}

/// The ids that a list writes, each once.
pub open spec fn allow_ids(allow: Seq<Seq<char>>) -> Seq<Seq<u8>>
    decreases allow.len(),
{
    if allow.len() == 0 {
        Seq::empty()
    } else {
        let before = allow_ids(allow.drop_last());
        let id = endpoint_token(allow.last())->0;
        if before.contains(id) {
            before
        } else {
            before.push(id)
        }
    }
}

/// The steps in which a new endpoint comes online, in order. Extra relays are
/// installed before waiting: where only they are reachable, waiting first
/// would never end.
pub fn endpoint_online_steps() -> (r: Vec<&'static str>)
    ensures
        r@.len() == 2,
        r@[0]@ == "install_extra_relays"@,
        r@[1]@ == "wait_online"@,
{
    let mut steps: Vec<&'static str> = Vec::new();
    steps.push("install_extra_relays");
    steps.push("wait_online");
    steps
}

/// What is added to the timeout message, depending on the relays in use.
pub open spec fn online_hint(
    catalog: Map<Seq<char>, Seq<char>>,
    relays: bool,
    no_n0: bool,
) -> Seq<char> {
    if relays && !no_n0 {
        looked_up(
            catalog,
            "\nYou passed --relay without --no-n0-relays: the endpoint still\nstarts on n0's public relays. If n0 is blocked on this network,\neither add --no-n0-relays (custom relay only) or ensure UDP to\nn0 works. Custom URLs are installed before this wait; if you\nstill time out, probe your relay with `link-p2p selftest`."@,
        )
    } else if relays && no_n0 {
        looked_up(
            catalog,
            "\n--no-n0-relays is set: only your --relay URL(s) are used.\nCheck that the relay is reachable (TCP) and accepts QUIC/UDP.\nTry: link-p2p selftest"@,
        )
    } else {
        Seq::empty()
    }
}

/// The error of an endpoint that does not come online; `program` is the name
/// that the process was started under.
pub fn online_timeout(catalog: &Catalog, program: String, relays: bool, no_n0: bool) -> (r: Error)
    ensures
        r.wf(),
        r@ == seq![
            (
                said(
                    catalog@,
                    "endpoint did not come online within {0}.\n\nThe most likely cause: outgoing UDP is blocked by a firewall.\niroh/QUIC relies on UDP for both direct hole-punching and\nrelay connections. Try:\nlink-p2p selftest               # relay TCP probe + loopback\nnc -u -v -w3 8.8.8.8 53         # does UDP egress work at all?\nRUST_LOG=iroh=debug {1}          # see exactly where it's stuck{2}"@,
                    seq!["30s"@, program@, online_hint(catalog@, relays, no_n0)],
                ),
                Some(exit::TIMEOUT),
            ),
        ],
{
    let hint = if relays && !no_n0 {
        lookup(
            catalog,
            "\nYou passed --relay without --no-n0-relays: the endpoint still\nstarts on n0's public relays. If n0 is blocked on this network,\neither add --no-n0-relays (custom relay only) or ensure UDP to\nn0 works. Custom URLs are installed before this wait; if you\nstill time out, probe your relay with `link-p2p selftest`.",
        )
    } else if relays {
        lookup(
            catalog,
            "\n--no-n0-relays is set: only your --relay URL(s) are used.\nCheck that the relay is reachable (TCP) and accepts QUIC/UDP.\nTry: link-p2p selftest",
        )
    } else {
        String::new()
    };
    proof {
        assert(hint@ =~= online_hint(catalog@, relays, no_n0));
    }
    let text = say3(
        catalog,
        "endpoint did not come online within {0}.\n\nThe most likely cause: outgoing UDP is blocked by a firewall.\niroh/QUIC relies on UDP for both direct hole-punching and\nrelay connections. Try:\nlink-p2p selftest               # relay TCP probe + loopback\nnc -u -v -w3 8.8.8.8 53         # does UDP egress work at all?\nRUST_LOG=iroh=debug {1}          # see exactly where it's stuck{2}",
        "30s".to_owned(),
        program,
        hint,
    );
    let ghost t = text@;
    let e = exit::coded(exit::TIMEOUT, Error::msg(text));
    proof {
        assert(e@ =~= seq![(t, Some(exit::TIMEOUT))]);
    }
    e
}

/// iroh's reason that a text is no relay URL; `None` where it is one.
pub uninterp spec fn relay_url_refusal(s: Seq<char>) -> Option<Seq<char>>;

/// Whether a text is a relay URL.
pub open spec fn is_relay_url(s: Seq<char>) -> bool {
    relay_url_refusal(s) is None
}

/// `iroh::RelayUrl`'s `FromStr`: whether it accepts a text, and the text of
/// its error with the causes included where it does not, named by
/// `relay_url_refusal`.
#[verifier::external_body]
fn refuses_relay_url(s: &str) -> (r: Option<String>)
    ensures
        match r {
            Some(why) => relay_url_refusal(s@) == Some(why@),
            None => relay_url_refusal(s@) is None,
        },
{
    match s.parse::<iroh::RelayUrl>() {
        Ok(_) => None,
        Err(e) => Some(format!("{e:#}")),
    }
}

/// Position of the first text that is no relay URL.
pub open spec fn first_bad_url(urls: Seq<Seq<char>>) -> Option<int>
    decreases urls.len(),
{
    if urls.len() == 0 {
        None
    } else {
        match first_bad_url(urls.drop_last()) {
            Some(i) => Some(i),
            None => if is_relay_url(urls.last()) {
                None
            } else {
                Some(urls.len() - 1)
            },
        }
    }
}

proof fn lemma_first_bad_url_stays(urls: Seq<Seq<char>>, k: int)
    requires
        0 <= k <= urls.len(),
        first_bad_url(urls.take(k)) is Some,
    ensures
        first_bad_url(urls) == first_bad_url(urls.take(k)),
    decreases urls.len() - k,
{
    if k < urls.len() {
        assert(urls.take(k + 1).drop_last() =~= urls.take(k));
        lemma_first_bad_url_stays(urls, k + 1);
    } else {
        assert(urls.take(k) =~= urls);
    }
}

/// Why the first text that is no relay URL is none.
pub open spec fn url_cause(urls: Seq<Seq<char>>) -> Seq<char> {
    relay_url_refusal(urls[first_bad_url(urls)->0])->0
}

fn find_bad_url(urls: &Vec<String>) -> (r: Option<(usize, String)>)
    ensures
        match r {
            Some((i, why)) => i < urls@.len() && first_bad_url(texts(urls@)) == Some(i as int)
                && why@ == url_cause(texts(urls@)),
            None => first_bad_url(texts(urls@)) is None,
        },
{
    let mut i: usize = 0;
    proof {
        assert(texts(urls@).take(0) =~= Seq::<Seq<char>>::empty());
    }
    while i < urls.len()
        invariant
            i <= urls@.len(),
            first_bad_url(texts(urls@).take(i as int)) is None,
        decreases urls@.len() - i,
    {
        proof {
            assert(texts(urls@).take(i + 1).drop_last() =~= texts(urls@).take(i as int));
            assert(texts(urls@).take(i + 1).last() == urls@[i as int]@);
        }
        if let Some(why) = refuses_relay_url(urls[i].as_str()) {
            proof {
                lemma_first_bad_url_stays(texts(urls@), i + 1);
                assert(texts(urls@)[i as int] == urls@[i as int]@);
            }
            return Some((i, why));
        }
        i = i + 1;
    }
    proof {
        assert(texts(urls@).take(urls@.len() as int) =~= texts(urls@));
    }
    None
}

/// Which relays an endpoint starts with.
#[derive(Clone, Copy, Debug, PartialEq, Eq, Structural)]
pub enum RelayBase {
    /// The public ones, with discovery.
    Public,
    /// The given ones alone.
    Custom,
}

/// How an endpoint is built.
#[derive(Clone, Copy, Debug, PartialEq, Eq, Structural)]
pub struct EndpointPlan {
    pub base: RelayBase,
    /// No IP transport at all.
    pub relay_only: bool,
}

/// How to build an endpoint: on the public relays, unless relays were given
/// and the public ones were declined. Then each must be a relay URL.
pub fn build_endpoint(
    catalog: &Catalog,
    relay: &Vec<String>,
    relay_only: bool,
    no_n0_relays: bool,
) -> (r: Result<EndpointPlan, Error>)
    ensures
        ({
            let custom = relay@.len() > 0 && no_n0_relays;
            match r {
                Ok(plan) => plan.relay_only == relay_only && plan.base == (if custom {
                    RelayBase::Custom
                } else {
                    RelayBase::Public
                }) && (custom ==> first_bad_url(texts(relay@)) is None),
                Err(e) => custom && first_bad_url(texts(relay@)) is Some && says_because(
                    e,
                    said(
                        catalog@,
                        "invalid --relay URL in list: {0}"@,
                        seq![join_of(texts(relay@), ", "@)],
                    ),
                    None,
                    url_cause(texts(relay@)),
                ),
            }
        }),
{
    if relay.len() > 0 && no_n0_relays {
        if let Some((_, why)) = find_bad_url(relay) {
            return Err(
                because(say1(catalog, "invalid --relay URL in list: {0}", join(relay, ", ")), why),
            );
        }
        Ok(EndpointPlan { base: RelayBase::Custom, relay_only })
    } else {
        Ok(EndpointPlan { base: RelayBase::Public, relay_only })
    }
}

/// Whether `err` is the one for a list with a text that is no relay URL.
pub open spec fn refuses_url_of(
    err: Error,
    catalog: Map<Seq<char>, Seq<char>>,
    urls: Seq<Seq<char>>,
) -> bool {
    says_because(
        err,
        said(catalog, "'{0}' is not a valid RelayUrl"@, seq![urls[first_bad_url(urls)->0]]),
        None,
        url_cause(urls),
    )
}

/// An error for a text that is no relay URL.
fn bad_relay_url(catalog: &Catalog, url: &String, why: String) -> (r: Error)
    ensures
        says_because(r, said(catalog@, "'{0}' is not a valid RelayUrl"@, seq![url@]), None, why@),
{
    because(say1(catalog, "'{0}' is not a valid RelayUrl", url.clone()), why)
}

/// The relays to add to an endpoint on the public ones: all that were given,
/// up to the first that is no relay URL, and the error where there is one.
pub fn install_extra_relays(catalog: &Catalog, relay: &Vec<String>, no_n0_relays: bool) -> (r: (
    Vec<String>,
    Option<Error>,
))
    ensures
        if no_n0_relays {
            texts(r.0@) == Seq::<Seq<char>>::empty() && r.1 is None
        } else {
            match first_bad_url(texts(relay@)) {
                None => texts(r.0@) == texts(relay@) && r.1 is None,
                Some(i) => texts(r.0@) == texts(relay@).take(i) && r.1 is Some && refuses_url_of(
                    r.1->0,
                    catalog@,
                    texts(relay@),
                ),
            }
        },
{
    let mut out: Vec<String> = Vec::new();
    proof {
        assert(texts(out@) =~= Seq::<Seq<char>>::empty());
    }
    if no_n0_relays {
        return (out, None);
    }
    let bad = find_bad_url(relay);
    let upto: usize = match &bad {
        Some((i, _)) => *i,
        None => relay.len(),
    };
    let mut i: usize = 0;
    while i < upto
        invariant
            i <= upto <= relay@.len(),
            out@.len() == i,
            forall|j: int| 0 <= j < i ==> (#[trigger] out@[j])@ == relay@[j]@,
        decreases upto - i,
    {
        out.push(relay[i].clone());
        i = i + 1;
    }
    proof {
        assert(texts(out@) =~= texts(relay@).take(upto as int));
        assert(texts(relay@).take(relay@.len() as int) =~= texts(relay@));
    }
    match bad {
        Some((k, why)) => {
            proof {
                assert(texts(relay@)[k as int] == relay@[k as int]@);
            }
            (out, Some(bad_relay_url(catalog, &relay[k], why)))
        },
        None => (out, None),
    }
}

/// Relays alone and addresses to dial exclude each other.
pub fn reject_relay_only_with_to_addr(catalog: &Catalog, relay_only: bool, addrs: usize) -> (r:
    Result<(), Error>)
    ensures
        match r {
            Ok(()) => !relay_only || addrs == 0,
            Err(e) => relay_only && addrs > 0 && e.wf() && e@ == seq![
                (
                    looked_up(
                        catalog@,
                        "--relay-only cannot be combined with --to-addr (direct IP hints)"@,
                    ),
                    Some(exit::USAGE),
                ),
            ],
        },
{
    if relay_only && addrs > 0 {
        return Err(
            usage(
                lookup(
                    catalog,
                    "--relay-only cannot be combined with --to-addr (direct IP hints)",
                ),
            ),
        );
    }
    Ok(())
}

/// What a peer is dialed by: its id, relays and addresses.
#[derive(Debug)]
pub struct DialAddr {
    pub id: EndpointId,
    pub relays: Vec<String>,
    pub addrs: Vec<SocketAddr>,
}

/// What a peer is dialed by. Each relay must be a relay URL; without relays
/// and addresses the id is looked up by discovery.
pub fn build_dial_addr(
    catalog: &Catalog,
    peer: EndpointId,
    relay: &Vec<String>,
    to_addr: Vec<SocketAddr>,
) -> (r: Result<DialAddr, Error>)
    ensures
        match r {
            Ok(d) => first_bad_url(texts(relay@)) is None && d.id@ == peer@ && texts(d.relays@)
                == texts(relay@) && d.addrs@ == to_addr@,
            Err(e) => first_bad_url(texts(relay@)) is Some && refuses_url_of(
                e,
                catalog@,
                texts(relay@),
            ),
        },
{
    match find_bad_url(relay) {
        Some((i, why)) => {
            proof {
                assert(texts(relay@)[i as int] == relay@[i as int]@);
            }
            Err(bad_relay_url(catalog, &relay[i], why))
        },
        None => Ok(DialAddr { id: peer, relays: copy_strings(relay), addrs: to_addr }),
    }
}

/// Which congestion control to use.
#[derive(Clone, Copy, Debug, PartialEq, Eq, Structural)]
pub enum CongestionControl {
    Cubic,
    Bbr3,
}

/// What to change of the transport's defaults.
#[derive(Clone, Copy, Debug, PartialEq, Eq, Structural)]
pub struct TransportTune {
    pub cc: Option<CongestionControl>,
    pub send_window: Option<u64>,
    pub stream_recv_window: Option<u64>,
}

/// The first number that a variable-length integer of QUIC cannot hold.
pub const VARINT_LIMIT: u64 = 0x4000_0000_0000_0000;

/// Refuses a receive window that QUIC cannot express.
pub fn check_transport(catalog: &Catalog, tune: &TransportTune) -> (r: Result<(), Error>)
    ensures
        match r {
            Ok(()) => tune.stream_recv_window matches Some(w) ==> w < VARINT_LIMIT,
            Err(e) => tune.stream_recv_window is Some && tune.stream_recv_window->0 >= VARINT_LIMIT
                && e.wf() && e@ == seq![
                (
                    looked_up(
                        catalog@,
                        "--stream-recv-window / LINK_P2P_STREAM_RECV_WINDOW out of range"@,
                    ),
                    None::<i32>,
                ),
            ],
        },
{
    if let Some(w) = tune.stream_recv_window {
        if w >= VARINT_LIMIT {
            return Err(
                Error::msg(
                    lookup(
                        catalog,
                        "--stream-recv-window / LINK_P2P_STREAM_RECV_WINDOW out of range",
                    ),
                ),
            );
        }
    }
    Ok(())
}

/// A peer must be named, by more than white space; what surrounds the name is
/// no part of it. A lone dash has it read from stdin, which only Unix has and
/// only while stdin carries no data; every failure is one of usage.
pub proof fn law_a_peer_must_be_named(
    catalog: Catalog,
    to: Option<String>,
    stdio: bool,
    unix: bool,
    r: Result<PeerTo, Error>,
    code: i32,
)
    requires
        call_ensures(resolve_peer_to, (&catalog, to, stdio, unix), r),
        r matches Err(e) ==> call_ensures(exit::code_from, (&e,), code),
    ensures
        to is None || trim_of(to->0@).len() == 0 ==> r is Err,
        to is Some && trim_of(to->0@).len() > 0 && trim_of(to->0@) != "-"@ ==> (r matches Ok(
            PeerTo::Given(name),
        ) && name@ == trim_of(to->0@)),
        to is Some && trim_of(to->0@) == "-"@ ==> (r is Ok <==> unix && !stdio) && (r is Ok
            ==> r->Ok_0 is FromStdin),
        r is Err ==> code == 2,
{
    reveal_strlit("-");
}

/// A line of stdin names the peer by what it holds besides white space around
/// it, and `ENDPOINT_ID=` before it; a blank line names none.
pub proof fn law_stdin_names_the_peer(
    catalog: Catalog,
    line: &str,
    name: Seq<char>,
    r: Result<String, Error>,
)
    requires
        call_ensures(peer_from_stdin, (&catalog, line), r),
    ensures
        r is Err <==> trim_of(line@).len() == 0,
        trim_of(line@).len() > 0 && trim_of(line@) == "ENDPOINT_ID="@ + name ==> r is Ok
            && r->Ok_0@ == trim_of(name),
        trim_of(line@).len() > 0 && !(exists|n: Seq<char>|
            trim_of(line@) == #[trigger] ("ENDPOINT_ID="@ + n)) ==> r is Ok && r->Ok_0@ == trim_of(line@),
{
    let id = trim_of(line@);
    let p = "ENDPOINT_ID="@;
    if id == p + name {
        assert(id.take(p.len() as int) =~= p);
        assert(id.skip(p.len() as int) =~= name);
    }
    if starts_with(id, p) {
        let n = id.skip(p.len() as int);
        assert(id =~= p + n);
        assert(exists|n: Seq<char>| id == #[trigger] (p + n));
    }
}

/// The allow list is the one of the command line where it names anybody, and
/// otherwise what the environment lists between commas, without white space
/// and without what is empty.
pub proof fn law_command_line_allow_list_wins(
    cli: Vec<String>,
    none: Vec<String>,
    env: String,
    as_str: &str,
    pieces: Vec<String>,
    given: Vec<String>,
    listed_only: Vec<String>,
)
    requires
        cli@.len() > 0,
        none@.len() == 0,
        as_str@ == env@,
        call_ensures(split, (as_str, ','), pieces),
        call_ensures(merge_allow_list, (cli, &Some(env)), given),
        call_ensures(merge_allow_list, (none, &Some(env)), listed_only),
    ensures
        texts(given@) == texts(cli@),
        texts(listed_only@) == texts(pieces@).map_values(|p: Seq<char>| trim_of(p)).filter(
            |p: Seq<char>| p.len() > 0,
        ),
{
    crate::i18n::lemma_listed(texts(pieces@));
}

pub(crate) proof fn lemma_first_bad_id(allow: Seq<Seq<char>>)
    ensures
        match first_bad_id(allow) {
            None => forall|j: int|
                0 <= j < allow.len() ==> endpoint_token(#[trigger] allow[j]) is Some,
            Some(i) => 0 <= i < allow.len() && endpoint_token(allow[i]) is None && forall|j: int|
                0 <= j < i ==> endpoint_token(#[trigger] allow[j]) is Some,
        },
    decreases allow.len(),
{
    if allow.len() > 0 {
        let front = allow.drop_last();
        lemma_first_bad_id(front);
        match first_bad_id(front) {
            Some(i) => {
                assert forall|j: int| 0 <= j < i implies endpoint_token(#[trigger] allow[j]) is Some by {
                    assert(front[j] == allow[j]);
                }
            },
            None => {
                assert forall|j: int| 0 <= j < front.len() implies endpoint_token(
                    #[trigger] allow[j],
                ) is Some by {
                    assert(front[j] == allow[j]);
                }
            },
        }
    }
}

proof fn lemma_allow_ids(allow: Seq<Seq<char>>, id: Seq<u8>)
    ensures
        allow_ids(allow).contains(id) <==> exists|j: int|
            0 <= j < allow.len() && endpoint_token(#[trigger] allow[j])->0 == id,
    decreases allow.len(),
{
    if allow.len() > 0 {
        let front = allow.drop_last();
        lemma_allow_ids(front, id);
        let before = allow_ids(front);
        let last = endpoint_token(allow.last())->0;
        let now = allow_ids(allow);
        if now.contains(id) {
            if before.contains(id) {
                let j = choose|j: int|
                    0 <= j < front.len() && endpoint_token(#[trigger] front[j])->0 == id;
                assert(allow[j] == front[j]);
            } else {
                let k = choose|k: int| 0 <= k < now.len() && now[k] == id;
                if k < before.len() {
                    assert(before[k] == id);
                }
                assert(allow[allow.len() - 1] == allow.last());
            }
        }
        if exists|j: int| 0 <= j < allow.len() && endpoint_token(#[trigger] allow[j])->0 == id {
            let j = choose|j: int|
                0 <= j < allow.len() && endpoint_token(#[trigger] allow[j])->0 == id;
            if j < front.len() {
                assert(front[j] == allow[j]);
                let k = choose|k: int| 0 <= k < before.len() && before[k] == id;
                assert(now[k] == id);
            } else if before.contains(last) {
                assert(now.contains(id));
            } else {
                assert(now[before.len() as int] == id);
            }
        }
    }
}

/// An allow list lets in exactly the ids that its entries write, everyone where
/// it is empty, and is refused where an entry writes none.
pub proof fn law_allow_list_lets_in_its_entries(
    catalog: Catalog,
    allow: Vec<String>,
    id: Seq<u8>,
    r: Result<Option<Vec<EndpointId>>, Error>,
)
    requires
        call_ensures(parse_tun_allow, (&catalog, &allow), r),
    ensures
        allow@.len() == 0 ==> r == Ok::<Option<Vec<EndpointId>>, Error>(None),
        r is Err <==> exists|j: int|
            0 <= j < allow@.len() && endpoint_token((#[trigger] allow@[j])@) is None,
        r matches Ok(Some(ids)) ==> (id_views(ids@).contains(id) <==> exists|j: int|
            0 <= j < allow@.len() && endpoint_token((#[trigger] allow@[j])@) == Some(id)),
        allow@.len() > 0 && r is Ok ==> r->Ok_0 is Some,
{
    let t = texts(allow@);
    lemma_first_bad_id(t);
    lemma_allow_ids(t, id);
    if r is Err {
        let i = first_bad_id(t)->0;
        assert(t[i] == allow@[i]@);
        assert(endpoint_token(allow@[i]@) is None);
    } else {
        assert forall|j: int| 0 <= j < allow@.len() implies endpoint_token(
            (#[trigger] allow@[j])@,
        ) is Some by {
            assert(t[j] == allow@[j]@);
        }
        if exists|j: int| 0 <= j < t.len() && endpoint_token(#[trigger] t[j])->0 == id {
            let j = choose|j: int| 0 <= j < t.len() && endpoint_token(#[trigger] t[j])->0 == id;
            assert(t[j] == allow@[j]@);
            assert(endpoint_token(allow@[j]@) == Some(id));
        }
        if exists|j: int|
            0 <= j < allow@.len() && endpoint_token((#[trigger] allow@[j])@) == Some(id) {
            let j = choose|j: int|
                0 <= j < allow@.len() && endpoint_token((#[trigger] allow@[j])@) == Some(id);
            assert(t[j] == allow@[j]@);
        }
    }
}

proof fn lemma_first_bad_url(urls: Seq<Seq<char>>)
    ensures
        match first_bad_url(urls) {
            None => forall|j: int| 0 <= j < urls.len() ==> is_relay_url(#[trigger] urls[j]),
            Some(i) => 0 <= i < urls.len() && !is_relay_url(urls[i]) && forall|j: int|
                0 <= j < i ==> is_relay_url(#[trigger] urls[j]),
        },
    decreases urls.len(),
{
    if urls.len() > 0 {
        let front = urls.drop_last();
        lemma_first_bad_url(front);
        match first_bad_url(front) {
            Some(i) => {
                assert forall|j: int| 0 <= j < i implies is_relay_url(#[trigger] urls[j]) by {
                    assert(front[j] == urls[j]);
                }
            },
            None => {
                assert forall|j: int| 0 <= j < front.len() implies is_relay_url(
                    #[trigger] urls[j],
                ) by {
                    assert(front[j] == urls[j]);
                }
            },
        }
    }
}

/// Every relay that is given must be a relay URL wherever it is used: where it
/// replaces the public ones, where it is added to them, which is not done where
/// they were declined, and where a peer is dialed, then with every relay and
/// address in order. The error names the first that is none, and those before
/// it are added all the same.
pub proof fn law_relays_must_be_urls(
    catalog: Catalog,
    relay: Vec<String>,
    relay_only: bool,
    no_n0: bool,
    peer: EndpointId,
    addrs: Vec<SocketAddr>,
    built: Result<EndpointPlan, Error>,
    added: (Vec<String>, Option<Error>),
    dialed: Result<DialAddr, Error>,
    k: int,
)
    requires
        call_ensures(build_endpoint, (&catalog, &relay, relay_only, no_n0), built),
        call_ensures(install_extra_relays, (&catalog, &relay, no_n0), added),
        call_ensures(build_dial_addr, (&catalog, peer, &relay, addrs), dialed),
        0 <= k <= relay@.len(),
        forall|j: int| 0 <= j < k ==> is_relay_url((#[trigger] relay@[j])@),
        k < relay@.len() ==> !is_relay_url(relay@[k]@),
    ensures
        built is Err <==> no_n0 && k < relay@.len(),
        built matches Ok(plan) ==> plan.relay_only == relay_only && (plan.base == RelayBase::Custom
            <==> no_n0 && relay@.len() > 0),
        ({
            let (urls, bad) = added;
            &&& no_n0 ==> urls@.len() == 0 && bad is None
            &&& !no_n0 ==> urls@.len() == k && (bad is Some <==> k < relay@.len())
            &&& forall|j: int| 0 <= j < urls@.len() ==> (#[trigger] urls@[j])@ == relay@[j]@
        }),
        dialed is Ok <==> k == relay@.len(),
        dialed matches Ok(d) ==> d.id@ == peer@ && d.addrs@ == addrs@ && d.relays@.len()
            == relay@.len() && forall|j: int|
            0 <= j < relay@.len() ==> (#[trigger] d.relays@[j])@ == relay@[j]@,
{
    let t = texts(relay@);
    lemma_first_bad_url(t);
    assert forall|j: int| 0 <= j < k implies is_relay_url(#[trigger] t[j]) by {
        assert(is_relay_url(relay@[j]@));
    }
    if k < relay@.len() {
        assert(t[k] == relay@[k]@);
        assert(first_bad_url(t) == Some(k)) by {
            let i = first_bad_url(t)->0;
            if i < k {
                assert(is_relay_url(t[i]));
            }
        }
    } else if let Some(i) = first_bad_url(t) {
        assert(is_relay_url(t[i]));
    }
    let (urls, bad) = added;
    assert(texts(urls@).len() == urls@.len());
    assert forall|j: int| 0 <= j < urls@.len() implies (#[trigger] urls@[j])@ == relay@[j]@ by {
        assert(texts(urls@)[j] == urls@[j]@);
        assert(t[j] == relay@[j]@);
    }
    if let Ok(d) = dialed {
        assert(texts(d.relays@).len() == t.len());
        assert forall|j: int| 0 <= j < relay@.len() implies (#[trigger] d.relays@[j])@
            == relay@[j]@ by {
            assert(texts(d.relays@)[j] == t[j]);
        }
    }
}

} // verus!
