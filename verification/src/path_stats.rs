//! The rolling log of how sessions ran: directly or over a relay.

use vstd::prelude::*;
use crate::config::{config_dir_parts, config_file};
use crate::contacts::{encode_short_code, short_code};
use crate::endpoint::EndpointId;
use crate::path_kind::PathKind;
use crate::paths::Location;
use crate::text::{hex_of, same_text};
use crate::time::{Duration, MILLISECOND};

verus! {

/// Most lines that the log keeps.
pub const MAX_LINES: usize = 500;

/// One session.
#[derive(Debug)]
pub struct PathSample {
    /// Unix seconds.
    pub ts: u64,
    /// The command that the session belongs to.
    pub cmd: String,
    /// The peer's short code.
    pub peer_short: String,
    /// The peer's id.
    pub peer: String,
    /// The token of its path.
    pub path: String,
    /// Milliseconds until the path stood.
    pub upgrade_ms: Option<u64>,
    pub relay_only: bool,
}

/// Counts over the log.
#[derive(Debug)]
pub struct PathSummary {
    pub total: usize,
    pub direct: usize,
    pub relay: usize,
    pub relay_candidate: usize,
    pub unknown: usize,
    pub samples: Vec<PathSample>,
}

/// The log file.
pub fn stats_path(xdg_set: bool, home_set: bool) -> (r: Location)
    ensures
        r.base == config_dir_parts(xdg_set, home_set).0,
        r.names() == config_dir_parts(xdg_set, home_set).1.push("path-stats.jsonl"@),
{
    config_file(xdg_set, home_set, "path-stats.jsonl")
}

/// The last `max` elements of `s`.
pub open spec fn last_of<T>(s: Seq<T>, max: nat) -> Seq<T> {
    if s.len() <= max {
        s
    } else {
        s.skip(s.len() - max)
    }
}

/// The last `max` lines.
pub fn trim_lines(lines: Vec<String>, max: usize) -> (r: Vec<String>)
    ensures
        r@ == last_of(lines@, max as nat),
{
    let mut lines = lines;
    if lines.len() <= max {
        return lines;
    }
    let start: usize = lines.len() - max;
    let ghost before = lines@;
    let tail = lines.split_off(start);
    proof {
        assert(tail@ =~= before.skip(start as int));
    }
    tail
}

/// The log after one more line; only the last [`MAX_LINES`] are kept.
pub fn record_sample(lines: Vec<String>, line: String) -> (r: Vec<String>)
    ensures
        r@ == last_of(lines@.push(line), MAX_LINES as nat),
{
    let mut lines = lines;
    lines.push(line);
    trim_lines(lines, MAX_LINES)
}

/// Like [`record_sample`]; a sample that could not be written out as a line
/// is dropped.
pub fn record_sample_lossy(lines: Vec<String>, line: Option<String>) -> (r: Vec<String>)
    ensures
        r@ == (match line {
            Some(l) => last_of(lines@.push(l), MAX_LINES as nat),
            None => lines@,
        }),
{
    match line {
        Some(l) => record_sample(lines, l),
        None => lines,
    }
}

/// The log keeps the newest line and never grows over its limit.
pub proof fn law_log_is_bounded_and_keeps_the_newest(lines: Seq<String>, line: String)
    ensures
        last_of(lines.push(line), MAX_LINES as nat).len() <= MAX_LINES,
        last_of(lines.push(line), MAX_LINES as nat).len() > 0,
        last_of(lines.push(line), MAX_LINES as nat).last() == line,
        lines.len() < MAX_LINES ==> last_of(lines.push(line), MAX_LINES as nat) == lines.push(line),
{
}

/// The sample of a session.
pub fn sample_for(
    now_unix: u64,
    cmd: &str,
    peer: &EndpointId,
    path: PathKind,
    upgrade: Option<Duration>,
    relay_only: bool,
) -> (r: PathSample)
    ensures
        r.ts == now_unix,
        r.cmd@ == cmd@,
        r.peer_short@ == short_code(peer@),
        r.peer@ == hex_of(peer@),
        r.path@ == path.token(),
        r.upgrade_ms == (match upgrade {
            Some(d) => Some((d.nanos / MILLISECOND) as u64),
            None => None,
        }),
        r.relay_only == relay_only,
{
    let upgrade_ms: Option<u64> = match upgrade {
        Some(d) => Some(d.as_millis_u64()),
        None => None,
    };
    PathSample {
        ts: now_unix,
        cmd: cmd.to_owned(),
        peer_short: encode_short_code(peer),
        peer: peer.to_text(),
        path: path.as_str().to_owned(),
        upgrade_ms,
        relay_only,
    }
}

/// The samples among rows; a row without one was blank or damaged.
pub open spec fn samples_of(rows: Seq<Option<PathSample>>) -> Seq<PathSample>
    decreases rows.len(),
{
    if rows.len() == 0 {
        Seq::empty()
    } else {
        match rows.last() {
            Some(s) => samples_of(rows.drop_last()).push(s),
            None => samples_of(rows.drop_last()),
        }
    }
}

/// How many samples carry a path token.
pub open spec fn count_path(samples: Seq<PathSample>, token: Seq<char>) -> nat
    decreases samples.len(),
{
    if samples.len() == 0 {
        0
    } else {
        count_path(samples.drop_last(), token) + if samples.last().path@ == token {
            1nat
        } else {
            0nat
        }
    }
}

/// Whether a summary counts these samples; a path that is neither direct nor
/// one of the relay kinds counts as unknown.
pub open spec fn summarizes(sum: PathSummary, samples: Seq<PathSample>) -> bool {
    &&& sum.samples@ == samples
    &&& sum.total == samples.len()
    &&& sum.direct == count_path(samples, "direct"@)
    &&& sum.relay == count_path(samples, "relay"@)
    &&& sum.relay_candidate == count_path(samples, "relay+direct-candidate"@)
    &&& sum.direct + sum.relay + sum.relay_candidate + sum.unknown == sum.total
}

/// How many of the last lines are looked at.
pub open spec fn taken(len: nat, limit: Option<usize>) -> nat {
    match limit {
        Some(n) => if n <= len {
            n as nat
        } else {
            len
        },
        None => len,
    }
}

proof fn lemma_samples_len(rows: Seq<Option<PathSample>>)
    ensures
        samples_of(rows).len() <= rows.len(),
    decreases rows.len(),
{
    if rows.len() > 0 {
        lemma_samples_len(rows.drop_last());
    }
}

/// Counts the last `limit` rows of the log, or all of them.
pub fn load_summary(rows: Vec<Option<PathSample>>, limit: Option<usize>) -> (r: PathSummary)
    ensures
        summarizes(r, samples_of(last_of(rows@, taken(rows@.len(), limit)))),
{
    let mut rows = rows;
    let len: usize = rows.len();
    let take: usize = match limit {
        Some(n) => if n <= len {
            n
        } else {
            len
        },
        None => len,
    };
    let ghost all = rows@;
    let kept = rows.split_off(len - take);
    let ghost wanted = last_of(all, taken(all.len(), limit));
    proof {
        assert(kept@ =~= wanted);
        reveal_strlit("direct");
        reveal_strlit("relay");
        reveal_strlit("relay+direct-candidate");
        assert("direct"@.len() == 6);
        assert("relay"@.len() == 5);
        assert("relay+direct-candidate"@.len() == 22);
    }
    let mut sum = PathSummary {
        total: 0,
        direct: 0,
        relay: 0,
        relay_candidate: 0,
        unknown: 0,
        samples: Vec::new(),
    };
    proof {
        assert(kept@.take(0) =~= Seq::<Option<PathSample>>::empty());
        assert(sum.samples@ =~= samples_of(kept@.take(0)));
    }
    for row in it: kept
        invariant
            it.seq() == wanted,
            summarizes(sum, samples_of(wanted.take(it.index() as int))),
            wanted.len() <= usize::MAX,
            "direct"@.len() == 6,
            "relay"@.len() == 5,
            "relay+direct-candidate"@.len() == 22,
    {
        proof {
            let k = it.index() as int;
            assert(wanted.take(k + 1).drop_last() =~= wanted.take(k));
            assert(wanted.take(k + 1).last() == row);
            lemma_samples_len(wanted.take(k));
        }
        if let Some(s) = row {
            let ghost before = sum.samples@;
            sum.total = sum.total + 1;
            if same_text(s.path.as_str(), "direct") {
                sum.direct = sum.direct + 1;
            } else if same_text(s.path.as_str(), "relay") {
                sum.relay = sum.relay + 1;
            } else if same_text(s.path.as_str(), "relay+direct-candidate") {
                sum.relay_candidate = sum.relay_candidate + 1;
            } else {
                sum.unknown = sum.unknown + 1;
            }
            sum.samples.push(s);
            proof {
                assert(sum.samples@.drop_last() =~= before);
            }
        }
    }
    proof {
        assert(wanted.take(wanted.len() as int) =~= wanted);
    }
    sum
}

/// How often the sessions with a peer were direct: the samples with that id,
/// and those among them that were direct.
pub fn peer_direct_history(sum: &PathSummary, peer: &str) -> (r: (u64, u64))
    ensures
        r.0 <= r.1,
        r.1 == peer_count(sum.samples@, peer@),
        r.0 == peer_direct_count(sum.samples@, peer@),
{
    let mut direct: u64 = 0;
    let mut total: u64 = 0;
    let mut i: usize = 0;
    while i < sum.samples.len()
        invariant
            i <= sum.samples@.len(),
            direct <= total <= i,
            total == peer_count(sum.samples@.take(i as int), peer@),
            direct == peer_direct_count(sum.samples@.take(i as int), peer@),
        decreases sum.samples@.len() - i,
    {
        proof {
            assert(sum.samples@.take(i + 1).drop_last() =~= sum.samples@.take(i as int));
        }
        if same_text(sum.samples[i].peer.as_str(), peer) {
            total = total + 1;
            if same_text(sum.samples[i].path.as_str(), "direct") {
                direct = direct + 1;
            }
        }
        i = i + 1;
    }
    proof {
        assert(sum.samples@.take(sum.samples@.len() as int) =~= sum.samples@);
    }
    (direct, total)
}

/// How many samples belong to a peer.
pub open spec fn peer_count(samples: Seq<PathSample>, peer: Seq<char>) -> nat
    decreases samples.len(),
{
    if samples.len() == 0 {
        0
    } else {
        peer_count(samples.drop_last(), peer) + if samples.last().peer@ == peer {
            1nat
        } else {
            0nat
        }
    }
}

/// How many samples of a peer were direct.
pub open spec fn peer_direct_count(samples: Seq<PathSample>, peer: Seq<char>) -> nat
    decreases samples.len(),
{
    if samples.len() == 0 {
        0
    } else {
        peer_direct_count(samples.drop_last(), peer) + if samples.last().peer@ == peer
            && samples.last().path@ == "direct"@ {
            1nat
        } else {
            0nat
        }
    }
}

/// The log after one more line is all it was and that line, of which the
/// oldest beyond 500 are gone; a session that gives no line leaves it.
pub proof fn law_log_keeps_the_last_lines(
    lines: Vec<String>,
    line: String,
    max: usize,
    trimmed: Vec<String>,
    r: Vec<String>,
    same: Vec<String>,
    k: int,
)
    requires
        call_ensures(trim_lines, (lines, max), trimmed),
        call_ensures(record_sample, (lines, line), r),
        call_ensures(record_sample_lossy, (lines, None), same),
    ensures
        same@ == lines@,
        trimmed@.len() == (if lines@.len() < max {
            lines@.len()
        } else {
            max as nat
        }),
        0 <= k < trimmed@.len() ==> trimmed@[trimmed@.len() - 1 - k] == lines@[lines@.len() - 1
            - k],
        r@.len() == (if lines@.len() < 500 {
            lines@.len() + 1
        } else {
            500
        }),
        r@.last() == line,
        0 < k < r@.len() ==> r@[r@.len() - 1 - k] == lines@[lines@.len() - k],
{
}

proof fn lemma_samples(rows: Seq<Option<PathSample>>)
    ensures
        samples_of(rows) == rows.filter(|row: Option<PathSample>| row is Some).map_values(
            |row: Option<PathSample>| row->0,
        ),
    decreases rows.len(),
{
    reveal(Seq::filter);
    let keep = |row: Option<PathSample>| row is Some;
    let get = |row: Option<PathSample>| row->0;
    if rows.len() > 0 {
        lemma_samples(rows.drop_last());
        let before = rows.drop_last().filter(keep);
        if rows.last() is Some {
            assert(rows.filter(keep) =~= before.push(rows.last()));
            assert(rows.filter(keep).map_values(get) =~= before.map_values(get).push(
                rows.last()->0,
            ));
        } else {
            assert(rows.filter(keep) =~= before);
        }
    } else {
        assert(rows.filter(keep).map_values(get) =~= samples_of(rows));
    }
}

/// The samples of a path.
pub open spec fn with_path(samples: Seq<PathSample>, token: Seq<char>) -> Seq<PathSample> {
    samples.filter(|s: PathSample| s.path@ == token)
}

/// The samples of a peer.
pub open spec fn with_peer(samples: Seq<PathSample>, peer: Seq<char>) -> Seq<PathSample> {
    samples.filter(|s: PathSample| s.peer@ == peer)
}

proof fn lemma_count(samples: Seq<PathSample>, token: Seq<char>)
    ensures
        count_path(samples, token) == with_path(samples, token).len(),
    decreases samples.len(),
{
    reveal(Seq::filter);
    if samples.len() > 0 {
        lemma_count(samples.drop_last(), token);
    }
}

/// A summary is of the readable ones among the last rows, as many as were
/// asked for, or of all; it lists them in order and counts each by its path.
pub proof fn law_summary_counts_the_last_rows(
    rows: Vec<Option<PathSample>>,
    limit: Option<usize>,
    r: PathSummary,
)
    requires
        call_ensures(load_summary, (rows, limit), r),
    ensures
        ({
            let from = if limit is Some && limit->0 < rows@.len() {
                rows@.len() - limit->0
            } else {
                0
            };
            let seen = rows@.skip(from).filter(|row: Option<PathSample>| row is Some).map_values(
                |row: Option<PathSample>| row->0,
            );
            &&& r.samples@ == seen
            &&& r.total == seen.len()
            &&& r.direct == with_path(seen, "direct"@).len()
            &&& r.relay == with_path(seen, "relay"@).len()
            &&& r.relay_candidate == with_path(seen, "relay+direct-candidate"@).len()
            &&& r.unknown == r.total - r.direct - r.relay - r.relay_candidate
        }),
{
    let from = if limit is Some && limit->0 < rows@.len() {
        rows@.len() - limit->0
    } else {
        0
    };
    let last = last_of(rows@, taken(rows@.len(), limit));
    assert(last =~= rows@.skip(from));
    lemma_samples(last);
    lemma_count(samples_of(last), "direct"@);
    lemma_count(samples_of(last), "relay"@);
    lemma_count(samples_of(last), "relay+direct-candidate"@);
    let seen = rows@.skip(from).filter(|row: Option<PathSample>| row is Some).map_values(
        |row: Option<PathSample>| row->0,
    );
    assert(samples_of(last) == seen);
}

proof fn lemma_peer_count(samples: Seq<PathSample>, peer: Seq<char>)
    ensures
        peer_count(samples, peer) == with_peer(samples, peer).len(),
        peer_direct_count(samples, peer) == with_path(with_peer(samples, peer), "direct"@).len(),
    decreases samples.len(),
{
    reveal(Seq::filter);
    if samples.len() > 0 {
        lemma_peer_count(samples.drop_last(), peer);
        let before = with_peer(samples.drop_last(), peer);
        let now = with_peer(samples, peer);
        if samples.last().peer@ == peer {
            assert(now.drop_last() =~= before);
            assert(now.last() == samples.last());
        }
    }
}

/// The history of a peer is how many of the listed sessions were with it, and
/// how many of those were direct.
pub proof fn law_history_counts_the_sessions_of_a_peer(
    sum: PathSummary,
    peer: &str,
    r: (u64, u64),
)
    requires
        call_ensures(peer_direct_history, (&sum, peer), r),
    ensures
        r.1 == with_peer(sum.samples@, peer@).len(),
        r.0 == with_path(with_peer(sum.samples@, peer@), "direct"@).len(),
{
    lemma_peer_count(sum.samples@, peer@);
}

/// A sample tells of the session what it was: its peer by id and short code,
/// its path by token, and how many milliseconds it took to stand.
pub proof fn law_sample_tells_of_the_session(
    now: u64,
    cmd: &str,
    peer: EndpointId,
    path: PathKind,
    took: Duration,
    relay_only: bool,
    shown: String,
    code: String,
    token: &'static str,
    r: PathSample,
)
    requires
        call_ensures(sample_for, (now, cmd, &peer, path, Some(took), relay_only), r),
        call_ensures(EndpointId::to_text, (&peer,), shown),
        call_ensures(encode_short_code, (&peer,), code),
        call_ensures(PathKind::as_str, (path,), token),
    ensures
        r.ts == now && r.cmd@ == cmd@ && r.relay_only == relay_only,
        r.peer@ == shown@ && r.peer_short@ == code@ && r.path@ == token@,
        took.nanos < 1_000_000 * 0x1_0000_0000_0000_0000 ==> r.upgrade_ms is Some && 1_000_000
            * r.upgrade_ms->0 <= took.nanos < 1_000_000 * r.upgrade_ms->0 + 1_000_000,
{
}

} // verus!
