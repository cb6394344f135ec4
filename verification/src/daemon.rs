//! Starting, asking and stopping the call daemon.

use vstd::prelude::*;
use crate::exit;
use crate::exit::{failure, says, usage, Error};
use crate::i18n::{listed, looked_up, lookup, said, say1, say2, Catalog};
use crate::net::SocketAddr;
use crate::runtime::merge_allow_list;
use crate::stream_ctl::{CtlResponse, PendingCall, READY_TIMEOUT_SECS};
use crate::style::{lines_of, put, Line, Tone};
use crate::text::{
    chars_of, decimal, decimal_of, has_prefix, hex, hex_of, join, join_of, parse_u64, same_text,
    split_of, starts_with, string_of, texts, trim, trim_of, trim_start_at, trim_start_of,
    written_number,
};
use crate::time::{Duration, MILLISECOND, SECOND};

verus! {

/// How long a started daemon may take to answer, in seconds.
pub const PROBE_DEADLINE_SECS: u64 = 5;

/// Milliseconds between two probes of a daemon that starts or stops.
pub const PROBE_PAUSE_MS: u64 = 50;

/// How long `call` waits for the peer to answer, in seconds.
pub const ANSWER_WAIT_SECS: u64 = 2;

/// Milliseconds between two looks at whether the peer answered.
pub const ANSWER_PAUSE_MS: u64 = 300;

/// How many streams the daemon serves at a time.
pub const WORKER_MAX_CONNS: usize = 1024;

/// The daemon's keepalive interval, in seconds.
pub const WORKER_KEEPALIVE_SECS: u64 = 5;

/// The daemon's idle timeout, in seconds.
pub const WORKER_IDLE_SECS: u64 = 30;

/// What `call up` was asked.
#[derive(Clone, Copy, Debug, PartialEq, Eq, Structural)]
pub struct UpOpts {
    pub listen: Option<SocketAddr>,
    pub forward: Option<SocketAddr>,
    pub foreground: bool,
}

/// How the phone is started.
#[derive(Clone, Copy, Debug, PartialEq, Eq, Structural)]
pub enum UpPlan {
    /// In this process.
    Foreground,
    /// As a daemon.
    Background,
}

/// How the phone is started. A daemon reads its identity from a file, so an
/// identity that is in memory alone will not do.
pub fn plan_up(catalog: &Catalog, opts: &UpOpts, has_identity: bool) -> (r: Result<UpPlan, Error>)
    ensures
        if opts.foreground {
            r == Ok::<UpPlan, Error>(UpPlan::Foreground)
        } else if has_identity {
            r == Ok::<UpPlan, Error>(UpPlan::Background)
        } else {
            r is Err && says(
                r->Err_0,
                looked_up(
                    catalog@,
                    "background `call up` needs a persistent identity (omit --ephemeral or use --foreground)"@,
                ),
                Some(exit::USAGE),
            )
        },
{
    if opts.foreground {
        return Ok(UpPlan::Foreground);
    }
    if !has_identity {
        return Err(
            usage(
                lookup(
                    catalog,
                    "background `call up` needs a persistent identity (omit --ephemeral or use --foreground)",
                ),
            ),
        );
    }
    Ok(UpPlan::Background)
}

/// Whether this process is a daemon's worker: its parent marked it, and the
/// system is one that has daemons.
pub fn is_worker_process(unix: bool, marked: bool) -> (r: bool)
    ensures
        r == (unix && marked),
{
    unix && marked
}

/// Whether a daemon runs, and its status where it does.
#[derive(Debug)]
pub enum Liveness {
    Running { status: CtlResponse },
    NotRunning,
}

/// What the answer to a status request says of the daemon. Without an answer
/// there is none; `shown` is what an answer of another kind looks like.
pub fn probe_outcome(catalog: &Catalog, answer: Option<CtlResponse>, shown: String) -> (r: Result<
    Liveness,
    Error,
>)
    ensures
        match answer {
            Some(status) => if status is Status {
                r == Ok::<Liveness, Error>(Liveness::Running { status })
            } else {
                r is Err && says(
                    r->Err_0,
                    said(
                        catalog@,
                        "unexpected Status response from call daemon: {0}"@,
                        seq![shown@],
                    ),
                    None,
                )
            },
            None => r == Ok::<Liveness, Error>(Liveness::NotRunning),
        },
{
    match answer {
        Some(status) => {
            let is_status = match &status {
                CtlResponse::Status { .. } => true,
                _ => false,
            };
            if is_status {
                Ok(Liveness::Running { status })
            } else {
                Err(
                    Error::msg(
                        say1(catalog, "unexpected Status response from call daemon: {0}", shown),
                    ),
                )
            }
        },
        None => Ok(Liveness::NotRunning),
    }
}

/// What the answer to a command comes to.
pub fn expect_ok(catalog: &Catalog, answer: CtlResponse, shown: String) -> (r: Result<(), Error>)
    ensures
        match answer {
            CtlResponse::Success => r is Ok,
            CtlResponse::Failure { code, message } => r is Err && says(
                r->Err_0,
                message@,
                Some(code),
            ),
            _ => r is Err && says(
                r->Err_0,
                said(catalog@, "unexpected control response: {0}"@, seq![shown@]),
                None,
            ),
        },
{
    match answer {
        CtlResponse::Success => Ok(()),
        CtlResponse::Failure { code, message } => Err(failure(code, message)),
        _ => Err(Error::msg(say1(catalog, "unexpected control response: {0}", shown))),
    }
}

/// The error of a daemon that does not answer.
pub fn request_timeout(catalog: &Catalog) -> (r: Error)
    ensures
        says(
            r,
            looked_up(catalog@, "stream call control request timed out"@),
            Some(exit::CONNECT),
        ),
{
    failure(exit::CONNECT, lookup(catalog, "stream call control request timed out"))
}

/// Refuses to start a second daemon.
pub fn check_not_running(catalog: &Catalog, live: &Liveness) -> (r: Result<(), Error>)
    ensures
        match *live {
            Liveness::NotRunning => r is Ok,
            Liveness::Running { .. } => r is Err && says(
                r->Err_0,
                looked_up(catalog@, "stream call daemon is already running"@),
                Some(exit::USAGE),
            ),
        },
{
    match live {
        Liveness::NotRunning => Ok(()),
        Liveness::Running { .. } => Err(already_running(catalog)),
    }
}

/// The error of a second daemon.
pub fn already_running(catalog: &Catalog) -> (r: Error)
    ensures
        says(
            r,
            looked_up(catalog@, "stream call daemon is already running"@),
            Some(exit::USAGE),
        ),
{
    usage(lookup(catalog, "stream call daemon is already running"))
}

/// What a daemon's environment is made of; addresses are as text.
#[derive(Debug)]
pub struct WorkerSetup {
    pub ready: String,
    pub session: String,
    pub nonce: String,
    pub listen: Option<String>,
    pub forward: Option<String>,
    pub relay: Vec<String>,
    pub no_n0: bool,
    pub relay_only: bool,
}

/// A variable of an environment.
#[derive(Debug)]
pub struct EnvVar {
    pub key: String,
    pub value: String,
}

/// Variables as plain values.
pub open spec fn vars_of(v: Seq<EnvVar>) -> Seq<(Seq<char>, Seq<char>)> {
    v.map_values(|e: EnvVar| (e.key@, e.value@))
}

fn set_var(out: &mut Vec<EnvVar>, key: &str, value: String)
    ensures
        vars_of(final(out)@) == vars_of(old(out)@).push((key@, value@)),
{
    let ghost before = vars_of(out@);
    let ghost v = value@;
    out.push(EnvVar { key: key.to_owned(), value });
    proof {
        assert(vars_of(out@) =~= before.push((key@, v)));
    }
}

/// One variable, or none.
pub open spec fn maybe_var(set: bool, key: Seq<char>, value: Seq<char>) -> Seq<
    (Seq<char>, Seq<char>),
> {
    if set {
        seq![(key, value)]
    } else {
        Seq::empty()
    }
}

/// What a worker is told by its environment, beside its identity file and
/// what it inherits.
pub open spec fn worker_vars(s: WorkerSetup) -> Seq<(Seq<char>, Seq<char>)> {
    seq![
        ("LINK_P2P_CALL_WORKER"@, "1"@),
        ("LINK_P2P_CALL_READY"@, s.ready@),
        ("LINK_P2P_CALL_SESSION"@, s.session@),
        ("LINK_P2P_CALL_READY_NONCE"@, s.nonce@),
    ] + maybe_var(s.listen is Some, "LINK_P2P_CALL_LISTEN"@, s.listen->0@) + maybe_var(
        s.forward is Some,
        "LINK_P2P_CALL_FORWARD"@,
        s.forward->0@,
    ) + maybe_var(s.relay@.len() > 0, "LINK_P2P_RELAY"@, join_of(texts(s.relay@), ","@))
        + maybe_var(s.no_n0, "LINK_P2P_NO_N0_RELAYS"@, "1"@) + maybe_var(
        s.relay_only,
        "LINK_P2P_RELAY_ONLY"@,
        "1"@,
    )
}

/// The environment of a worker.
pub fn worker_env(s: &WorkerSetup) -> (r: Vec<EnvVar>)
    ensures
        vars_of(r@) == worker_vars(*s),
{
    let mut out: Vec<EnvVar> = Vec::new();
    proof {
        assert(vars_of(out@) =~= Seq::empty());
    }
    set_var(&mut out, "LINK_P2P_CALL_WORKER", "1".to_owned());
    set_var(&mut out, "LINK_P2P_CALL_READY", s.ready.clone());
    set_var(&mut out, "LINK_P2P_CALL_SESSION", s.session.clone());
    set_var(&mut out, "LINK_P2P_CALL_READY_NONCE", s.nonce.clone());
    match &s.listen {
        Some(a) => {
            set_var(&mut out, "LINK_P2P_CALL_LISTEN", a.clone());
        },
        None => {},
    }
    match &s.forward {
        Some(a) => {
            set_var(&mut out, "LINK_P2P_CALL_FORWARD", a.clone());
        },
        None => {},
    }
    if s.relay.len() > 0 {
        set_var(&mut out, "LINK_P2P_RELAY", join(&s.relay, ","));
    }
    if s.no_n0 {
        set_var(&mut out, "LINK_P2P_NO_N0_RELAYS", "1".to_owned());
    }
    if s.relay_only {
        set_var(&mut out, "LINK_P2P_RELAY_ONLY", "1".to_owned());
    }
    proof {
        assert(vars_of(out@) =~= worker_vars(*s));
    }
    out
}

/// The variables that a worker inherits where they are set.
pub fn inherited_keys() -> (r: [&'static str; 7])
    ensures
        r@[0]@ == "LINK_P2P_PASSPHRASE"@,
        r@[1]@ == "RUST_LOG"@,
        r@[2]@ == "LANGUAGE"@,
        r@[3]@ == "LANG"@,
        r@[4]@ == "LC_ALL"@,
        r@[5]@ == "LINK_P2P_LOCALEDIR"@,
        r@[6]@ == "XDG_CONFIG_HOME"@,
{
    [
        "LINK_P2P_PASSPHRASE",
        "RUST_LOG",
        "LANGUAGE",
        "LANG",
        "LC_ALL",
        "LINK_P2P_LOCALEDIR",
        "XDG_CONFIG_HOME",
    ]
}

/// The relays that a worker's environment names.
pub fn relays_from_env(env: &Option<String>) -> (r: Vec<String>)
    ensures
        texts(r@) == (match *env {
            Some(s) => listed(split_of(s@, ',')),
            None => Seq::empty(),
        }),
{
    let none: Vec<String> = Vec::new();
    proof {
        assert(texts(none@) =~= Seq::empty());
    }
    merge_allow_list(none, env)
}

/// How long to wait for a starting daemon; the variable
/// `LINK_P2P_CALL_READY_TIMEOUT_MS` may say otherwise.
pub fn ready_timeout(env: &Option<String>) -> (r: Duration)
    ensures
        r.nanos == (match *env {
            Some(s) => match written_number(s@) {
                Some(ms) => (ms * MILLISECOND) as int,
                None => READY_TIMEOUT_SECS * SECOND,
            },
            None => READY_TIMEOUT_SECS * SECOND,
        }),
{
    match env {
        Some(s) => match parse_u64(s.as_str()) {
            Some(ms) => Duration::from_millis(ms),
            None => Duration::from_secs(READY_TIMEOUT_SECS),
        },
        None => Duration::from_secs(READY_TIMEOUT_SECS),
    }
}

/// What a line on the ready socket says, where the worker wrote it: it begins
/// with the nonce and a space.
pub fn ready_line(nonce: &str, line: &str) -> (r: Option<String>)
    ensures
        ({
            let prefix = nonce@.push(' ');
            match r {
                Some(rest) => starts_with(line@, prefix) && rest@ == line@.skip(
                    prefix.len() as int,
                ),
                None => !starts_with(line@, prefix),
            }
        }),
{
    let mut prefix = chars_of(nonce);
    prefix.push(' ');
    let v = chars_of(line);
    if has_prefix(&v, &prefix) {
        let rest = string_of(&v, prefix.len(), v.len());
        proof {
            assert(v@.subrange(prefix@.len() as int, v@.len() as int) =~= v@.skip(
                prefix@.len() as int,
            ));
        }
        Some(rest)
    } else {
        None
    }
}

/// What the worker reported: `OK`, or why it failed.
pub fn ready_outcome(catalog: &Catalog, said_line: &str) -> (r: Result<(), Error>)
    ensures
        if starts_with(trim_start_of(said_line@), "OK"@) {
            r is Ok
        } else {
            r is Err && says(
                r->Err_0,
                said(catalog@, "call daemon failed to start: {0}"@, seq![trim_of(said_line@)]),
                None,
            )
        },
{
    let v = chars_of(said_line);
    let a: usize = trim_start_at(&v, 0, v.len());
    let front = string_of(&v, a, v.len());
    let w = chars_of(front.as_str());
    proof {
        assert(v@.subrange(0, v@.len() as int) =~= v@);
    }
    if has_prefix(&w, &chars_of("OK")) {
        return Ok(());
    }
    Err(Error::msg(say1(catalog, "call daemon failed to start: {0}", trim(said_line))))
}

/// The error of a worker that never reported.
pub fn ready_timed_out(catalog: &Catalog) -> (r: Error)
    ensures
        says(r, looked_up(catalog@, "timed out waiting for call daemon ready"@), None),
{
    Error::msg(lookup(catalog, "timed out waiting for call daemon ready"))
}

/// What a worker writes when it is ready.
pub fn ok_report(nonce: &str) -> (r: String)
    ensures
        r@ == nonce@ + " OK\n"@,
{
    let mut out = nonce.to_owned();
    out.append(" OK\n");
    out
}

/// What a worker writes when it failed.
pub fn error_report(nonce: &str, report: &str) -> (r: String)
    ensures
        r@ == nonce@ + " ERROR: "@ + report@ + "\n"@,
{
    let mut out = nonce.to_owned();
    out.append(" ERROR: ");
    out.append(report);
    out.append("\n");
    out
}

/// A worker that reported itself ready is understood as such.
pub proof fn law_ready_report_is_understood(nonce: Seq<char>)
    ensures
        starts_with(nonce + " OK\n"@, nonce.push(' ')),
        starts_with(
            trim_start_of((nonce + " OK\n"@).skip(nonce.push(' ').len() as int)),
            "OK"@,
        ),
{
    reveal_strlit(" OK\n");
    reveal_strlit("OK");
    let line = nonce + " OK\n"@;
    let prefix = nonce.push(' ');
    assert(line.take(prefix.len() as int) =~= prefix);
    let rest = line.skip(prefix.len() as int);
    assert(rest =~= seq!['O', 'K', '\n']);
    assert(trim_start_of(rest) == rest);
    assert(rest.take(2) =~= "OK"@);
}

/// What the answer of a started daemon comes to: `true` when it is the one
/// that was started, `false` to ask again.
pub fn after_probe(catalog: &Catalog, live: &Liveness, session: &str, in_time: bool) -> (r: Result<
    bool,
    Error,
>)
    ensures
        match *live {
            Liveness::Running { status: CtlResponse::Status { session: s, .. } } => if s@
                == session@ {
                r == Ok::<bool, Error>(true)
            } else {
                r is Err && says(
                    r->Err_0,
                    looked_up(catalog@, "call daemon started with unexpected session"@),
                    None,
                )
            },
            Liveness::Running { .. } => r is Err && says(
                r->Err_0,
                looked_up(catalog@, "call daemon started with unexpected session"@),
                None,
            ),
            Liveness::NotRunning => if in_time {
                r == Ok::<bool, Error>(false)
            } else {
                r is Err && says(
                    r->Err_0,
                    looked_up(catalog@, "call daemon did not become ready"@),
                    None,
                )
            },
        },
{
    match live {
        Liveness::Running { status } => {
            let same = match status {
                CtlResponse::Status { session: s, .. } => same_text(s.as_str(), session),
                _ => false,
            };
            if same {
                Ok(true)
            } else {
                Err(Error::msg(lookup(catalog, "call daemon started with unexpected session")))
            }
        },
        Liveness::NotRunning => {
            if in_time {
                Ok(false)
            } else {
                Err(Error::msg(lookup(catalog, "call daemon did not become ready")))
            }
        },
    }
}

/// The file that names the running daemon.
#[derive(Debug)]
pub struct PidRecord {
    pub pid: u32,
    pub session: String,
    pub started_unix_ms: u64,
}

impl PidRecord {
    /// The file's text.
    pub fn encode(&self) -> (r: String)
        ensures
            r@ == "pid="@ + decimal_of(self.pid as nat) + "\nsession="@ + self.session@
                + "\nstarted_unix_ms="@ + decimal_of(self.started_unix_ms as nat) + "\n"@,
    {
        let mut out = "pid=".to_owned();
        out.append(decimal(self.pid as u64).as_str());
        out.append("\nsession=");
        out.append(self.session.as_str());
        out.append("\nstarted_unix_ms=");
        out.append(decimal(self.started_unix_ms).as_str());
        out.append("\n");
        out
    }
}

/// A session's name: the number's eight bytes in hexadecimal, most
/// significant first.
pub fn session_name(bytes: &[u8; 8]) -> (r: String)
    ensures
        r@ == hex_of(bytes@),
{
    hex(bytes.as_slice())
}

/// What is shown once a daemon has started.
pub fn started_lines(catalog: &Catalog, pid: u32, log: Option<String>) -> (r: Vec<Line>)
    ensures
        lines_of(r@) == seq![
            (
                0u8,
                Tone::Good,
                said(
                    catalog@,
                    "stream call daemon started (pid {0})"@,
                    seq![decimal_of(pid as nat)],
                ),
            ),
        ] + (match log {
            Some(p) => seq![(0u8, Tone::Dim, said(catalog@, "logs: {0}"@, seq![p@]))],
            None => Seq::empty(),
        }),
{
    let mut out: Vec<Line> = Vec::new();
    put(
        &mut out,
        0,
        Tone::Good,
        say1(catalog, "stream call daemon started (pid {0})", decimal(pid as u64)),
    );
    match log {
        Some(p) => {
            put(&mut out, 0, Tone::Dim, say1(catalog, "logs: {0}", p));
        },
        None => {},
    }
    out
}

/// What `call status` shows; the addresses of the status are given as text.
pub fn status_lines(
    catalog: &Catalog,
    live: &Liveness,
    listen: Option<String>,
    forward: Option<String>,
) -> (r: Result<Vec<Line>, Error>)
    ensures
        match *live {
            Liveness::Running { status: CtlResponse::Status {
                role,
                uptime_secs,
                session,
                phase,
                pending_calls,
                ..
            } } => r is Ok && lines_of(r->Ok_0@) == seq![
                (0u8, Tone::Good, said(catalog@, "role {0}  phase {1}"@, seq![role@, phase@])),
                (
                    0u8,
                    Tone::Dim,
                    said(
                        catalog@,
                        "uptime {0}s  session {1}"@,
                        seq![decimal_of(uptime_secs as nat), session@],
                    ),
                ),
            ] + (match listen {
                Some(a) => seq![(0u8, Tone::Dim, said(catalog@, "listen {0}"@, seq![a@]))],
                None => Seq::empty(),
            }) + (match forward {
                Some(a) => seq![(0u8, Tone::Dim, said(catalog@, "forward {0}"@, seq![a@]))],
                None => Seq::empty(),
            }) + (if pending_calls@.len() > 0 {
                seq![
                    (
                        0u8,
                        Tone::Info,
                        said(
                            catalog@,
                            "{0} ringing call(s) — `link-p2p call ring`"@,
                            seq![decimal_of(pending_calls@.len())],
                        ),
                    ),
                ]
            } else {
                Seq::empty()
            }),
            Liveness::Running { .. } => r is Ok && r->Ok_0@.len() == 0,
            Liveness::NotRunning => r is Err && r->Err_0.wf() && r->Err_0@ == seq![
                (not_running_text(catalog@), Some(exit::DAEMON_NOT_RUNNING)),
            ],
        },
{
    let mut out: Vec<Line> = Vec::new();
    proof {
        assert(lines_of(out@) =~= Seq::empty());
    }
    match live {
        Liveness::NotRunning => Err(crate::stream_ctl::not_running(catalog)),
        Liveness::Running { status } => {
            match status {
                CtlResponse::Status { role, uptime_secs, session, phase, pending_calls, .. } => {
                    put(
                        &mut out,
                        0,
                        Tone::Good,
                        say2(catalog, "role {0}  phase {1}", role.clone(), phase.clone()),
                    );
                    put(
                        &mut out,
                        0,
                        Tone::Dim,
                        say2(
                            catalog,
                            "uptime {0}s  session {1}",
                            decimal(*uptime_secs),
                            session.clone(),
                        ),
                    );
                    match listen {
                        Some(a) => {
                            put(&mut out, 0, Tone::Dim, say1(catalog, "listen {0}", a));
                        },
                        None => {},
                    }
                    match forward {
                        Some(a) => {
                            put(&mut out, 0, Tone::Dim, say1(catalog, "forward {0}", a));
                        },
                        None => {},
                    }
                    if pending_calls.len() > 0 {
                        put(
                            &mut out,
                            0,
                            Tone::Info,
                            say1(
                                catalog,
                                "{0} ringing call(s) — `link-p2p call ring`",
                                decimal(pending_calls.len() as u64),
                            ),
                        );
                    }
                },
                _ => {},
            }
            Ok(out)
        },
    }
}

/// What is said where no daemon runs.
pub open spec fn not_running_text(catalog: Map<Seq<char>, Seq<char>>) -> Seq<char> {
    looked_up(catalog, "stream call daemon is not running (try: link-p2p call up)"@)
}

/// What `call ring` prints: the ringing calls, one in a line, to stdout.
#[derive(Debug)]
pub enum RingOutput {
    /// None ring; a hint.
    Nothing(String),
    Calls(Vec<String>),
}

/// A line of `call ring`: the peer, a tab, and since when it rings.
pub open spec fn ring_row(c: PendingCall) -> Seq<char> {
    c.peer@ + "\t"@ + decimal_of(c.since_unix_ms as nat)
}

/// What `call ring` prints.
pub fn ring_output(catalog: &Catalog, live: &Liveness) -> (r: Result<RingOutput, Error>)
    ensures
        match *live {
            Liveness::Running { status: CtlResponse::Status { pending_calls, .. } } => match r {
                Ok(RingOutput::Nothing(s)) => pending_calls@.len() == 0 && s@ == looked_up(
                    catalog@,
                    "no ringing calls"@,
                ),
                Ok(RingOutput::Calls(v)) => pending_calls@.len() > 0 && texts(v@)
                    == pending_calls@.map_values(|c: PendingCall| ring_row(c)),
                Err(_) => false,
            },
            Liveness::Running { .. } => r is Err && says(
                r->Err_0,
                looked_up(catalog@, "unexpected status response"@),
                None,
            ),
            Liveness::NotRunning => r is Err && r->Err_0.wf() && r->Err_0@ == seq![
                (not_running_text(catalog@), Some(exit::DAEMON_NOT_RUNNING)),
            ],
        },
{
    match live {
        Liveness::NotRunning => Err(crate::stream_ctl::not_running(catalog)),
        Liveness::Running { status } => match status {
            CtlResponse::Status { pending_calls, .. } => {
                if pending_calls.len() == 0 {
                    return Ok(RingOutput::Nothing(lookup(catalog, "no ringing calls")));
                }
                let mut out: Vec<String> = Vec::new();
                let mut i: usize = 0;
                while i < pending_calls.len()
                    invariant
                        i <= pending_calls@.len(),
                        out@.len() == i,
                        forall|j: int|
                            0 <= j < i ==> (#[trigger] out@[j])@ == ring_row(pending_calls@[j]),
                    decreases pending_calls@.len() - i,
                {
                    let mut row = pending_calls[i].peer.clone();
                    row.append("\t");
                    row.append(decimal(pending_calls[i].since_unix_ms).as_str());
                    out.push(row);
                    i = i + 1;
                }
                proof {
                    assert(texts(out@) =~= pending_calls@.map_values(|c: PendingCall| ring_row(c)));
                }
                Ok(RingOutput::Calls(out))
            },
            _ => Err(Error::msg(lookup(catalog, "unexpected status response"))),
        },
    }
}

/// Whether a status says that a call stands.
pub open spec fn connected_in(live: Liveness) -> bool {
    live matches Liveness::Running { status: CtlResponse::Status { phase, .. } } && phase@
        == "connected"@
}

/// Whether an answer to a request for the peers names one.
pub open spec fn peer_in(answer: Option<CtlResponse>) -> bool {
    answer matches Some(CtlResponse::Peers { peers }) && peers@.len() > 0
}

/// Whether a status says that a call stands.
pub fn says_connected(live: &Liveness) -> (r: bool)
    ensures
        r == connected_in(*live),
{
    match live {
        Liveness::Running { status } => match status {
            CtlResponse::Status { phase, .. } => same_text(phase.as_str(), "connected"),
            _ => false,
        },
        Liveness::NotRunning => false,
    }
}

/// Whether an answer to a request for the peers names one.
pub fn names_a_peer(answer: &Option<CtlResponse>) -> (r: bool)
    ensures
        r == peer_in(*answer),
{
    match answer {
        Some(a) => match a {
            CtlResponse::Peers { peers } => peers.len() > 0,
            _ => false,
        },
        None => false,
    }
}

/// Whether to wait on for a daemon that was told to stop: as long as it runs
/// and there is time.
pub fn waits_for_stop(live: &Liveness, in_time: bool) -> (r: bool)
    ensures
        r == (*live is Running && in_time),
{
    match live {
        Liveness::Running { .. } => in_time,
        Liveness::NotRunning => false,
    }
}

/// What happened while calling a peer.
#[derive(Debug)]
pub enum CallEvent {
    /// It was seen whether a daemon runs.
    Probed(Liveness),
    /// A daemon was started.
    Started,
    /// The daemon took the call.
    Sent,
    /// The daemon told its status.
    Status(Liveness),
    /// The daemon was asked for its peers; `None` where it did not answer.
    Peers(Option<CtlResponse>),
    /// A pause went by.
    Paused,
}

/// What calling a peer does next.
#[derive(Clone, Copy, Debug, PartialEq, Eq, Structural)]
pub enum CallAction {
    StartDaemon,
    SendCall,
    AskStatus,
    AskPeers,
    Pause,
    /// Say this, and be done.
    Finish(CallNote),
}

/// What calling a peer does next: a daemon is started where none runs, the
/// call is handed to it, and its answer awaited unless that was declined.
/// `in_time` is whether the wait may still go on.
pub open spec fn call_step(event: CallEvent, no_wait: bool, in_time: bool) -> CallAction {
    match event {
        CallEvent::Probed(live) => if live is Running {
            CallAction::SendCall
        } else {
            CallAction::StartDaemon
        },
        CallEvent::Started => CallAction::SendCall,
        CallEvent::Sent => if no_wait {
            CallAction::Finish(CallNote::Queued)
        } else if in_time {
            CallAction::AskStatus
        } else {
            CallAction::Finish(CallNote::StillWaiting)
        },
        CallEvent::Status(live) => if connected_in(live) {
            CallAction::Finish(CallNote::Connected)
        } else {
            CallAction::AskPeers
        },
        CallEvent::Peers(answer) => if peer_in(answer) {
            CallAction::Finish(CallNote::Connected)
        } else {
            CallAction::Pause
        },
        CallEvent::Paused => if in_time {
            CallAction::AskStatus
        } else {
            CallAction::Finish(CallNote::StillWaiting)
        },
    }
}

/// What calling a peer does next.
pub fn next_call_step(event: &CallEvent, no_wait: bool, in_time: bool) -> (r: CallAction)
    ensures
        r == call_step(*event, no_wait, in_time),
{
    match event {
        CallEvent::Probed(live) => match live {
            Liveness::Running { .. } => CallAction::SendCall,
            Liveness::NotRunning => CallAction::StartDaemon,
        },
        CallEvent::Started => CallAction::SendCall,
        CallEvent::Sent => {
            if no_wait {
                CallAction::Finish(CallNote::Queued)
            } else if in_time {
                CallAction::AskStatus
            } else {
                CallAction::Finish(CallNote::StillWaiting)
            }
        },
        CallEvent::Status(live) => {
            if says_connected(live) {
                CallAction::Finish(CallNote::Connected)
            } else {
                CallAction::AskPeers
            }
        },
        CallEvent::Peers(answer) => {
            if names_a_peer(answer) {
                CallAction::Finish(CallNote::Connected)
            } else {
                CallAction::Pause
            }
        },
        CallEvent::Paused => {
            if in_time {
                CallAction::AskStatus
            } else {
                CallAction::Finish(CallNote::StillWaiting)
            }
        },
    }
}

/// A call is reported as connected only where the daemon said so, by its
/// phase or by naming a peer.
pub proof fn law_connected_is_reported_when_seen(event: CallEvent, no_wait: bool, in_time: bool)
    ensures
        call_step(event, no_wait, in_time) == CallAction::Finish(CallNote::Connected) <==> match event {
            CallEvent::Status(live) => connected_in(live),
            CallEvent::Peers(answer) => peer_in(answer),
            _ => false,
        },
{
}

/// What a command of `call` says while and after it runs.
#[derive(Clone, Copy, Debug, PartialEq, Eq, Structural)]
pub enum CallNote {
    NotRunning,
    Stopped,
    Starting,
    Calling,
    Queued,
    Connected,
    StillWaiting,
    Accepted,
    Rejected,
}

impl CallNote {
    /// The note's tone and text; `peer` is whom it is about.
    pub open spec fn shown(self, catalog: Map<Seq<char>, Seq<char>>, peer: Seq<char>) -> (
        Tone,
        Seq<char>,
    ) {
        match self {
            CallNote::NotRunning => (
                Tone::Dim,
                looked_up(catalog, "stream call daemon is not running"@),
            ),
            CallNote::Stopped => (Tone::Good, looked_up(catalog, "stream call daemon stopped"@)),
            CallNote::Starting => (Tone::Dim, looked_up(catalog, "starting stream call daemon…"@)),
            CallNote::Calling => (
                Tone::Info,
                said(catalog, "calling {0}… waiting for answer"@, seq![peer]),
            ),
            CallNote::Queued => (
                Tone::Dim,
                looked_up(catalog, "dial queued on the standing daemon"@),
            ),
            CallNote::Connected => (Tone::Good, said(catalog, "connected to {0}"@, seq![peer])),
            CallNote::StillWaiting => (
                Tone::Dim,
                looked_up(
                    catalog,
                    "waiting for answer — peer must have `call up` (or `call accept` if ringing); check `call status`"@,
                ),
            ),
            CallNote::Accepted => (
                Tone::Good,
                said(catalog, "accepted call from {0}"@, seq![peer]),
            ),
            CallNote::Rejected => (
                Tone::Good,
                said(catalog, "rejected call from {0}"@, seq![peer]),
            ),
        }
    }

    /// The note as a line.
    pub fn line(self, catalog: &Catalog, peer: &str) -> (r: Line)
        ensures
            r@ == (0u8, self.shown(catalog@, peer@).0, self.shown(catalog@, peer@).1),
    {
        let who = peer.to_owned();
        match self {
            CallNote::NotRunning => Line {
                indent: 0,
                tone: Tone::Dim,
                text: lookup(catalog, "stream call daemon is not running"),
            },
            CallNote::Stopped => Line {
                indent: 0,
                tone: Tone::Good,
                text: lookup(catalog, "stream call daemon stopped"),
            },
            CallNote::Starting => Line {
                indent: 0,
                tone: Tone::Dim,
                text: lookup(catalog, "starting stream call daemon…"),
            },
            CallNote::Calling => Line {
                indent: 0,
                tone: Tone::Info,
                text: say1(catalog, "calling {0}… waiting for answer", who),
            },
            CallNote::Queued => Line {
                indent: 0,
                tone: Tone::Dim,
                text: lookup(catalog, "dial queued on the standing daemon"),
            },
            CallNote::Connected => Line {
                indent: 0,
                tone: Tone::Good,
                text: say1(catalog, "connected to {0}", who),
            },
            CallNote::StillWaiting => Line {
                indent: 0,
                tone: Tone::Dim,
                text: lookup(
                    catalog,
                    "waiting for answer — peer must have `call up` (or `call accept` if ringing); check `call status`",
                ),
            },
            CallNote::Accepted => Line {
                indent: 0,
                tone: Tone::Good,
                text: say1(catalog, "accepted call from {0}", who),
            },
            CallNote::Rejected => Line {
                indent: 0,
                tone: Tone::Good,
                text: say1(catalog, "rejected call from {0}", who),
            },
        }
    }
}

/// A call is handed to a daemon that runs, and one is started first where none
/// does. It is then left alone where the caller does not wait; otherwise the
/// daemon is asked until it says that the call stands, by its status or by its
/// peers, and given up only when the time is over.
pub proof fn law_a_call_is_followed_to_its_end(
    live: Liveness,
    answer: Option<CtlResponse>,
    no_wait: bool,
    in_time: bool,
    probed: CallAction,
    started: CallAction,
    sent: CallAction,
    told: CallAction,
    listed_peers: CallAction,
    paused: CallAction,
)
    requires
        call_ensures(next_call_step, (&CallEvent::Probed(live), no_wait, in_time), probed),
        call_ensures(next_call_step, (&CallEvent::Started, no_wait, in_time), started),
        call_ensures(next_call_step, (&CallEvent::Sent, no_wait, in_time), sent),
        call_ensures(next_call_step, (&CallEvent::Status(live), no_wait, in_time), told),
        call_ensures(next_call_step, (&CallEvent::Peers(answer), no_wait, in_time), listed_peers),
        call_ensures(next_call_step, (&CallEvent::Paused, no_wait, in_time), paused),
    ensures
        live is Running ==> probed == CallAction::SendCall,
        live is NotRunning ==> probed == CallAction::StartDaemon,
        started == CallAction::SendCall,
        no_wait ==> sent == CallAction::Finish(CallNote::Queued),
        !no_wait && in_time ==> sent == CallAction::AskStatus,
        in_time ==> paused == CallAction::AskStatus,
        !in_time ==> paused == CallAction::Finish(CallNote::StillWaiting),
        (live matches Liveness::Running { status: CtlResponse::Status { phase, .. } } && phase@
            == "connected"@) ==> told == CallAction::Finish(CallNote::Connected),
        !(live matches Liveness::Running { status: CtlResponse::Status { phase, .. } } && phase@
            == "connected"@) ==> told == CallAction::AskPeers,
        (answer matches Some(CtlResponse::Peers { peers }) && peers@.len() > 0) ==> listed_peers
            == CallAction::Finish(CallNote::Connected),
        !(answer matches Some(CtlResponse::Peers { peers }) && peers@.len() > 0) ==> listed_peers
            == CallAction::Pause,
{
}

/// What a worker reports under its nonce is read under it, and under no nonce
/// that the report does not begin with: `OK` as a success, and anything else
/// as the failure that it tells of.
pub proof fn law_reports_are_read_under_their_nonce(
    catalog: Catalog,
    nonce: &str,
    line: &str,
    rest: Seq<char>,
    read: Option<String>,
    said_line: &str,
    r: Result<(), Error>,
)
    requires
        call_ensures(ready_line, (nonce, line), read),
        call_ensures(ready_outcome, (&catalog, said_line), r),
    ensures
        line@ == nonce@ + seq![' '] + rest ==> read is Some && read->0@ == rest,
        read matches Some(x) ==> line@ == nonce@ + seq![' '] + x@,
        said_line@ == "OK"@ + rest ==> r is Ok,
        said_line@.len() > 0 && !crate::text::is_space(said_line@[0]) && said_line@[0] != 'O' ==> r is Err,
{
    reveal_strlit("OK");
    let prefix = nonce@.push(' ');
    assert(prefix =~= nonce@ + seq![' ']);
    if line@ == nonce@ + seq![' '] + rest {
        assert(line@.take(prefix.len() as int) =~= prefix);
        assert(line@.skip(prefix.len() as int) =~= rest);
    }
    if let Some(x) = read {
        assert(line@ =~= nonce@ + seq![' '] + x@);
    }
    if said_line@ == "OK"@ + rest {
        assert(!crate::text::is_space(said_line@.first()));
        assert(trim_start_of(said_line@) == said_line@);
        assert(said_line@.take(2) =~= "OK"@);
    }
    if said_line@.len() > 0 && !crate::text::is_space(said_line@[0]) && said_line@[0] != 'O' {
        assert(trim_start_of(said_line@) == said_line@);
        if starts_with(said_line@, "OK"@) {
            assert(said_line@.take(2)[0] == "OK"@[0]);
        }
    }
}

/// A daemon that answers is the one that was started exactly where it names the
/// same session; without an answer it is asked again as long as there is time.
pub proof fn law_started_daemon_names_its_session(
    catalog: Catalog,
    live: Liveness,
    session: &str,
    in_time: bool,
    r: Result<bool, Error>,
)
    requires
        call_ensures(after_probe, (&catalog, &live, session, in_time), r),
    ensures
        r == Ok::<bool, Error>(true) <==> (live matches Liveness::Running {
            status: CtlResponse::Status { session: s, .. },
        } && s@ == session@),
        r == Ok::<bool, Error>(false) <==> live is NotRunning && in_time,
{
}

/// The phone runs in this process where that was asked for, with whatever
/// identity; in the background it needs one that a file holds.
pub proof fn law_daemons_need_an_identity(
    catalog: Catalog,
    opts: UpOpts,
    has_identity: bool,
    r: Result<UpPlan, Error>,
)
    requires
        call_ensures(plan_up, (&catalog, &opts, has_identity), r),
    ensures
        r == Ok::<UpPlan, Error>(UpPlan::Foreground) <==> opts.foreground,
        r == Ok::<UpPlan, Error>(UpPlan::Background) <==> !opts.foreground && has_identity,
{
}

/// A daemon is waited for as many milliseconds as the variable says, and half a
/// minute where it says nothing that is a number.
pub proof fn law_ready_timeout(
    ms: u64,
    text: String,
    bad: String,
    set: Duration,
    unset: Duration,
    unread: Duration,
)
    requires
        call_ensures(decimal, (ms,), text),
        bad@.len() == 0,
        call_ensures(ready_timeout, (&Some(text),), set),
        call_ensures(ready_timeout, (&None,), unset),
        call_ensures(ready_timeout, (&Some(bad),), unread),
    ensures
        set.nanos == ms * 1_000_000,
        unset.nanos == 30_000_000_000,
        unread == unset,
{
    crate::text::lemma_decimal_reads_back(ms as nat);
    assert(crate::text::is_digit(text@[0]));
}

proof fn lemma_listed_clean(parts: Seq<Seq<char>>)
    requires
        forall|i: int|
            0 <= i < parts.len() ==> (#[trigger] parts[i]).len() > 0 && trim_of(parts[i])
                == parts[i],
    ensures
        listed(parts) == parts,
    decreases parts.len(),
{
    if parts.len() > 0 {
        let front = parts.drop_last();
        assert forall|i: int| 0 <= i < front.len() implies (#[trigger] front[i]).len() > 0
            && trim_of(front[i]) == front[i] by {
            assert(parts[i].len() > 0);
        }
        lemma_listed_clean(front);
        assert(parts[parts.len() - 1].len() > 0);
        assert(front.push(parts.last()) =~= parts);
    } else {
        assert(parts =~= Seq::<Seq<char>>::empty());
    }
}

/// Whether an environment sets a variable to a value.
pub open spec fn sets(env: Seq<EnvVar>, key: Seq<char>, value: Seq<char>) -> bool {
    exists|i: int| 0 <= i < env.len() && (#[trigger] env[i]).key@ == key && env[i].value@ == value
}

proof fn lemma_sets(env: Seq<EnvVar>, i: int)
    requires
        0 <= i < env.len(),
    ensures
        sets(env, vars_of(env)[i].0, vars_of(env)[i].1),
{
    assert(env[i].key@ == vars_of(env)[i].0);
}

/// A worker reads from its environment the relays that its parent has, all of
/// them in order, and is told its session and nonce, and what it listens on and
/// forwards to where that is set.
pub proof fn law_worker_is_told_its_setup(
    s: WorkerSetup,
    env: Vec<EnvVar>,
    value: String,
    read: Vec<String>,
)
    requires
        call_ensures(worker_env, (&s,), env),
        s.relay@.len() > 0,
        forall|i: int|
            0 <= i < s.relay@.len() ==> (#[trigger] s.relay@[i])@.len() > 0 && trim_of(
                s.relay@[i]@,
            ) == s.relay@[i]@ && !s.relay@[i]@.contains(','),
        value@ == join_of(texts(s.relay@), ","@),
        call_ensures(relays_from_env, (&Some(value),), read),
    ensures
        sets(env@, "LINK_P2P_RELAY"@, value@),
        texts(read@) == texts(s.relay@),
        sets(env@, "LINK_P2P_CALL_WORKER"@, "1"@),
        sets(env@, "LINK_P2P_CALL_READY"@, s.ready@),
        sets(env@, "LINK_P2P_CALL_SESSION"@, s.session@),
        sets(env@, "LINK_P2P_CALL_READY_NONCE"@, s.nonce@),
        s.listen matches Some(a) ==> sets(env@, "LINK_P2P_CALL_LISTEN"@, a@),
        s.forward matches Some(a) ==> sets(env@, "LINK_P2P_CALL_FORWARD"@, a@),
        s.no_n0 ==> sets(env@, "LINK_P2P_NO_N0_RELAYS"@, "1"@),
        s.relay_only ==> sets(env@, "LINK_P2P_RELAY_ONLY"@, "1"@),
{
    reveal_strlit(",");
    assert(","@ =~= seq![',']);
    let t = texts(s.relay@);
    assert forall|i: int| 0 <= i < t.len() implies (#[trigger] t[i]).len() > 0 && trim_of(t[i])
        == t[i] && !t[i].contains(',') by {
        assert(s.relay@[i]@.len() > 0);
    }
    crate::text::lemma_join_split(t, ',');
    lemma_listed_clean(t);
    let v = vars_of(env@);
    assert(v.len() == env@.len());
    assert(v == worker_vars(s));
    assert(v.len() >= 5);
    lemma_sets(env@, 0);
    lemma_sets(env@, 1);
    lemma_sets(env@, 2);
    lemma_sets(env@, 3);
    let a = if s.listen is Some {
        1int
    } else {
        0
    };
    let b = if s.forward is Some {
        1int
    } else {
        0
    };
    let c = if s.no_n0 {
        1int
    } else {
        0
    };
    if s.listen is Some {
        assert(v[4] == ("LINK_P2P_CALL_LISTEN"@, s.listen->0@));
        lemma_sets(env@, 4);
    }
    if s.forward is Some {
        assert(v[4 + a] == ("LINK_P2P_CALL_FORWARD"@, s.forward->0@));
        lemma_sets(env@, 4 + a);
    }
    assert(v[4 + a + b] == ("LINK_P2P_RELAY"@, value@));
    lemma_sets(env@, 4 + a + b);
    if s.no_n0 {
        assert(v[5 + a + b] == ("LINK_P2P_NO_N0_RELAYS"@, "1"@));
        lemma_sets(env@, 5 + a + b);
    }
    if s.relay_only {
        assert(v[5 + a + b + c] == ("LINK_P2P_RELAY_ONLY"@, "1"@));
        lemma_sets(env@, 5 + a + b + c);
    }
}

/// `call ring` prints a line for each call that rings, in order: its peer, a
/// tab, and the time; where none rings it prints none.
pub proof fn law_every_ringing_call_is_printed(
    catalog: Catalog,
    live: Liveness,
    calls: Seq<PendingCall>,
    i: int,
    since: String,
    r: Result<RingOutput, Error>,
)
    requires
        call_ensures(ring_output, (&catalog, &live), r),
        live matches Liveness::Running { status: CtlResponse::Status { pending_calls, .. } }
            && pending_calls@ == calls,
        0 <= i < calls.len(),
        call_ensures(decimal, (calls[i].since_unix_ms,), since),
    ensures
        r matches Ok(RingOutput::Calls(v)) && v@.len() == calls.len() && v@[i]@ == calls[i].peer@
            + "\t"@ + since@,
{
    let v = r->Ok_0->Calls_0;
    assert(texts(v@).len() == v@.len());
    assert(texts(v@)[i] == v@[i]@);
}

} // verus!
