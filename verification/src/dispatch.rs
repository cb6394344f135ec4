//! From the parsed command line to what runs: logging, settings, the
//! passphrase, the man page, and the path statistics.

use vstd::prelude::*;
use crate::config::{first_seen, merge_relay_urls, UserConfig};
use crate::exit;
use crate::exit::{chain_texts, says, usage, Error};
use crate::i18n::{looked_up, lookup, said, say1, say2, tr_fmt, Catalog};
use crate::identity::{passphrase_refusal, validate_passphrase};
use crate::path_stats::{PathSample, PathSummary};
use crate::style::{lines_of, put, Line, Styler, Tone};
use crate::text::{
    chars_of, decimal, decimal_of, hex_byte, join_of, lemma_split_nonempty, split, split_of,
    string_of, texts,
};

verus! {

/// The log filter where `RUST_LOG` does not say otherwise.
pub open spec fn filter_for(quiet: bool, verbose: u8) -> Seq<char> {
    if quiet {
        "link_p2p=warn,iroh=error"@
    } else if verbose == 0 {
        "link_p2p=info,iroh=warn"@
    } else if verbose == 1 {
        "link_p2p=debug,iroh=info"@
    } else {
        "link_p2p=trace,iroh=debug"@
    }
}

/// The log filter where `RUST_LOG` does not say otherwise.
pub fn default_filter(quiet: bool, verbose: u8) -> (r: &'static str)
    ensures
        r@ == filter_for(quiet, verbose),
{
    if quiet {
        "link_p2p=warn,iroh=error"
    } else if verbose == 0 {
        "link_p2p=info,iroh=warn"
    } else if verbose == 1 {
        "link_p2p=debug,iroh=info"
    } else {
        "link_p2p=trace,iroh=debug"
    }
}

/// The relay settings that a command runs with.
#[derive(Debug)]
pub struct RelaySettings {
    pub relay: Vec<String>,
    pub no_n0: bool,
    pub relay_only: bool,
}

/// The relay settings: the command line's relays, then those of the config
/// file; a switch is on where either turns it on.
pub fn relay_settings(relay: &Vec<String>, no_n0: bool, relay_only: bool, cfg: &UserConfig) -> (r:
    RelaySettings)
    ensures
        texts(r.relay@) == first_seen(texts(relay@) + texts(cfg.relays.urls@)),
        r.no_n0 == (no_n0 || cfg.relays.no_n0),
        r.relay_only == (relay_only || cfg.relays.relay_only),
{
    RelaySettings {
        relay: merge_relay_urls(relay, cfg),
        no_n0: no_n0 || cfg.relays.no_n0,
        relay_only: relay_only || cfg.relays.relay_only,
    }
}

/// The passphrase of the identity file: that of the command line where it was
/// given, else that of the environment. An empty one counts as none, and an
/// empty one on the command line hides the environment's.
pub fn choose_passphrase(cli: Option<String>, env: Option<String>) -> (r: Option<String>)
    ensures
        ({
            let chosen = if cli is Some {
                cli
            } else {
                env
            };
            match r {
                Some(p) => chosen == Some(p) && p@.len() > 0,
                None => chosen is None || chosen->0@.len() == 0,
            }
        }),
{
    let chosen = match cli {
        Some(p) => Some(p),
        None => env,
    };
    match chosen {
        Some(p) => {
            if p.as_str().unicode_len() == 0 {
                None
            } else {
                Some(p)
            }
        },
        None => None,
    }
}

/// The passphrase that is meant, if any.
pub open spec fn meant_passphrase(cli: Option<String>, env: Option<String>) -> Option<Seq<char>> {
    let chosen = if cli is Some {
        cli
    } else {
        env
    };
    match chosen {
        Some(p) => if p@.len() > 0 {
            Some(p@)
        } else {
            None
        },
        None => None,
    }
}

/// A checked passphrase.
#[derive(Debug)]
pub struct Passphrase {
    pub text: String,
    /// It stood on the command line, where others can see it.
    pub exposed: bool,
}

/// The passphrase of the identity file, checked before anything is derived
/// from it.
pub fn prepare_passphrase(catalog: &Catalog, cli: Option<String>, env: Option<String>) -> (r:
    Result<Option<Passphrase>, Error>)
    ensures
        match meant_passphrase(cli, env) {
            None => r matches Ok(None),
            Some(p) => match passphrase_refusal(catalog@, p) {
                Some(m) => r is Err && says(r->Err_0, m, Some(exit::USAGE)),
                None => r matches Ok(Some(x)) && x.text@ == p && x.exposed == (cli is Some),
            },
        },
{
    let exposed = cli.is_some();
    match choose_passphrase(cli, env) {
        None => Ok(None),
        Some(text) => match validate_passphrase(catalog, text.as_str()) {
            Err(e) => Err(e),
            Ok(_) => Ok(Some(Passphrase { text, exposed })),
        },
    }
}

/// The commands of the program.
#[derive(Clone, Copy, Debug, PartialEq, Eq, Structural)]
pub enum CommandKind {
    Completions,
    Man,
    Help,
    TunService,
    Selftest,
    TunSelftest,
    Stats,
    Serve,
    Connect,
    Ping,
    Call,
    Tun,
    Contact,
    Config,
}

/// What is set up before a command runs; each includes those before it.
#[derive(Clone, Copy, Debug, PartialEq, Eq, Structural)]
pub enum Setup {
    /// Nothing: the command only writes text.
    Nothing,
    /// Logging.
    Logging,
    /// The relays, merged and ordered.
    Relays,
    /// The identity.
    Identity,
}

/// What a command needs. Installing a service comes before the identity is
/// touched, whose default path may not be readable yet; the self test and the
/// statistics need none.
pub open spec fn needs(kind: CommandKind) -> Setup {
    match kind {
        CommandKind::Completions => Setup::Nothing,
        CommandKind::Man => Setup::Nothing,
        CommandKind::Help => Setup::Nothing,
        CommandKind::TunService => Setup::Logging,
        CommandKind::Selftest => Setup::Relays,
        CommandKind::TunSelftest => Setup::Relays,
        CommandKind::Stats => Setup::Relays,
        _ => Setup::Identity,
    }
}

/// What a command needs.
pub fn setup_for(kind: CommandKind) -> (r: Setup)
    ensures
        r == needs(kind),
{
    match kind {
        CommandKind::Completions => Setup::Nothing,
        CommandKind::Man => Setup::Nothing,
        CommandKind::Help => Setup::Nothing,
        CommandKind::TunService => Setup::Logging,
        CommandKind::Selftest => Setup::Relays,
        CommandKind::TunSelftest => Setup::Relays,
        CommandKind::Stats => Setup::Relays,
        _ => Setup::Identity,
    }
}

/// The error of asking for help on what is no subcommand.
pub fn unknown_subcommand(catalog: &Catalog, name: &str) -> (r: Error)
    ensures
        says(
            r,
            said(catalog@, "unrecognized subcommand '{0}'"@, seq![name@]),
            Some(exit::USAGE),
        ),
{
    usage(say1(catalog, "unrecognized subcommand '{0}'", name.to_owned()))
}

/// A line without the carriage return at its end.
pub open spec fn without_cr(line: Seq<char>) -> Seq<char> {
    if line.len() > 0 && line.last() == '\r' {
        line.drop_last()
    } else {
        line
    }
}

/// The lines of a text: pieces between line feeds, without carriage returns
/// at their ends, and without an empty piece behind the last line feed.
pub open spec fn text_lines(s: Seq<char>) -> Seq<Seq<char>> {
    let parts = split_of(s, '\n');
    let whole = if parts.last().len() == 0 {
        parts.drop_last()
    } else {
        parts
    };
    whole.map_values(|l: Seq<char>| without_cr(l))
}

/// Lines for troff: each ends in a line feed, and a leading dot is escaped.
pub open spec fn troff_lines(lines: Seq<Seq<char>>) -> Seq<char>
    decreases lines.len(),
{
    if lines.len() == 0 {
        Seq::empty()
    } else {
        troff_lines(lines.drop_last()) + (if lines.last().len() > 0 && lines.last()[0] == '.' {
            seq!['\\']
        } else {
            Seq::empty()
        }) + lines.last() + seq!['\n']
    }
}

/// The manual page: what the program is about, and its help text.
pub open spec fn man_text(about: Seq<char>, help: Seq<char>) -> Seq<char> {
    ".TH LINK-P2P 1\n.SH NAME\nlink-p2p \\- minimal TCP-over-QUIC forwarder on iroh\n.SH SYNOPSIS\nlink-p2p [OPTIONS] <COMMAND>\n.SH DESCRIPTION\n"@
        + about + "\n.SH OPTIONS\n"@ + troff_lines(text_lines(help))
        + ".SH SEE ALSO\ndocs/user-guide/platforms.md, docs/architecture/performance.md, README.md\n"@
}

/// The manual page in troff.
pub fn man_page(about: &str, help: &str) -> (r: String)
    ensures
        r@ == man_text(about@, help@),
{
    let mut out =
        ".TH LINK-P2P 1\n.SH NAME\nlink-p2p \\- minimal TCP-over-QUIC forwarder on iroh\n.SH SYNOPSIS\nlink-p2p [OPTIONS] <COMMAND>\n.SH DESCRIPTION\n".to_owned();
    out.append(about);
    out.append("\n.SH OPTIONS\n");
    let ghost front = out@;
    let parts = split(help, '\n');
    proof {
        lemma_split_nonempty(help@, '\n');
    }
    let len: usize = parts.len();
    let last_empty = parts[len - 1].as_str().unicode_len() == 0;
    let count: usize = if last_empty {
        len - 1
    } else {
        len
    };
    let ghost lines = text_lines(help@);
    proof {
        assert(texts(parts@).last() == parts@[len - 1]@);
        assert(lines.len() == count);
        assert forall|i: int| 0 <= i < count implies lines[i] == without_cr(
            (#[trigger] parts@[i])@,
        ) by {
            assert(texts(parts@)[i] == parts@[i]@);
        }
        assert(lines.take(0) =~= Seq::empty());
        assert(front + troff_lines(lines.take(0)) =~= front);
    }
    let mut i: usize = 0;
    while i < count
        invariant
            i <= count <= parts@.len(),
            lines.len() == count,
            forall|j: int| 0 <= j < count ==> lines[j] == without_cr((#[trigger] parts@[j])@),
            out@ == front + troff_lines(lines.take(i as int)),
        decreases count - i,
    {
        let ghost before = out@;
        let v = chars_of(parts[i].as_str());
        let n: usize = v.len();
        let end: usize = if n > 0 && v[n - 1] == '\r' {
            n - 1
        } else {
            n
        };
        let line = string_of(&v, 0, end);
        proof {
            assert(line@ =~= without_cr(parts@[i as int]@));
            assert(lines.take(i + 1).drop_last() =~= lines.take(i as int));
            assert(lines.take(i + 1).last() == line@);
        }
        if end > 0 && v[0] == '.' {
            out.push('\\');
        }
        out.append(line.as_str());
        out.push('\n');
        proof {
            assert(out@ =~= front + troff_lines(lines.take(i + 1)));
        }
        i = i + 1;
    }
    proof {
        assert(lines.take(count as int) =~= lines);
    }
    out.append(
        ".SH SEE ALSO\ndocs/user-guide/platforms.md, docs/architecture/performance.md, README.md\n",
    );
    out
}

/// No line of the manual page's options is taken for a macro: none begins
/// with a dot.
pub proof fn law_options_are_no_macros(line: Seq<char>)
    ensures
        troff_lines(seq![line]).len() > 0,
        troff_lines(seq![line])[0] != '.',
{
    reveal_with_fuel(troff_lines, 2);
    assert(seq![line].drop_last() =~= Seq::empty());
    let out = troff_lines(seq![line]);
    if line.len() > 0 && line[0] == '.' {
        assert(out =~= seq!['\\'] + line + seq!['\n']);
    } else {
        assert(out =~= line + seq!['\n']);
    }
}

/// What is written to stderr where the program fails.
pub fn error_line(catalog: &Catalog, styler: Styler, err: &Error) -> (r: String)
    ensures
        r@ == styler.shown(Tone::Bad, looked_up(catalog@, "error"@)) + ": "@ + join_of(
            chain_texts(err@),
            ": "@,
        ),
{
    let mut out = styler.err(lookup(catalog, "error").as_str());
    out.append(": ");
    out.append(err.report().as_str());
    out
}

/// A character inside a JSON string.
pub open spec fn json_char(c: char) -> Seq<char> {
    if c == '"' {
        seq!['\\', '"']
    } else if c == '\\' {
        seq!['\\', '\\']
    } else if c == '\x08' {
        seq!['\\', 'b']
    } else if c == '\t' {
        seq!['\\', 't']
    } else if c == '\n' {
        seq!['\\', 'n']
    } else if c == '\x0c' {
        seq!['\\', 'f']
    } else if c == '\r' {
        seq!['\\', 'r']
    } else if c >= ' ' {
        seq![c]
    } else {
        seq!['\\', 'u', '0', '0'] + hex_byte(c as u8)
    }
}

/// Characters inside a JSON string.
pub open spec fn json_chars(s: Seq<char>) -> Seq<char>
    decreases s.len(),
{
    if s.len() == 0 {
        Seq::empty()
    } else {
        json_chars(s.drop_last()) + json_char(s.last())
    }
}

/// A text as a JSON string.
pub open spec fn json_text(s: Seq<char>) -> Seq<char> {
    seq!['"'] + json_chars(s) + seq!['"']
}

/// `serde_json::to_string` on a text: quotes, backslashes and the control
/// characters below the space are escaped, everything else stands as it is.
/// It does not fail on text.
#[verifier::external_body]
fn json_string(s: &str) -> (r: String)
    ensures
        r@ == json_text(s@),
{
    serde_json::to_string(s).unwrap_or_default()
}

/// The line of `stats --format json`, with the file's name quoted already and
/// the percentage as text.
pub open spec fn stats_line(file: Seq<char>, sum: PathSummary, pct: Seq<char>) -> Seq<char> {
    "{\"file\":"@ + file + ",\"total\":"@ + decimal_of(sum.total as nat) + ",\"direct\":"@
        + decimal_of(sum.direct as nat) + ",\"relay\":"@ + decimal_of(sum.relay as nat)
        + ",\"relay_candidate\":"@ + decimal_of(sum.relay_candidate as nat) + ",\"unknown\":"@
        + decimal_of(sum.unknown as nat) + ",\"direct_pct\":"@ + pct + "}"@
}

/// The line of `stats --format json`, with the file's name quoted already.
pub fn stats_json_quoted(file: &str, sum: &PathSummary, pct: &str) -> (r: String)
    ensures
        r@ == stats_line(file@, *sum, pct@),
{
    let mut out = "{\"file\":".to_owned();
    out.append(file);
    out.append(",\"total\":");
    out.append(decimal(sum.total as u64).as_str());
    out.append(",\"direct\":");
    out.append(decimal(sum.direct as u64).as_str());
    out.append(",\"relay\":");
    out.append(decimal(sum.relay as u64).as_str());
    out.append(",\"relay_candidate\":");
    out.append(decimal(sum.relay_candidate as u64).as_str());
    out.append(",\"unknown\":");
    out.append(decimal(sum.unknown as u64).as_str());
    out.append(",\"direct_pct\":");
    out.append(pct);
    out.append("}");
    out
}

/// The line of `stats --format json`; `pct` is the percentage of direct
/// sessions as text.
pub fn stats_json(file: &str, sum: &PathSummary, pct: &str) -> (r: String)
    ensures
        r@ == stats_line(json_text(file@), *sum, pct@),
{
    stats_json_quoted(json_string(file).as_str(), sum, pct)
}

/// The line of `stats` for one session.
pub open spec fn sample_line(s: PathSample) -> Seq<char> {
    decimal_of(s.ts as nat) + "  "@ + s.cmd@ + "  "@ + s.peer_short@ + "  "@ + s.path@ + (
    match s.upgrade_ms {
        Some(ms) => "  upgrade_ms="@ + decimal_of(ms as nat),
        None => Seq::empty(),
    })
}

fn sample_text(s: &PathSample) -> (r: String)
    ensures
        r@ == sample_line(*s),
{
    let mut out = decimal(s.ts);
    out.append("  ");
    out.append(s.cmd.as_str());
    out.append("  ");
    out.append(s.peer_short.as_str());
    out.append("  ");
    out.append(s.path.as_str());
    match s.upgrade_ms {
        Some(ms) => {
            out.append("  upgrade_ms=");
            out.append(decimal(ms).as_str());
        },
        None => {},
    }
    proof {
        assert(out@ =~= sample_line(*s));
    }
    out
}

/// How many sessions `stats` lists.
pub const RECENT: usize = 5;

/// The lines for the newest `n` of `samples`, newest first.
pub open spec fn recent_lines(samples: Seq<PathSample>, n: int) -> Seq<(u8, Tone, Seq<char>)> {
    Seq::new(
        n as nat,
        |i: int| (2u8, Tone::Plain, sample_line(samples[samples.len() - 1 - i])),
    )
}

/// What `stats` shows where there are samples: the counts, and the newest
/// five sessions.
pub open spec fn counts_text(
    catalog: Map<Seq<char>, Seq<char>>,
    sum: PathSummary,
    pct: Seq<char>,
) -> Seq<char> {
    said(
        catalog,
        "direct {0}/{1} ({2:.0}%)  relay {3}  relay+candidate {4}  unknown {5}"@,
        seq![
            decimal_of(sum.direct as nat),
            decimal_of(sum.total as nat),
            pct,
            decimal_of(sum.relay as nat),
            decimal_of(sum.relay_candidate as nat),
            decimal_of(sum.unknown as nat),
        ],
    )
}

fn counts(catalog: &Catalog, sum: &PathSummary, pct: String) -> (r: String)
    ensures
        r@ == counts_text(catalog@, *sum, pct@),
{
    let ghost p = pct@;
    let mut args: Vec<String> = Vec::new();
    args.push(decimal(sum.direct as u64));
    args.push(decimal(sum.total as u64));
    args.push(pct);
    args.push(decimal(sum.relay as u64));
    args.push(decimal(sum.relay_candidate as u64));
    args.push(decimal(sum.unknown as u64));
    proof {
        assert(texts(args@) =~= seq![
            decimal_of(sum.direct as nat),
            decimal_of(sum.total as nat),
            p,
            decimal_of(sum.relay as nat),
            decimal_of(sum.relay_candidate as nat),
            decimal_of(sum.unknown as nat),
        ]);
    }
    tr_fmt(
        catalog,
        "direct {0}/{1} ({2:.0}%)  relay {3}  relay+candidate {4}  unknown {5}",
        args.as_slice(),
    )
}

/// What `stats` shows; `file` is the log, `pct` the percentage of direct
/// sessions as text.
pub fn stats_lines(catalog: &Catalog, file: String, last: usize, sum: &PathSummary, pct: String)
    -> (r: Vec<Line>)
    ensures
        lines_of(r@) == seq![
            (0u8, Tone::Banner, looked_up(catalog@, "link-p2p path stats"@)),
            (
                0u8,
                Tone::Dim,
                said(
                    catalog@,
                    "file: {0} (last {1} samples)"@,
                    seq![file@, decimal_of(last as nat)],
                ),
            ),
        ] + (if sum.total == 0 {
            seq![
                (
                    0u8,
                    Tone::Warn,
                    looked_up(
                        catalog@,
                        "no samples yet — run `ping` or a connect/call session first"@,
                    ),
                ),
            ]
        } else {
            seq![(0u8, Tone::Good, counts_text(catalog@, *sum, pct@))] + recent_lines(
                sum.samples@,
                if sum.samples@.len() < RECENT {
                    sum.samples@.len() as int
                } else {
                    RECENT as int
                },
            )
        }),
{
    let mut out: Vec<Line> = Vec::new();
    proof {
        assert(lines_of(out@) =~= Seq::empty());
    }
    put(&mut out, 0, Tone::Banner, lookup(catalog, "link-p2p path stats"));
    put(
        &mut out,
        0,
        Tone::Dim,
        say2(catalog, "file: {0} (last {1} samples)", file, decimal(last as u64)),
    );
    if sum.total == 0 {
        put(
            &mut out,
            0,
            Tone::Warn,
            lookup(catalog, "no samples yet — run `ping` or a connect/call session first"),
        );
        return out;
    }
    put(&mut out, 0, Tone::Good, counts(catalog, sum, pct));
    let len: usize = sum.samples.len();
    let n: usize = if len < RECENT {
        len
    } else {
        RECENT
    };
    let ghost front = lines_of(out@);
    let mut i: usize = 0;
    proof {
        assert(front + recent_lines(sum.samples@, 0) =~= front);
    }
    while i < n
        invariant
            i <= n <= len == sum.samples@.len(),
            lines_of(out@) == front + recent_lines(sum.samples@, i as int),
        decreases n - i,
    {
        put(&mut out, 2, Tone::Plain, sample_text(&sum.samples[len - 1 - i]));
        proof {
            assert(lines_of(out@) =~= front + recent_lines(sum.samples@, i + 1));
        }
        i = i + 1;
    }
    out
}

/// The passphrase of the command line is the one that counts where it is
/// given, and is then known to be exposed; the environment's counts otherwise.
/// One that is empty is none, and one that cannot be is an error.
pub proof fn law_command_line_passphrase_counts(
    catalog: Catalog,
    cli: Option<String>,
    env: Option<String>,
    r: Result<Option<Passphrase>, Error>,
)
    requires
        call_ensures(prepare_passphrase, (&catalog, cli, env), r),
    ensures
        ({
            let chosen = if cli is Some {
                cli
            } else {
                env
            };
            &&& r matches Ok(Some(p)) ==> chosen is Some && p.text@ == chosen->0@ && (p.exposed
                <==> cli is Some)
            &&& r matches Ok(None) ==> chosen is None || chosen->0@.len() == 0
            &&& chosen is None || chosen->0@.len() == 0 ==> r is Ok && r->Ok_0 is None
            &&& chosen is Some && 0 < chosen->0@.len() < 8 ==> r is Err
        }),
{
}

/// A switch is on where the command line or the configuration turns it on, and
/// off only where neither does.
pub proof fn law_either_turns_a_switch_on(
    relay: Vec<String>,
    no_n0: bool,
    relay_only: bool,
    cfg: UserConfig,
    merged: Vec<String>,
    r: RelaySettings,
)
    requires
        call_ensures(relay_settings, (&relay, no_n0, relay_only, &cfg), r),
        call_ensures(merge_relay_urls, (&relay, &cfg), merged),
    ensures
        !r.no_n0 <==> !no_n0 && !cfg.relays.no_n0,
        !r.relay_only <==> !relay_only && !cfg.relays.relay_only,
        texts(r.relay@) == texts(merged@),
{
}

/// Commands that dial or are dialed need the identity; those that only write
/// text need nothing, and a service is installed before the identity is read.
pub proof fn law_dialing_needs_the_identity(kind: CommandKind, r: Setup)
    requires
        call_ensures(setup_for, (kind,), r),
    ensures
        kind == CommandKind::Serve || kind == CommandKind::Connect || kind == CommandKind::Ping
            || kind == CommandKind::Call || kind == CommandKind::Tun || kind
            == CommandKind::Contact || kind == CommandKind::Config ==> r == Setup::Identity,
        kind == CommandKind::Completions || kind == CommandKind::Man || kind == CommandKind::Help
            ==> r == Setup::Nothing,
        kind == CommandKind::TunService ==> r == Setup::Logging,
        kind == CommandKind::Selftest || kind == CommandKind::TunSelftest || kind
            == CommandKind::Stats ==> r == Setup::Relays,
{
}

} // verus!
