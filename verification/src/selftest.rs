//! Host diagnostics: what they show, and whether they passed.

use vstd::prelude::*;
use crate::exit;
use crate::exit::{failure, says, Error};
use crate::i18n::{looked_up, lookup, said, say1, say2, Catalog};
use crate::runtime::endpoint_online_steps;
use crate::style::{lines_of, put, Line, Tone};
use crate::text::{decimal, decimal_of};

verus! {

/// What to test.
#[derive(Clone, Copy, Debug, PartialEq, Eq, Structural)]
pub struct SelftestOpts {
    /// Leave the loopback echo out.
    pub no_echo: bool,
    /// Test what TUN mode needs, too.
    pub tun: bool,
}

/// What the loopback echo sends.
pub fn echo_payload() -> (r: &'static str)
    ensures
        r@ == "link-p2p-selftest"@,
{
    "link-p2p-selftest"
}

/// How many checks failed so far.
#[derive(Clone, Copy, Debug, PartialEq, Eq, Structural)]
pub struct Selftest {
    pub failed: u32,
}

/// A failed check more.
pub open spec fn one_more(n: u32) -> u32 {
    if n < u32::MAX {
        (n + 1) as u32
    } else {
        n
    }
}

/// A mark, two spaces before it, and what it is about.
#[derive(Debug)]
pub struct Mark {
    pub tone: Tone,
    pub mark: String,
    pub about: String,
}

impl View for Mark {
    type V = (Tone, Seq<char>, Seq<char>);

    open spec fn view(&self) -> (Tone, Seq<char>, Seq<char>) {
        (self.tone, self.mark@, self.about@)
    }
}

impl Selftest {
    /// Before the first check.
    pub fn new() -> (r: Selftest)
        ensures
            r.failed == 0,
    {
        Selftest { failed: 0 }
    }

    /// What is shown before the checks: the title, the order in which an
    /// endpoint comes online, and whether there are relays to probe.
    pub fn intro(catalog: &Catalog, opts: &SelftestOpts, relays: bool) -> (r: Vec<Line>)
        ensures
            lines_of(r@) == seq![
                (
                    0u8,
                    Tone::Banner,
                    if opts.tun {
                        looked_up(catalog@, "link-p2p tun selftest"@)
                    } else {
                        looked_up(catalog@, "link-p2p selftest"@)
                    },
                ),
                (
                    0u8,
                    Tone::Dim,
                    looked_up(
                        catalog@,
                        "bring-up order (custom relay before online wait):"@,
                    ),
                ),
                (2u8, Tone::Plain, "install_extra_relays"@ + " → "@ + "wait_online"@),
                if relays {
                    (
                        0u8,
                        Tone::Dim,
                        looked_up(
                            catalog@,
                            "probing --relay URL(s) over TCP (2s timeout; TCP ok ≠ UDP/QUIC path):"@,
                        ),
                    )
                } else {
                    (
                        2u8,
                        Tone::Warn,
                        looked_up(
                            catalog@,
                            "no --relay URLs configured (will use n0 public relays only)"@,
                        ),
                    )
                },
            ],
    {
        let mut out: Vec<Line> = Vec::new();
        let title = if opts.tun {
            lookup(catalog, "link-p2p tun selftest")
        } else {
            lookup(catalog, "link-p2p selftest")
        };
        put(&mut out, 0, Tone::Banner, title);
        put(
            &mut out,
            0,
            Tone::Dim,
            lookup(catalog, "bring-up order (custom relay before online wait):"),
        );
        let steps = endpoint_online_steps();
        let mut order = steps[0].to_owned();
        order.append(" → ");
        order.append(steps[1]);
        put(&mut out, 2, Tone::Plain, order);
        if relays {
            put(
                &mut out,
                0,
                Tone::Dim,
                lookup(
                    catalog,
                    "probing --relay URL(s) over TCP (2s timeout; TCP ok ≠ UDP/QUIC path):",
                ),
            );
        } else {
            put(
                &mut out,
                2,
                Tone::Warn,
                lookup(catalog, "no --relay URLs configured (will use n0 public relays only)"),
            );
        }
        out
    }

    /// A relay was probed; `took` is how long it took to answer, as text.
    pub fn on_relay(&mut self, catalog: &Catalog, url: &str, took: Option<String>) -> (r: Mark)
        ensures
            match took {
                Some(d) => final(self).failed == old(self).failed && r@ == (
                    Tone::Good,
                    "ok"@,
                    " "@ + url@ + "  ("@ + d@ + ")"@,
                ),
                None => final(self).failed == one_more(old(self).failed) && r@ == (
                    Tone::Bad,
                    looked_up(catalog@, "FAIL"@),
                    " "@ + url@,
                ),
            },
    {
        let mut about = " ".to_owned();
        about.append(url);
        match took {
            Some(d) => {
                about.append("  (");
                about.append(d.as_str());
                about.append(")");
                Mark { tone: Tone::Good, mark: "ok".to_owned(), about }
            },
            None => {
                self.fail();
                Mark { tone: Tone::Bad, mark: lookup(catalog, "FAIL"), about }
            },
        }
    }

    fn fail(&mut self)
        ensures
            final(self).failed == one_more(old(self).failed),
    {
        if self.failed < u32::MAX {
            self.failed = self.failed + 1;
        }
    }

    /// The loopback echo came back; `addr` is where it ran, as text.
    pub fn on_echo(&mut self, catalog: &Catalog, sent: &[u8], got: &[u8], addr: String) -> (r: Mark)
        ensures
            if sent@ == got@ {
                final(self).failed == old(self).failed && r@ == (
                    Tone::Good,
                    "ok"@,
                    " "@ + said(
                        catalog@,
                        "echo {0} bytes via {1}"@,
                        seq![decimal_of(sent@.len()), addr@],
                    ),
                )
            } else {
                final(self).failed == one_more(old(self).failed) && r@ == (
                    Tone::Bad,
                    looked_up(catalog@, "FAIL echo mismatch"@),
                    ""@,
                )
            },
    {
        if crate::bytes::same_bytes(sent, got) {
            let mut about = " ".to_owned();
            about.append(
                say2(
                    catalog,
                    "echo {0} bytes via {1}",
                    decimal(sent.len() as u64),
                    addr,
                ).as_str(),
            );
            Mark { tone: Tone::Good, mark: "ok".to_owned(), about }
        } else {
            self.fail();
            Mark {
                tone: Tone::Bad,
                mark: lookup(catalog, "FAIL echo mismatch"),
                about: "".to_owned(),
            }
        }
    }

    /// Whether the system identity directory can be written; `why` is why
    /// not. It is no failure where it cannot: only the service needs it.
    pub fn identity_mark(catalog: &Catalog, why: Option<String>) -> (r: Mark)
        ensures
            r@ == (match why {
                Some(e) => (
                    Tone::Warn,
                    looked_up(
                        catalog@,
                        "system identity directory not writable (ok for ad-hoc; needed for tun service install)"@,
                    ),
                    ": "@ + e@,
                ),
                None => (
                    Tone::Good,
                    "ok"@,
                    " "@ + looked_up(catalog@, "system identity directory writable"@),
                ),
            }),
    {
        match why {
            Some(e) => {
                let mut about = ": ".to_owned();
                about.append(e.as_str());
                Mark {
                    tone: Tone::Warn,
                    mark: lookup(
                        catalog,
                        "system identity directory not writable (ok for ad-hoc; needed for tun service install)",
                    ),
                    about,
                }
            },
            None => {
                let mut about = " ".to_owned();
                about.append(lookup(catalog, "system identity directory writable").as_str());
                Mark { tone: Tone::Good, mark: "ok".to_owned(), about }
            },
        }
    }

    /// The result: passed where no check failed.
    pub fn verdict(&self, catalog: &Catalog) -> (r: Result<Line, Error>)
        ensures
            if self.failed == 0 {
                r is Ok && r->Ok_0@ == (0u8, Tone::Good, looked_up(catalog@, "selftest passed"@))
            } else {
                r is Err && says(
                    r->Err_0,
                    said(
                        catalog@,
                        "selftest reported {0} failure(s)"@,
                        seq![decimal_of(self.failed as nat)],
                    ),
                    Some(exit::CONNECT),
                )
            },
    {
        if self.failed > 0 {
            return Err(
                failure(
                    exit::CONNECT,
                    say1(
                        catalog,
                        "selftest reported {0} failure(s)",
                        decimal(self.failed as u64),
                    ),
                ),
            );
        }
        Ok(Line { indent: 0, tone: Tone::Good, text: lookup(catalog, "selftest passed") })
    }
}

/// The self test passes exactly where every relay that was probed answered and
/// the echo came back as it was sent.
pub proof fn law_every_failure_counts(
    catalog: Catalog,
    fresh: Selftest,
    a: &mut Selftest,
    b: &mut Selftest,
    url: &str,
    took: Option<String>,
    sent: &[u8],
    got: &[u8],
    addr: String,
    relay: Mark,
    echo: Mark,
    r: Result<Line, Error>,
)
    requires
        call_ensures(Selftest::new, (), fresh),
        *old(a) == fresh,
        call_ensures(Selftest::on_relay, (a, &catalog, url, took), relay),
        *old(b) == *final(a),
        call_ensures(Selftest::on_echo, (b, &catalog, sent, got, addr), echo),
        call_ensures(Selftest::verdict, (&*final(b), &catalog), r),
    ensures
        r is Ok <==> took is Some && sent@ == got@,
{
}

} // verus!
