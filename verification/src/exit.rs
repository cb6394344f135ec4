//! Process exit codes, and errors that carry one.
//!
//! Every failure that should end the process with a code other than [`OTHER`]
//! is wrapped with [`coded`] where it arises. [`code_from`] looks for such a
//! wrapper and never at message text, so the code does not depend on the
//! language that messages are shown in.

use vstd::prelude::*;
use crate::text::join_of;

verus! {

/// Success.
pub const OK: i32 = 0;

/// Unexpected or unclassified error.
pub const OTHER: i32 = 1;

/// Bad command-line usage.
pub const USAGE: i32 = 2;

/// Could not dial or establish the connection.
pub const CONNECT: i32 = 3;

/// Idle or operation timeout.
pub const TIMEOUT: i32 = 4;

/// Peer rejected by an allow list.
pub const DENIED: i32 = 5;

/// The daemon is not running.
pub const DAEMON_NOT_RUNNING: i32 = 6;

/// One link of an error chain: what it says, and the exit code that a wrapper
/// put on it.
#[derive(Debug)]
pub struct Link {
    pub text: String,
    pub code: Option<i32>,
}

/// A failure and its causes, outermost first. There is at least one link.
#[derive(Debug)]
pub struct Error {
    links: Vec<Link>,
}

impl View for Error {
    type V = Seq<(Seq<char>, Option<i32>)>;

    closed spec fn view(&self) -> Seq<(Seq<char>, Option<i32>)> {
        self.links@.map_values(|l: Link| (l.text@, l.code))
    }
}

impl Error {
    /// There is a link that says what went wrong.
    pub open spec fn wf(&self) -> bool {
        self@.len() > 0
    }

    /// An error that says `text`, without a cause or a code.
    pub fn msg(text: String) -> (r: Error)
        ensures
            r.wf(),
            r@ == seq![(text@, None::<i32>)],
    {
        let ghost t = text@;
        let mut links: Vec<Link> = Vec::new();
        links.push(Link { text, code: None });
        let r = Error { links };
        proof {
            assert(r@ =~= seq![(t, None::<i32>)]);
        }
        r
    }

    /// The error as the cause of one that says `text`.
    pub fn context(self, text: String) -> (r: Error)
        requires
            self.wf(),
        ensures
            r.wf(),
            r@ == seq![(text@, None::<i32>)] + self@,
    {
        let ghost t = text@;
        let ghost before = self@;
        let mut links = self.links;
        links.insert(0, Link { text, code: None });
        let r = Error { links };
        proof {
            assert(r@ =~= seq![(t, None::<i32>)] + before);
        }
        r
    }

    /// What the outermost link says.
    pub fn message(&self) -> (r: String)
        requires
            self.wf(),
        ensures
            r@ == self@[0].0,
    {
        self.links[0].text.clone()
    }

    /// The whole chain on one line, `: ` between a failure and its cause.
    pub fn report(&self) -> (r: String)
        ensures
            r@ == join_of(chain_texts(self@), ": "@),
    {
        let mut parts: Vec<String> = Vec::new();
        let mut i: usize = 0;
        while i < self.links.len()
            invariant
                i <= self.links@.len(),
                parts@.len() == i,
                forall|j: int| 0 <= j < i ==> (#[trigger] parts@[j])@ == self@[j].0,
            decreases self.links@.len() - i,
        {
            parts.push(self.links[i].text.clone());
            i = i + 1;
        }
        proof {
            assert(crate::text::texts(parts@) =~= chain_texts(self@));
        }
        crate::text::join(&parts, ": ")
    }
}

/// The texts of an error chain.
pub open spec fn chain_texts(chain: Seq<(Seq<char>, Option<i32>)>) -> Seq<Seq<char>> {
    chain.map_values(|l: (Seq<char>, Option<i32>)| l.0)
}

/// An error that carries a stable process exit code.
#[derive(Debug)]
pub struct CodedError {
    pub code: i32,
    pub source: Error,
}

impl CodedError {
    /// The error as a chain: its outermost link, which now carries the code,
    /// takes the place of the wrapped error's own.
    pub fn into_error(self) -> (r: Error)
        requires
            self.source.wf(),
        ensures
            r.wf(),
            r@ == self.source@.update(0, (self.source@[0].0, Some(self.code))),
    {
        let code: i32 = self.code;
        let ghost before = self.source@;
        let mut links = self.source.links;
        let text = links[0].text.clone();
        links.set(0, Link { text, code: Some(code) });
        let r = Error { links };
        proof {
            assert(r@ =~= before.update(0, (before[0].0, Some(code))));
        }
        r
    }
}

/// Wraps `err` so that [`code_from`] returns `code`.
pub fn coded(code: i32, err: Error) -> (r: Error)
    requires
        err.wf(),
    ensures
        r.wf(),
        r@ == err@.update(0, (err@[0].0, Some(code))),
{
    CodedError { code, source: err }.into_error()
}

/// Whether `err` says `text` alone, with this code on it.
pub open spec fn says(err: Error, text: Seq<char>, code: Option<i32>) -> bool {
    err.wf() && err@ == seq![(text, code)]
}

/// Whether `err` says `text`, with this code on it, and names `cause` as its
/// cause.
pub open spec fn says_because(
    err: Error,
    text: Seq<char>,
    code: Option<i32>,
    cause: Seq<char>,
) -> bool {
    err.wf() && err@ == seq![(text, code), (cause, None::<i32>)]
}

/// An error that says `text` and names its cause.
pub fn because(text: String, cause: String) -> (r: Error)
    ensures
        says_because(r, text@, None, cause@),
{
    let ghost t = text@;
    let ghost c = cause@;
    let e = Error::msg(cause).context(text);
    proof {
        assert(e@ =~= seq![(t, None::<i32>), (c, None::<i32>)]);
    }
    e
}

/// An error that says `text`, names its cause and exits with the usage code.
pub fn usage_because(text: String, cause: String) -> (r: Error)
    ensures
        says_because(r, text@, Some(USAGE), cause@),
{
    let ghost t = text@;
    let ghost c = cause@;
    let e = coded(USAGE, because(text, cause));
    proof {
        assert(e@ =~= seq![(t, Some(USAGE)), (c, None::<i32>)]);
    }
    e
}

/// An error that says `text` and carries `code`.
pub fn failure(code: i32, text: String) -> (r: Error)
    ensures
        says(r, text@, Some(code)),
{
    let ghost t = text@;
    let e = coded(code, Error::msg(text));
    proof {
        assert(e@ =~= seq![(t, Some(code))]);
    }
    e
}

/// An error that says `text` and exits with the usage code.
pub fn usage(text: String) -> (r: Error)
    ensures
        says(r, text@, Some(USAGE)),
{
    failure(USAGE, text)
}

/// The exit code of a chain: that of the outermost link with one, else `OTHER`.
pub open spec fn chain_code(chain: Seq<(Seq<char>, Option<i32>)>) -> i32
    decreases chain.len(),
{
    if chain.len() == 0 {
        OTHER
    } else {
        match chain.first().1 {
            Some(c) => c,
            None => chain_code(chain.drop_first()),
        }
    }
}

/// The process exit code for a failure.
pub fn code_from(err: &Error) -> (r: i32)
    ensures
        r == chain_code(err@),
{
    let mut i: usize = 0;
    proof {
        assert(err@.skip(0) =~= err@);
    }
    while i < err.links.len()
        invariant
            i <= err.links@.len(),
            chain_code(err@) == chain_code(err@.skip(i as int)),
        decreases err.links@.len() - i,
    {
        proof {
            assert(err@.skip(i as int).first() == err@[i as int]);
            assert(err@.skip(i as int).drop_first() =~= err@.skip(i + 1));
        }
        if let Some(c) = err.links[i].code {
            return c;
        }
        i = i + 1;
    }
    OTHER
}

/// A coded error has its code, whatever it wraps.
pub proof fn law_coded_wins(chain: Seq<(Seq<char>, Option<i32>)>, code: i32)
    requires
        chain.len() > 0,
    ensures
        chain_code(chain.update(0, (chain[0].0, Some(code)))) == code,
{
}

/// Adding context to an error keeps its code.
pub proof fn law_context_keeps_the_code(chain: Seq<(Seq<char>, Option<i32>)>, text: Seq<char>)
    ensures
        chain_code(seq![(text, None::<i32>)] + chain) == chain_code(chain),
{
    assert((seq![(text, None::<i32>)] + chain).drop_first() =~= chain);
}

/// The code depends on the wrappers alone: two chains that carry the same
/// codes exit alike, whatever they say.
pub proof fn law_code_ignores_message_text(
    a: Seq<(Seq<char>, Option<i32>)>,
    b: Seq<(Seq<char>, Option<i32>)>,
)
    requires
        a.len() == b.len(),
        forall|i: int| 0 <= i < a.len() ==> (#[trigger] a[i]).1 == b[i].1,
    ensures
        chain_code(a) == chain_code(b),
    decreases a.len(),
{
    if a.len() > 0 {
        assert(a[0].1 == b[0].1);
        assert forall|i: int| 0 <= i < a.drop_first().len() implies (#[trigger] a.drop_first()[i]).1
            == b.drop_first()[i].1 by {
            assert(a[i + 1].1 == b[i + 1].1);
        }
        law_code_ignores_message_text(a.drop_first(), b.drop_first());
    }
}

proof fn lemma_join_front(a: Seq<char>, rest: Seq<Seq<char>>, sep: Seq<char>)
    requires
        rest.len() > 0,
    ensures
        join_of(seq![a] + rest, sep) == a + sep + join_of(rest, sep),
    decreases rest.len(),
{
    let all = seq![a] + rest;
    assert(all.drop_last() =~= seq![a] + rest.drop_last());
    assert(all.last() == rest.last());
    if rest.len() == 1 {
        assert(all.drop_last() =~= seq![a]);
        assert(join_of(all.drop_last(), sep) == a);
        assert(join_of(rest, sep) == rest[0]);
        assert(join_of(all, sep) == a + sep + rest[0]);
    } else {
        lemma_join_front(a, rest.drop_last(), sep);
        assert(a + sep + join_of(rest.drop_last(), sep) + sep + rest.last() =~= a + sep + (join_of(
            rest.drop_last(),
            sep,
        ) + sep + rest.last()));
    }
}

/// Context is reported in front of what it is about, after which a colon
/// stands, and leaves the exit code; a code that is put on an error is its exit
/// code, whatever it had, and leaves what is reported; an error without one
/// exits with 1.
pub proof fn law_context_and_codes(
    err: Error,
    text: String,
    code: i32,
    plain: Error,
    outer: Error,
    with_code: Error,
    report: String,
    outer_report: String,
    code_report: String,
    before: i32,
    plain_code: i32,
    outer_code: i32,
    new_code: i32,
)
    requires
        err.wf(),
        call_ensures(Error::msg, (text,), plain),
        call_ensures(Error::context, (err, text), outer),
        call_ensures(coded, (code, err), with_code),
        call_ensures(Error::report, (&err,), report),
        call_ensures(Error::report, (&outer,), outer_report),
        call_ensures(Error::report, (&with_code,), code_report),
        call_ensures(code_from, (&err,), before),
        call_ensures(code_from, (&plain,), plain_code),
        call_ensures(code_from, (&outer,), outer_code),
        call_ensures(code_from, (&with_code,), new_code),
    ensures
        outer_report@ == text@ + ": "@ + report@,
        outer_code == before,
        code_report@ == report@,
        new_code == code,
        plain_code == 1,
{
    assert(chain_texts(outer@) =~= seq![text@] + chain_texts(err@));
    lemma_join_front(text@, chain_texts(err@), ": "@);
    assert(chain_texts(with_code@) =~= chain_texts(err@));
    law_context_keeps_the_code(err@, text@);
    law_coded_wins(err@, code);
    assert(plain@.drop_first() =~= Seq::empty());
    assert(chain_code(plain@.drop_first()) == OTHER);
}

} // verus!
