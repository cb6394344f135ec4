//! The contact book and the short codes in which people exchange endpoint ids.
//!
//! A short code is the id in Crockford Base32 with a check symbol behind it,
//! in groups of four.

use vstd::prelude::*;
use vstd::utf8::encode_utf8;
use crate::config::{config_dir_parts, config_file};
use crate::crockford::{
    all_symbols, crockford_of, decode_crockford, decoded, encode_crockford,
    law_crockford_round_trip, lemma_crockford_shape, lemma_symbol_round_trip, symbol, symbol_char,
    symbols_of,
};
use crate::endpoint::{
    bad_key_text, endpoint_id_from_bytes, endpoint_refusal, endpoint_token, is_endpoint_id,
    parse_endpoint_id, public_key, public_of, EndpointId,
};
use crate::exit::{because, Error};
use crate::i18n::{looked_up, lookup, said, say1, Catalog};
use crate::net::SocketAddr;
use crate::paths::Location;
use crate::style::{lines_of, put, Line, Tone};
use crate::text::{
    char_is_space, char_upper, chars_of, eq_ignore_case, has_prefix, hex_of, is_space, lower, lower_all,
    same_text, starts_with, string_from, string_of, texts, to_lower, trim, trim_of, trim_range,
    upper,
};

verus! {

/// An address in the contact book: its text, and the address that it writes,
/// or why it writes none.
#[derive(Debug)]
pub struct AddrHint {
    pub text: String,
    pub addr: Result<SocketAddr, String>,
}

/// One saved peer.
#[derive(Debug)]
pub struct Contact {
    /// The endpoint id as text.
    pub id: String,
    /// Relays to dial through.
    pub relays: Vec<String>,
    /// Addresses to dial.
    pub addrs: Vec<AddrHint>,
}

/// Whether `a` comes before `b`, character by character.
pub open spec fn text_before(a: Seq<char>, b: Seq<char>) -> bool
    decreases a.len(),
{
    if b.len() == 0 {
        false
    } else if a.len() == 0 {
        true
    } else if a.first() != b.first() {
        a.first() < b.first()
    } else {
        text_before(a.drop_first(), b.drop_first())
    }
}

proof fn lemma_before_total(a: Seq<char>, b: Seq<char>)
    ensures
        a == b || text_before(a, b) || text_before(b, a),
        !(text_before(a, b) && text_before(b, a)),
        text_before(a, b) ==> a != b,
    decreases a.len(),
{
    if a.len() == 0 || b.len() == 0 {
        assert(a.len() == 0 && b.len() == 0 ==> a =~= b);
    } else if a.first() == b.first() {
        lemma_before_total(a.drop_first(), b.drop_first());
        if a.drop_first() == b.drop_first() {
            assert(a =~= seq![a.first()] + a.drop_first());
            assert(b =~= seq![b.first()] + b.drop_first());
        }
    }
}

proof fn lemma_before_transitive(a: Seq<char>, b: Seq<char>, c: Seq<char>)
    requires
        text_before(a, b),
        text_before(b, c),
    ensures
        text_before(a, c),
    decreases a.len(),
{
    if a.len() > 0 && a.first() == b.first() && b.first() == c.first() {
        lemma_before_transitive(a.drop_first(), b.drop_first(), c.drop_first());
    }
}

fn comes_before(a: &str, b: &str) -> (r: bool)
    ensures
        r == text_before(a@, b@),
{
    let x = chars_of(a);
    let y = chars_of(b);
    let mut i: usize = 0;
    proof {
        assert(x@.skip(0) =~= x@);
        assert(y@.skip(0) =~= y@);
    }
    loop
        invariant
            i <= x@.len(),
            i <= y@.len(),
            text_before(a@, b@) == text_before(x@.skip(i as int), y@.skip(i as int)),
        decreases x@.len() - i,
    {
        if i >= y.len() {
            return false;
        }
        if i >= x.len() {
            return true;
        }
        proof {
            assert(x@.skip(i as int).drop_first() =~= x@.skip(i + 1));
            assert(y@.skip(i as int).drop_first() =~= y@.skip(i + 1));
        }
        if x[i] != y[i] {
            return x[i] < y[i];
        }
        i = i + 1;
    }
}

/// The contact book: nicknames and contacts in the order of the nicknames.
#[derive(Debug)]
pub struct ContactBook {
    entries: Vec<(String, Contact)>,
}

/// Whether the nicknames of `s` ascend; no nickname occurs twice then.
pub open spec fn ascending(s: Seq<(Seq<char>, Contact)>) -> bool {
    forall|i: int, j: int|
        0 <= i < j < s.len() ==> text_before((#[trigger] s[i]).0, (#[trigger] s[j]).0)
}

/// Whether `s` holds the nickname.
pub open spec fn has_name(s: Seq<(Seq<char>, Contact)>, name: Seq<char>) -> bool {
    exists|i: int| 0 <= i < s.len() && (#[trigger] s[i]).0 == name
}

/// Where `s` holds the nickname.
pub open spec fn place_of(s: Seq<(Seq<char>, Contact)>, name: Seq<char>) -> int {
    choose|i: int| 0 <= i < s.len() && (#[trigger] s[i]).0 == name
}

/// A book as a map from nickname to contact.
pub open spec fn book_map(s: Seq<(Seq<char>, Contact)>) -> Map<Seq<char>, Contact> {
    Map::new(
        |n: Seq<char>| has_name(s, n),
        |n: Seq<char>| s[place_of(s, n)].1,
    )
}

impl View for ContactBook {
    type V = Seq<(Seq<char>, Contact)>;

    closed spec fn view(&self) -> Seq<(Seq<char>, Contact)> {
        self.entries@.map_values(|e: (String, Contact)| (e.0@, e.1))
    }
}

proof fn lemma_unique_name(s: Seq<(Seq<char>, Contact)>, i: int, j: int)
    requires
        ascending(s),
        0 <= i < s.len(),
        0 <= j < s.len(),
        s[i].0 == s[j].0,
    ensures
        i == j,
{
    lemma_before_total(s[i].0, s[j].0);
    if i < j {
        assert(text_before(s[i].0, s[j].0));
    } else if j < i {
        assert(text_before(s[j].0, s[i].0));
    }
}

proof fn lemma_book_get(s: Seq<(Seq<char>, Contact)>, i: int)
    requires
        ascending(s),
        0 <= i < s.len(),
    ensures
        book_map(s).contains_key(s[i].0),
        book_map(s)[s[i].0] == s[i].1,
{
    let n = s[i].0;
    assert(has_name(s, n));
    lemma_unique_name(s, i, place_of(s, n));
}

impl ContactBook {
    /// The nicknames ascend.
    pub open spec fn wf(&self) -> bool {
        ascending(self@)
    }

    /// A book without contacts.
    pub fn new() -> (r: ContactBook)
        ensures
            r.wf(),
            r@ == Seq::<(Seq<char>, Contact)>::empty(),
    {
        let r = ContactBook { entries: Vec::new() };
        proof {
            assert(r@ =~= Seq::<(Seq<char>, Contact)>::empty());
        }
        r
    }

    /// How many contacts there are.
    pub fn len(&self) -> (r: usize)
        ensures
            r == self@.len(),
    {
        self.entries.len()
    }

    /// The nickname at a position.
    pub fn name_at(&self, i: usize) -> (r: &String)
        requires
            i < self@.len(),
        ensures
            r@ == self@[i as int].0,
    {
        &self.entries[i].0
    }

    /// The contact at a position.
    pub fn contact_at(&self, i: usize) -> (r: &Contact)
        requires
            i < self@.len(),
        ensures
            *r == self@[i as int].1,
    {
        &self.entries[i].1
    }

    /// Position of a nickname, else of the first one behind it.
    fn find(&self, name: &str) -> (r: (bool, usize))
        requires
            self.wf(),
        ensures
            r.1 <= self@.len(),
            r.0 == has_name(self@, name@),
            r.0 ==> r.1 < self@.len() && self@[r.1 as int].0 == name@,
            forall|j: int| 0 <= j < r.1 ==> text_before((#[trigger] self@[j]).0, name@),
            !r.0 ==> forall|j: int| r.1 <= j < self@.len() ==> text_before(name@, (#[trigger] self@[j]).0),
    {
        let mut i: usize = 0;
        while i < self.entries.len() && comes_before(self.entries[i].0.as_str(), name)
            invariant
                i <= self.entries@.len(),
                forall|j: int| 0 <= j < i ==> text_before((#[trigger] self@[j]).0, name@),
            decreases self.entries@.len() - i,
        {
            proof {
                assert(self@[i as int].0 == self.entries@[i as int].0@);
            }
            i = i + 1;
        }
        proof {
            assert forall|j: int| 0 <= j < i implies (#[trigger] self@[j]).0 != name@ by {
                lemma_before_total(self@[j].0, name@);
            }
        }
        if i < self.entries.len() {
            proof {
                assert(self@[i as int].0 == self.entries@[i as int].0@);
            }
            if same_text(self.entries[i].0.as_str(), name) {
                return (true, i);
            }
            proof {
                lemma_before_total(self@[i as int].0, name@);
                assert forall|j: int| i <= j < self@.len() implies text_before(
                    name@,
                    (#[trigger] self@[j]).0,
                ) by {
                    if j > i {
                        lemma_before_transitive(name@, self@[i as int].0, self@[j].0);
                    }
                }
                assert forall|j: int| 0 <= j < self@.len() implies (#[trigger] self@[j]).0
                    != name@ by {
                    lemma_before_total(self@[j].0, name@);
                }
            }
        }
        (false, i)
    }

    /// The contact with exactly this nickname.
    pub fn get(&self, name: &str) -> (r: Option<&Contact>)
        requires
            self.wf(),
        ensures
            match r {
                Some(c) => book_map(self@).contains_key(name@) && *c == book_map(self@)[name@],
                None => !book_map(self@).contains_key(name@),
            },
    {
        let (found, i) = self.find(name);
        if found {
            proof {
                lemma_book_get(self@, i as int);
            }
            Some(&self.entries[i].1)
        } else {
            None
        }
    }

    /// Saves a contact; one with the same nickname is replaced.
    pub fn insert(&mut self, name: String, contact: Contact)
        requires
            old(self).wf(),
        ensures
            final(self).wf(),
            book_map(final(self)@) == book_map(old(self)@).insert(name@, contact),
    {
        let (found, i) = self.find(name.as_str());
        let ghost before = self@;
        let ghost n = name@;
        if found {
            self.entries.set(i, (name, contact));
            proof {
                assert(self@ =~= before.update(i as int, (n, contact)));
            }
        } else {
            self.entries.insert(i, (name, contact));
            proof {
                assert(self@ =~= before.insert(i as int, (n, contact)));
            }
        }
        proof {
            lemma_insert(before, self@, i as int, n, contact, found);
        }
    }

    /// Removes the contact with this nickname; whether there was one.
    pub fn remove(&mut self, name: &str) -> (r: bool)
        requires
            old(self).wf(),
        ensures
            final(self).wf(),
            r == book_map(old(self)@).contains_key(name@),
            book_map(final(self)@) == book_map(old(self)@).remove(name@),
            !r ==> final(self)@ == old(self)@,
    {
        let (found, i) = self.find(name);
        let ghost before = self@;
        if !found {
            proof {
                assert(book_map(before) =~= book_map(before).remove(name@));
            }
            return false;
        }
        let _ = self.entries.remove(i);
        proof {
            assert(self@ =~= before.remove(i as int));
            lemma_remove(before, self@, i as int);
        }
        true
    }
}

proof fn lemma_insert(
    before: Seq<(Seq<char>, Contact)>,
    after: Seq<(Seq<char>, Contact)>,
    i: int,
    n: Seq<char>,
    c: Contact,
    found: bool,
)
    requires
        ascending(before),
        0 <= i <= before.len(),
        found ==> i < before.len() && before[i].0 == n && after == before.update(i, (n, c)),
        !found ==> after == before.insert(i, (n, c)) && !has_name(before, n),
        forall|j: int| 0 <= j < i ==> text_before((#[trigger] before[j]).0, n),
        !found ==> forall|j: int| i <= j < before.len() ==> text_before(n, (#[trigger] before[j]).0),
    ensures
        ascending(after),
        book_map(after) == book_map(before).insert(n, c),
{
    assert forall|a: int, b: int| 0 <= a < b < after.len() implies text_before(
        (#[trigger] after[a]).0,
        (#[trigger] after[b]).0,
    ) by {
        if !found {
            let a0 = if a < i {
                a
            } else {
                a - 1
            };
            let b0 = if b < i {
                b
            } else {
                b - 1
            };
            if a == i {
                assert(after[b] == before[b0]);
            } else if b == i {
                assert(after[a] == before[a0]);
            } else {
                assert(after[a] == before[a0] && after[b] == before[b0]);
            }
        } else {
            assert(text_before(before[a].0, before[b].0));
        }
    }
    assert forall|m: Seq<char>| has_name(after, m) == (m == n || has_name(before, m)) by {
        if has_name(after, m) {
            let k = choose|k: int| 0 <= k < after.len() && (#[trigger] after[k]).0 == m;
            if k != i {
                let k0 = if found || k < i {
                    k
                } else {
                    k - 1
                };
                assert(before[k0].0 == m);
            }
        }
        if m == n {
            assert(after[i].0 == n);
        } else if has_name(before, m) {
            let k = choose|k: int| 0 <= k < before.len() && (#[trigger] before[k]).0 == m;
            let k1 = if found || k < i {
                k
            } else {
                k + 1
            };
            assert(after[k1].0 == m);
        }
    }
    assert forall|m: Seq<char>| #[trigger] has_name(after, m) implies book_map(after)[m]
        == book_map(before).insert(n, c)[m] by {
        let k = choose|k: int| 0 <= k < after.len() && (#[trigger] after[k]).0 == m;
        lemma_book_get(after, k);
        if m == n {
            assert(after[i].0 == n);
            lemma_unique_name(after, i, k);
        } else {
            assert(k != i);
            let k0 = if found || k < i {
                k
            } else {
                k - 1
            };
            assert(before[k0] == after[k]);
            lemma_book_get(before, k0);
        }
    }
    assert(book_map(after) =~= book_map(before).insert(n, c));
}

proof fn lemma_remove(
    before: Seq<(Seq<char>, Contact)>,
    after: Seq<(Seq<char>, Contact)>,
    i: int,
)
    requires
        ascending(before),
        0 <= i < before.len(),
        after == before.remove(i),
    ensures
        ascending(after),
        book_map(after) == book_map(before).remove(before[i].0),
{
    let n = before[i].0;
    assert forall|a: int, b: int| 0 <= a < b < after.len() implies text_before(
        (#[trigger] after[a]).0,
        (#[trigger] after[b]).0,
    ) by {
        let a0 = if a < i {
            a
        } else {
            a + 1
        };
        let b0 = if b < i {
            b
        } else {
            b + 1
        };
        assert(after[a] == before[a0] && after[b] == before[b0]);
    }
    assert forall|m: Seq<char>| has_name(after, m) == (m != n && has_name(before, m)) by {
        if has_name(after, m) {
            let k = choose|k: int| 0 <= k < after.len() && (#[trigger] after[k]).0 == m;
            let k0 = if k < i {
                k
            } else {
                k + 1
            };
            assert(before[k0].0 == m);
            if m == n {
                lemma_unique_name(before, i, k0);
            }
        }
        if m != n && has_name(before, m) {
            let k = choose|k: int| 0 <= k < before.len() && (#[trigger] before[k]).0 == m;
            let k1 = if k < i {
                k
            } else {
                k - 1
            };
            assert(after[k1].0 == m);
        }
    }
    assert forall|m: Seq<char>| #[trigger] has_name(after, m) implies book_map(after)[m]
        == book_map(before)[m] by {
        let k = choose|k: int| 0 <= k < after.len() && (#[trigger] after[k]).0 == m;
        lemma_book_get(after, k);
        let k0 = if k < i {
            k
        } else {
            k + 1
        };
        assert(before[k0] == after[k]);
        lemma_book_get(before, k0);
    }
    assert(book_map(after) =~= book_map(before).remove(n));
}

/// The contact file.
pub fn contacts_path(xdg_set: bool, home_set: bool) -> (r: Location)
    ensures
        r.base == config_dir_parts(xdg_set, home_set).0,
        r.names() == config_dir_parts(xdg_set, home_set).1.push("contacts.toml"@),
{
    config_file(xdg_set, home_set, "contacts.toml")
}

/// One suggestion for a shell: what to insert, and what to show beside it.
#[derive(Debug)]
pub struct Candidate {
    pub value: String,
    pub help: Option<String>,
}

/// A candidate as a value of the specification.
pub open spec fn candidate_view(c: Candidate) -> (Seq<char>, Option<Seq<char>>) {
    (
        c.value@,
        match c.help {
            Some(h) => Some(h@),
            None => None,
        },
    )
}

/// Candidates as values of the specification.
pub open spec fn candidate_views(v: Seq<Candidate>) -> Seq<(Seq<char>, Option<Seq<char>>)> {
    v.map_values(|c: Candidate| candidate_view(c))
}

/// Whether a nickname completes what was typed: it begins with it, or does so
/// but for ASCII case.
pub open spec fn completes(name: Seq<char>, typed: Seq<char>) -> bool {
    starts_with(name, typed) || starts_with(lower_all(name), lower_all(typed))
}

/// What is shown beside a nickname: the id, cut after twelve characters.
pub open spec fn short_help(id: Seq<char>) -> Seq<char> {
    if id.len() > 12 {
        id.take(12).push('…')
    } else {
        id
    }
}

/// The contacts of `s` whose nickname completes what was typed.
pub open spec fn completions(s: Seq<(Seq<char>, Contact)>, typed: Seq<char>) -> Seq<
    (Seq<char>, Option<Seq<char>>),
>
    decreases s.len(),
{
    if s.len() == 0 {
        Seq::empty()
    } else {
        let before = completions(s.drop_last(), typed);
        if completes(s.last().0, typed) {
            before.push((s.last().0, Some(short_help(s.last().1.id@))))
        } else {
            before
        }
    }
}

fn help_for(id: &str) -> (r: String)
    ensures
        r@ == short_help(id@),
{
    let v = chars_of(id);
    if v.len() > 12 {
        let mut s = string_of(&v, 0, 12);
        proof {
            assert(v@.subrange(0, 12) =~= v@.take(12));
        }
        s.push('…');
        s
    } else {
        id.to_owned()
    }
}

fn push_candidate(out: &mut Vec<Candidate>, c: Candidate)
    ensures
        candidate_views(final(out)@) == candidate_views(old(out)@).push(candidate_view(c)),
{
    out.push(c);
    proof {
        assert(candidate_views(out@) =~= candidate_views(old(out)@).push(candidate_view(c)));
    }
}

/// Nicknames that complete what was typed, in the order of the book.
pub fn complete_peer_tokens(book: &ContactBook, typed: &str) -> (r: Vec<Candidate>)
    ensures
        candidate_views(r@) == completions(book@, typed@),
{
    let cur = chars_of(typed);
    let cur_lower = to_lower(typed);
    let mut out: Vec<Candidate> = Vec::new();
    let mut i: usize = 0;
    proof {
        assert(candidate_views(out@) =~= Seq::<(Seq<char>, Option<Seq<char>>)>::empty());
    }
    while i < book.len()
        invariant
            i <= book@.len(),
            cur@ == typed@,
            cur_lower@ == lower_all(typed@),
            candidate_views(out@) == completions(book@.take(i as int), typed@),
        decreases book@.len() - i,
    {
        proof {
            assert(book@.take(i + 1).drop_last() =~= book@.take(i as int));
        }
        let name = book.name_at(i);
        if has_prefix(&chars_of(name.as_str()), &cur) || has_prefix(
            &to_lower(name.as_str()),
            &cur_lower,
        ) {
            let help = help_for(book.contact_at(i).id.as_str());
            push_candidate(&mut out, Candidate { value: name.clone(), help: Some(help) });
        }
        i = i + 1;
    }
    proof {
        assert(book@.take(book@.len() as int) =~= book@);
    }
    out
}

/// What `tun call` completes to: the keywords `accept` and `reject`, then
/// nicknames.
pub open spec fn call_completions(s: Seq<(Seq<char>, Contact)>, typed: Seq<char>) -> Seq<
    (Seq<char>, Option<Seq<char>>),
> {
    let accept = if starts_with("accept"@, typed) {
        seq![("accept"@, None::<Seq<char>>)]
    } else {
        seq![]
    };
    let reject = if starts_with("reject"@, typed) {
        seq![("reject"@, None::<Seq<char>>)]
    } else {
        seq![]
    };
    accept + reject + completions(s, typed)
}

/// The keywords `accept` and `reject`, and nicknames, that complete what was
/// typed.
pub fn complete_tun_call_args(book: &ContactBook, typed: &str) -> (r: Vec<Candidate>)
    ensures
        candidate_views(r@) == call_completions(book@, typed@),
{
    let cur = chars_of(typed);
    let mut out: Vec<Candidate> = Vec::new();
    proof {
        assert(candidate_views(out@) =~= Seq::<(Seq<char>, Option<Seq<char>>)>::empty());
    }
    if has_prefix(&chars_of("accept"), &cur) {
        push_candidate(&mut out, Candidate { value: "accept".to_owned(), help: None });
    }
    if has_prefix(&chars_of("reject"), &cur) {
        push_candidate(&mut out, Candidate { value: "reject".to_owned(), help: None });
    }
    let ghost keywords = candidate_views(out@);
    let mut more = complete_peer_tokens(book, typed);
    let ghost names = candidate_views(more@);
    let ghost first = out@;
    let ghost second = more@;
    out.append(&mut more);
    proof {
        assert(candidate_views(out@) =~= candidate_views(first) + candidate_views(second));
        assert(candidate_views(out@) =~= call_completions(book@, typed@));
    }
    out
}

/// Position of the first contact whose id is `hex` but for ASCII case.
pub open spec fn first_with_id(s: Seq<(Seq<char>, Contact)>, hex: Seq<char>) -> Option<int>
    decreases s.len(),
{
    if s.len() == 0 {
        None
    } else {
        match first_with_id(s.drop_last(), hex) {
            Some(i) => Some(i),
            None => if lower_all(s.last().1.id@) == lower_all(hex) {
                Some(s.len() - 1)
            } else {
                None
            },
        }
    }
}

proof fn lemma_first_with_id_stays(s: Seq<(Seq<char>, Contact)>, hex: Seq<char>, k: int)
    requires
        0 <= k <= s.len(),
        first_with_id(s.take(k), hex) is Some,
    ensures
        first_with_id(s, hex) == first_with_id(s.take(k), hex),
    decreases s.len() - k,
{
    if k < s.len() {
        assert(s.take(k + 1).drop_last() =~= s.take(k));
        lemma_first_with_id_stays(s, hex, k + 1);
    } else {
        assert(s.take(k) =~= s);
    }
}

/// The nickname under which an id is saved; the first in the book's order.
pub fn name_for_id(book: &ContactBook, id: &EndpointId) -> (r: Option<String>)
    ensures
        match first_with_id(book@, hex_of(id@)) {
            Some(i) => r is Some && 0 <= i < book@.len() && r->0@ == book@[i].0,
            None => r is None,
        },
{
    let shown = id.to_text();
    let mut i: usize = 0;
    while i < book.len()
        invariant
            i <= book@.len(),
            shown@ == hex_of(id@),
            first_with_id(book@.take(i as int), hex_of(id@)) is None,
        decreases book@.len() - i,
    {
        proof {
            assert(book@.take(i + 1).drop_last() =~= book@.take(i as int));
        }
        if eq_ignore_case(book.contact_at(i).id.as_str(), shown.as_str()) {
            proof {
                lemma_first_with_id_stays(book@, hex_of(id@), i + 1);
            }
            return Some(book.name_at(i).clone());
        }
        i = i + 1;
    }
    proof {
        assert(book@.take(book@.len() as int) =~= book@);
    }
    None
}

/// The modulo-32 residue of an id, by which typing errors are caught.
pub open spec fn check_value(data: Seq<u8>) -> nat
    decreases data.len(),
{
    if data.len() == 0 {
        0
    } else {
        ((check_value(data.drop_last()) * 31 + data.last()) % 32) as nat
    }
}

/// The check symbol of a byte string. It catches slips, not forgery.
pub fn check_symbol(data: &[u8]) -> (r: char)
    ensures
        check_value(data@) < 32,
        r == symbol(check_value(data@)),
{
    let mut x: u32 = 0;
    let mut i: usize = 0;
    while i < data.len()
        invariant
            i <= data@.len(),
            x < 32,
            x == check_value(data@.take(i as int)),
        decreases data@.len() - i,
    {
        proof {
            assert(data@.take(i + 1).drop_last() =~= data@.take(i as int));
        }
        x = (x * 31 + data[i] as u32) % 32;
        i = i + 1;
    }
    proof {
        assert(data@.take(data@.len() as int) =~= data@);
    }
    symbol_char(x as u8)
}

/// `s` with a dash before every fifth, ninth, … character.
pub open spec fn dashed(s: Seq<char>) -> Seq<char>
    decreases s.len(),
{
    if s.len() <= 4 {
        s
    } else {
        s.take(4).push('-') + dashed(s.skip(4))
    }
}

/// A short code without its dashes: the symbols of the id, then the check
/// symbol.
pub open spec fn code_symbols(id: Seq<u8>) -> Seq<char> {
    crockford_of(id).push(symbol(check_value(id)))
}

/// The short code of an id.
pub open spec fn short_code(id: Seq<u8>) -> Seq<char> {
    dashed(code_symbols(id))
}

/// The short code of an id: Crockford Base32 with a check symbol, in groups
/// of four.
pub fn encode_short_code(id: &EndpointId) -> (r: String)
    ensures
        r@ == short_code(id@),
{
    let mut raw = encode_crockford(id.bytes.as_slice());
    raw.push(check_symbol(id.bytes.as_slice()));
    let v = chars_of(raw.as_str());
    let len: usize = v.len();
    let mut out = String::new();
    let mut i: usize = 0;
    proof {
        assert(v@ =~= code_symbols(id@));
        assert(v@.skip(0) =~= v@);
        assert(out@ + dashed(v@) =~= dashed(v@));
    }
    while len - i > 4
        invariant
            i <= len == v@.len(),
            out@ + dashed(v@.skip(i as int)) == dashed(v@),
        decreases len - i,
    {
        let ghost rest = v@.skip(i as int);
        let ghost before = out@;
        out.push(v[i]);
        out.push(v[i + 1]);
        out.push(v[i + 2]);
        out.push(v[i + 3]);
        out.push('-');
        i = i + 4;
        proof {
            assert(rest.skip(4) =~= v@.skip(i as int));
            assert(out@ + dashed(v@.skip(i as int)) =~= before + dashed(rest));
        }
    }
    let tail = string_of(&v, i, len);
    proof {
        assert(v@.subrange(i as int, len as int) =~= v@.skip(i as int));
    }
    out.append(tail.as_str());
    out
}

/// A symbol as people may have typed it: upper case, `1` for `I` and `L`, `0`
/// for `O`.
pub open spec fn forgiven(c: char) -> char {
    let u = upper(c);
    if u == 'I' || u == 'L' {
        '1'
    } else if u == 'O' {
        '0'
    } else {
        u
    }
}

/// What is left of a typed code: without dashes and white space, each symbol
/// in its canonical form.
pub open spec fn compact(s: Seq<char>) -> Seq<char>
    decreases s.len(),
{
    if s.len() == 0 {
        Seq::empty()
    } else {
        let c = s.last();
        if c == '-' || is_space(c) {
            compact(s.drop_last())
        } else {
            compact(s.drop_last()).push(forgiven(c))
        }
    }
}

/// Why a text names no peer.
#[derive(Debug)]
pub enum PeerError {
    /// The text is no nickname, id or short code.
    NotAPeer(String),
    /// A character of the short code is no symbol.
    InvalidSymbol,
    /// The check symbol of the short code does not match.
    CheckMismatch,
    /// The short code writes bytes that are no id, for this reason.
    InvalidCode(String),
    /// The contact holds this in place of an id, and why it is none.
    ContactId(String, String),
    /// The contact holds this in place of an address, and why it is none.
    ContactAddr(String, String),
}

/// An error as a value of the specification.
pub enum PeerErrorView {
    NotAPeer(Seq<char>),
    InvalidSymbol,
    CheckMismatch,
    InvalidCode(Seq<char>),
    ContactId(Seq<char>, Seq<char>),
    ContactAddr(Seq<char>, Seq<char>),
}

impl View for PeerError {
    type V = PeerErrorView;

    open spec fn view(&self) -> PeerErrorView {
        match self {
            PeerError::NotAPeer(t) => PeerErrorView::NotAPeer(t@),
            PeerError::InvalidSymbol => PeerErrorView::InvalidSymbol,
            PeerError::CheckMismatch => PeerErrorView::CheckMismatch,
            PeerError::InvalidCode(why) => PeerErrorView::InvalidCode(why@),
            PeerError::ContactId(t, why) => PeerErrorView::ContactId(t@, why@),
            PeerError::ContactAddr(t, why) => PeerErrorView::ContactAddr(t@, why@),
        }
    }
}

impl PeerErrorView {
    /// What is reported.
    pub open spec fn says(self, catalog: Map<Seq<char>, Seq<char>>) -> Seq<char> {
        match self {
            PeerErrorView::NotAPeer(t) => said(
                catalog,
                "'{0}' is not a contact name, EndpointId, or short code"@,
                seq![t],
            ),
            PeerErrorView::InvalidSymbol => looked_up(catalog, "invalid character in short code"@),
            PeerErrorView::CheckMismatch => looked_up(
                catalog,
                "short code check digit mismatch (typo?)"@,
            ),
            PeerErrorView::InvalidCode(_) => looked_up(
                catalog,
                "invalid EndpointId in short code"@,
            ),
            PeerErrorView::ContactId(t, _) => said(
                catalog,
                "contact has invalid EndpointId '{0}'"@,
                seq![t],
            ),
            PeerErrorView::ContactAddr(t, _) => said(
                catalog,
                "contact has invalid address '{0}'"@,
                seq![t],
            ),
        }
    }

    /// The cause, where there is one.
    pub open spec fn cause(self) -> Option<Seq<char>> {
        match self {
            PeerErrorView::InvalidCode(why) => Some(why),
            PeerErrorView::ContactId(_, why) => Some(why),
            PeerErrorView::ContactAddr(_, why) => Some(why),
            _ => None,
        }
    }

    /// The error with its cause and this code on it.
    pub open spec fn chain(
        self,
        catalog: Map<Seq<char>, Seq<char>>,
        code: Option<i32>,
    ) -> Seq<(Seq<char>, Option<i32>)> {
        match self.cause() {
            Some(why) => seq![(self.says(catalog), code), (why, None::<i32>)],
            None => seq![(self.says(catalog), code)],
        }
    }
}

impl PeerError {
    /// What is reported.
    pub fn message(&self, catalog: &Catalog) -> (r: String)
        ensures
            r@ == self@.says(catalog@),
    {
        match self {
            PeerError::NotAPeer(t) => say1(
                catalog,
                "'{0}' is not a contact name, EndpointId, or short code",
                t.clone(),
            ),
            PeerError::InvalidSymbol => lookup(catalog, "invalid character in short code"),
            PeerError::CheckMismatch => lookup(catalog, "short code check digit mismatch (typo?)"),
            PeerError::InvalidCode(_) => lookup(catalog, "invalid EndpointId in short code"),
            PeerError::ContactId(t, _) => say1(
                catalog,
                "contact has invalid EndpointId '{0}'",
                t.clone(),
            ),
            PeerError::ContactAddr(t, _) => say1(
                catalog,
                "contact has invalid address '{0}'",
                t.clone(),
            ),
        }
    }

    /// The error with its cause.
    pub fn error(self, catalog: &Catalog) -> (r: Error)
        ensures
            r.wf(),
            r@ == self@.chain(catalog@, None),
    {
        let text = self.message(catalog);
        match self {
            PeerError::InvalidCode(why) => because(text, why),
            PeerError::ContactId(_, why) => because(text, why),
            PeerError::ContactAddr(_, why) => because(text, why),
            _ => Error::msg(text),
        }
    }
}

/// The id that a text writes, given what iroh's own parser made of it: an id
/// in iroh's forms; else 53 symbols of which the last is the check symbol;
/// else 52 symbols without one.
pub open spec fn token_id(token: Seq<char>, parsed: Option<Seq<u8>>) -> Result<
    Seq<u8>,
    PeerErrorView,
> {
    let code = compact(trim_of(token));
    match parsed {
        Some(id) => Ok(id),
        None => if code.len() == 53 {
            let body = code.take(52);
            if !all_symbols(body) {
                Err(PeerErrorView::InvalidSymbol)
            } else if symbol(check_value(decoded(body).take(32))) != code[52] {
                Err(PeerErrorView::CheckMismatch)
            } else if !is_endpoint_id(decoded(body).take(32)) {
                Err(PeerErrorView::InvalidCode(bad_key_text()))
            } else {
                Ok(decoded(body).take(32))
            }
        } else if encode_utf8(code).len() == 52 && all_symbols(code) && decoded(code).len() >= 32 {
            if !is_endpoint_id(decoded(code).take(32)) {
                Err(PeerErrorView::InvalidCode(bad_key_text()))
            } else {
                Ok(decoded(code).take(32))
            }
        } else {
            Err(PeerErrorView::NotAPeer(token))
        },
    }
}

/// The id that a text writes.
pub open spec fn parsed_token(token: Seq<char>) -> Result<Seq<u8>, PeerErrorView> {
    token_id(token, endpoint_token(trim_of(token)))
}

fn compacted(v: &Vec<char>, from: usize, to: usize) -> (r: Vec<char>)
    requires
        from <= to <= v@.len(),
    ensures
        r@ == compact(v@.subrange(from as int, to as int)),
{
    let ghost s = v@.subrange(from as int, to as int);
    let mut out: Vec<char> = Vec::new();
    let mut i: usize = from;
    while i < to
        invariant
            from <= i <= to <= v@.len(),
            s == v@.subrange(from as int, to as int),
            out@ == compact(s.take(i - from)),
        decreases to - i,
    {
        let c: char = v[i];
        proof {
            assert(s.take(i - from + 1).drop_last() =~= s.take(i - from));
            assert(s.take(i - from + 1).last() == c);
        }
        if !(c == '-' || char_is_space(c)) {
            let u: char = char_upper(c);
            if u == 'I' || u == 'L' {
                out.push('1');
            } else if u == 'O' {
                out.push('0');
            } else {
                out.push(u);
            }
        }
        i = i + 1;
    }
    proof {
        assert(s.take(to - from) =~= s);
    }
    out
}

fn first_32(b: &Vec<u8>) -> (r: [u8; 32])
    requires
        b@.len() >= 32,
    ensures
        r@ == b@.take(32),
{
    let mut out: [u8; 32] = [0u8; 32];
    let mut i: usize = 0;
    while i < 32
        invariant
            i <= 32 <= b@.len(),
            out@.len() == 32,
            forall|j: int| 0 <= j < i ==> out@[j] == b@[j],
        decreases 32 - i,
    {
        out[i] = b[i];
        i = i + 1;
    }
    proof {
        assert(out@ =~= b@.take(32));
    }
    out
}

proof fn lemma_decoded_len(s: Seq<char>)
    requires
        s.len() == 52,
    ensures
        decoded(s).len() == 32,
{
    crate::crockford::lemma_decoded_len(s);
}

/// What a text writes, given what iroh's own parser made of it.
pub fn token_from_parsed(token: &str, parsed: Option<EndpointId>) -> (r: Result<
    EndpointId,
    PeerError,
>)
    ensures
        match r {
            Ok(id) => token_id(
                token@,
                match parsed {
                    Some(p) => Some(p@),
                    None => None,
                },
            ) == Ok::<Seq<u8>, PeerErrorView>(id@),
            Err(e) => token_id(
                token@,
                match parsed {
                    Some(p) => Some(p@),
                    None => None,
                },
            ) == Err::<Seq<u8>, PeerErrorView>(e@),
        },
{
    if let Some(id) = parsed {
        return Ok(id);
    }
    let v = chars_of(token);
    let (a, b) = trim_range(&v, 0, v.len());
    proof {
        assert(v@.subrange(0, v@.len() as int) =~= v@);
    }
    let code = compacted(&v, a, b);
    if code.len() == 53 {
        match decode_crockford(&code, 52) {
            None => Err(PeerError::InvalidSymbol),
            Some(bytes) => {
                proof {
                    lemma_decoded_len(code@.take(52));
                }
                let arr = first_32(&bytes);
                if check_symbol(arr.as_slice()) != code[52] {
                    return Err(PeerError::CheckMismatch);
                }
                match endpoint_id_from_bytes(arr) {
                    Ok(id) => Ok(id),
                    Err(why) => Err(PeerError::InvalidCode(why)),
                }
            },
        }
    } else {
        let text = string_from(&code);
        if text.as_str().as_bytes().len() == 52 {
            let n: usize = code.len();
            proof {
                assert(code@.take(n as int) =~= code@);
            }
            if let Some(bytes) = decode_crockford(&code, n) {
                if bytes.len() >= 32 {
                    return match endpoint_id_from_bytes(first_32(&bytes)) {
                        Ok(id) => Ok(id),
                        Err(why) => Err(PeerError::InvalidCode(why)),
                    };
                }
            }
        }
        Err(PeerError::NotAPeer(token.to_owned()))
    }
}

/// Whether `c` passes through `compact` unchanged: an ASCII digit or capital
/// other than `I`, `L` and `O`.
pub open spec fn is_clean(c: char) -> bool {
    ('0' <= c <= '9' || 'A' <= c <= 'Z') && c != 'I' && c != 'L' && c != 'O'
}

/// Whether every character is clean.
pub open spec fn all_clean(s: Seq<char>) -> bool {
    forall|i: int| 0 <= i < s.len() ==> is_clean(#[trigger] s[i])
}

proof fn lemma_compact_clean(s: Seq<char>)
    requires
        all_clean(s),
    ensures
        compact(s) == s,
    decreases s.len(),
{
    if s.len() > 0 {
        assert forall|i: int| 0 <= i < s.drop_last().len() implies is_clean(
            #[trigger] s.drop_last()[i],
        ) by {
            assert(is_clean(s[i]));
        }
        lemma_compact_clean(s.drop_last());
        assert(is_clean(s[s.len() - 1]));
        assert(s.drop_last().push(s.last()) =~= s);
    } else {
        assert(compact(s) =~= s);
    }
}

proof fn lemma_compact_add(a: Seq<char>, b: Seq<char>)
    ensures
        compact(a + b) == compact(a) + compact(b),
    decreases b.len(),
{
    if b.len() == 0 {
        assert(a + b =~= a);
        assert(compact(a) + compact(b) =~= compact(a));
    } else {
        lemma_compact_add(a, b.drop_last());
        assert((a + b).drop_last() =~= a + b.drop_last());
        assert(compact(a + b) =~= compact(a) + compact(b));
    }
}

proof fn lemma_compact_dash()
    ensures
        compact(seq!['-']) == Seq::<char>::empty(),
{
    reveal_with_fuel(compact, 2);
    assert(seq!['-'].drop_last() =~= Seq::<char>::empty());
}

proof fn lemma_dashed(s: Seq<char>)
    requires
        all_clean(s),
        s.len() > 0,
    ensures
        compact(dashed(s)) == s,
        dashed(s).len() == s.len() + (s.len() - 1) / 4,
        forall|i: int|
            0 <= i < dashed(s).len() ==> is_clean(#[trigger] dashed(s)[i]) || dashed(s)[i] == '-',
        is_clean(dashed(s).first()),
        is_clean(dashed(s).last()),
    decreases s.len(),
{
    if s.len() <= 4 {
        lemma_compact_clean(s);
        assert(is_clean(s[0]));
        assert(is_clean(s[s.len() - 1]));
    } else {
        let head = s.take(4);
        let tail = s.skip(4);
        assert forall|i: int| 0 <= i < head.len() implies is_clean(#[trigger] head[i]) by {
            assert(is_clean(s[i]));
        }
        assert forall|i: int| 0 <= i < tail.len() implies is_clean(#[trigger] tail[i]) by {
            assert(is_clean(s[i + 4]));
        }
        lemma_dashed(tail);
        lemma_compact_clean(head);
        lemma_compact_dash();
        lemma_compact_add(head, seq!['-']);
        assert(head.push('-') =~= head + seq!['-']);
        lemma_compact_add(head.push('-'), dashed(tail));
        assert(compact(dashed(s)) =~= head + tail);
        assert(head + tail =~= s);
        let d = dashed(s);
        assert(d =~= head.push('-') + dashed(tail));
        assert forall|i: int| 0 <= i < d.len() implies is_clean(#[trigger] d[i]) || d[i]
            == '-' by {
            if i < 4 {
                assert(d[i] == head[i]);
            } else if i == 4 {
                assert(d[i] == '-');
            } else {
                assert(d[i] == dashed(tail)[i - 5]);
            }
        }
        assert(d.first() == head[0]);
        assert(d.last() == dashed(tail).last());
    }
}

proof fn lemma_code_clean(id: Seq<u8>)
    requires
        id.len() == 32,
    ensures
        crockford_of(id).len() == 52,
        all_clean(crockford_of(id)),
        code_symbols(id).len() == 53,
        all_clean(code_symbols(id)),
        all_symbols(crockford_of(id)),
        decoded(crockford_of(id)) == id,
        code_symbols(id).take(52) == crockford_of(id),
{
    lemma_crockford_shape(id);
    law_crockford_round_trip(id);
    let c = crockford_of(id);
    assert forall|i: int| 0 <= i < c.len() implies is_clean(#[trigger] c[i]) by {
        assert(crockford_of(id)[i] == symbol(symbols_of(id)[i]));
        lemma_symbol_round_trip(symbols_of(id)[i]);
    }
    lemma_check_range(id);
    lemma_symbol_round_trip(check_value(id));
    let all = code_symbols(id);
    assert forall|i: int| 0 <= i < all.len() implies is_clean(#[trigger] all[i]) by {
        if i < 52 {
            assert(all[i] == c[i]);
        }
    }
    assert(all.take(52) =~= c);
}

proof fn lemma_check_range(data: Seq<u8>)
    ensures
        check_value(data) < 32,
{
}

proof fn lemma_clean_utf8(s: Seq<char>)
    requires
        forall|i: int| 0 <= i < s.len() ==> is_clean(#[trigger] s[i]) || s[i] == '-',
    ensures
        encode_utf8(s).len() == s.len(),
{
    assert(vstd::utf8::is_ascii_chars(s)) by {
        assert forall|i: int| 0 <= i < s.len() implies 0 <= #[trigger] s[i] as nat && (s[i] as nat)
            < 128 by {
            assert(is_clean(s[i]) || s[i] == '-');
        }
    }
    vstd::utf8::is_ascii_chars_encode_utf8(s);
}

/// Whether two characters count as the same in a typed code.
pub open spec fn typed_alike(a: char, b: char) -> bool {
    forgiven(a) == forgiven(b)
}

/// Lower case is typed for upper case, `I` and `L` for `1`, and `O` for `0`.
pub proof fn law_typed_alike(c: char)
    ensures
        typed_alike(lower(c), c),
        typed_alike('I', '1') && typed_alike('i', '1'),
        typed_alike('L', '1') && typed_alike('l', '1'),
        typed_alike('O', '0') && typed_alike('o', '0'),
{
}

/// Characters that count as the same leave what is read of a code as it is.
pub proof fn law_spelling_does_not_matter(s: Seq<char>, t: Seq<char>)
    requires
        s.len() == t.len(),
        forall|i: int| 0 <= i < s.len() ==> typed_alike(#[trigger] s[i], t[i]),
    ensures
        compact(s) == compact(t),
    decreases s.len(),
{
    if s.len() > 0 {
        assert(typed_alike(s[s.len() - 1], t[s.len() - 1]));
        assert forall|i: int| 0 <= i < s.drop_last().len() implies typed_alike(
            #[trigger] s.drop_last()[i],
            t.drop_last()[i],
        ) by {
            assert(typed_alike(s[i], t[i]));
        }
        law_spelling_does_not_matter(s.drop_last(), t.drop_last());
    }
}

/// A dash or white space, wherever it stands in a typed code, leaves what is
/// read of it as it is.
pub proof fn law_separators_do_not_matter(a: Seq<char>, c: char, b: Seq<char>)
    requires
        c == '-' || is_space(c),
    ensures
        compact(a + seq![c] + b) == compact(a + b),
{
    lemma_compact_add(a, seq![c]);
    lemma_compact_add(a + seq![c], b);
    lemma_compact_add(a, b);
    reveal_with_fuel(compact, 2);
    assert(compact(seq![c]) =~= Seq::<char>::empty());
    assert(compact(a + seq![c]) =~= compact(a));
}

proof fn lemma_compact_trim(s: Seq<char>)
    ensures
        compact(trim_of(s)) == compact(s),
{
    lemma_compact_trim_start(s);
    lemma_compact_trim_end(crate::text::trim_start_of(s));
}

proof fn lemma_compact_trim_start(s: Seq<char>)
    ensures
        compact(crate::text::trim_start_of(s)) == compact(s),
    decreases s.len(),
{
    if s.len() > 0 && is_space(s.first()) {
        let rest = s.drop_first();
        lemma_compact_trim_start(rest);
        law_separators_do_not_matter(Seq::empty(), s.first(), rest);
        assert(Seq::<char>::empty() + seq![s.first()] + rest =~= s);
        assert(Seq::<char>::empty() + rest =~= rest);
    }
}

proof fn lemma_compact_trim_end(s: Seq<char>)
    ensures
        compact(crate::text::trim_end_of(s)) == compact(s),
    decreases s.len(),
{
    if s.len() > 0 && is_space(s.last()) {
        lemma_compact_trim_end(s.drop_last());
    }
}

proof fn lemma_compact_len(s: Seq<char>)
    ensures
        compact(s).len() <= s.len() <= encode_utf8(s).len(),
    decreases s.len(),
{
    if s.len() > 0 {
        lemma_compact_len(s.drop_last());
        lemma_utf8_len(s);
    }
}

proof fn lemma_utf8_len(s: Seq<char>)
    ensures
        s.len() <= encode_utf8(s).len(),
    decreases s.len(),
{
    if s.len() > 0 {
        lemma_utf8_len(s.drop_first());
    }
}

proof fn lemma_hex_compact_len(b: Seq<u8>)
    ensures
        compact(hex_of(b)).len() == 2 * b.len(),
    decreases b.len(),
{
    lemma_hex_shape(b);
    let h = hex_of(b);
    lemma_compact_keeps(h);
}

proof fn lemma_compact_keeps(s: Seq<char>)
    requires
        forall|i: int| 0 <= i < s.len() ==> '0' <= #[trigger] s[i] <= '9' || 'a' <= s[i] <= 'f',
    ensures
        compact(s).len() == s.len(),
    decreases s.len(),
{
    if s.len() > 0 {
        let front = s.drop_last();
        assert forall|i: int| 0 <= i < front.len() implies '0' <= #[trigger] front[i] <= '9' || 'a'
            <= front[i] <= 'f' by {
            assert(front[i] == s[i]);
        }
        lemma_compact_keeps(front);
        assert(s[s.len() - 1] == s.last());
    }
}

/// A code of the symbols of an id and one more, however it is typed, is not
/// in one of iroh's own forms: its length rules that out.
proof fn lemma_code_is_not_iroh(typed: Seq<char>)
    requires
        compact(typed).len() == 53,
    ensures
        encode_utf8(trim_of(typed)).len() != 52,
        forall|b: Seq<u8>| b.len() == 32 ==> trim_of(typed) != #[trigger] hex_of(b),
{
    lemma_compact_trim(typed);
    lemma_compact_len(trim_of(typed));
    assert forall|b: Seq<u8>| b.len() == 32 implies trim_of(typed) != #[trigger] hex_of(b) by {
        lemma_hex_compact_len(b);
    }
}

/// The symbols of an id and one more, however they are typed: the id, if the
/// last is its check symbol, and otherwise an error.
proof fn lemma_code_reads_back(id: Seq<u8>, check: char, typed: Seq<char>)
    requires
        id.len() == 32,
        is_endpoint_id(id),
        compact(typed) == crockford_of(id).push(check),
    ensures
        token_id(typed, None) == if check == symbol(check_value(id)) {
            Ok::<Seq<u8>, PeerErrorView>(id)
        } else {
            Err(PeerErrorView::CheckMismatch)
        },
{
    lemma_code_clean(id);
    lemma_compact_trim(typed);
    assert(id.take(32) =~= id);
    assert(crockford_of(id).push(check).take(52) =~= crockford_of(id));
}

/// The symbols of an id without a check symbol, however they are typed, where
/// iroh's own parser does not take them.
proof fn lemma_bare_code_reads_back(id: Seq<u8>, typed: Seq<char>)
    requires
        id.len() == 32,
        is_endpoint_id(id),
        compact(typed) == crockford_of(id),
    ensures
        token_id(typed, None) == Ok::<Seq<u8>, PeerErrorView>(id),
{
    lemma_code_clean(id);
    lemma_compact_trim(typed);
    lemma_clean_utf8(crockford_of(id));
    assert(id.take(32) =~= id);
}

/// What is read of the short code of an id are its symbols.
pub proof fn law_short_code_symbols(id: Seq<u8>)
    requires
        id.len() == 32,
    ensures
        compact(short_code(id)) == code_symbols(id),
        compact(code_symbols(id)) == code_symbols(id),
        compact(crockford_of(id)) == crockford_of(id),
{
    lemma_code_clean(id);
    lemma_dashed(code_symbols(id));
    lemma_compact_clean(code_symbols(id));
    lemma_compact_clean(crockford_of(id));
}

proof fn lemma_hex_shape(b: Seq<u8>)
    ensures
        hex_of(b).len() == 2 * b.len(),
        forall|i: int|
            0 <= i < hex_of(b).len() ==> '0' <= #[trigger] hex_of(b)[i] <= '9' || 'a' <= hex_of(b)[i]
                <= 'f',
    decreases b.len(),
{
    if b.len() > 0 {
        lemma_hex_shape(b.drop_last());
        let h = hex_of(b);
        let n = hex_of(b.drop_last()).len() as int;
        assert forall|i: int| 0 <= i < h.len() implies '0' <= #[trigger] h[i] <= '9' || 'a' <= h[i]
            <= 'f' by {
            if i < n {
                assert(h[i] == hex_of(b.drop_last())[i]);
            } else {
                assert(h[i] == crate::text::hex_byte(b.last())[i - n]);
            }
        }
    }
}

proof fn lemma_hex_trim(b: Seq<u8>)
    requires
        b.len() > 0,
    ensures
        trim_of(hex_of(b)) == hex_of(b),
{
    lemma_hex_shape(b);
    let h = hex_of(b);
    assert(!is_space(h[0]));
    assert(!is_space(h[h.len() - 1]));
}

/// Reads an endpoint id in one of iroh's own forms, or a short code with or
/// without its check symbol. Case, dashes, white space and the letters that
/// are mistaken for digits do not matter in a short code.
///
/// The short code of every id, however it is typed, and the hexadecimal form
/// read back as that id. A short code with any other check symbol is refused.
/// A code without check symbol reads back where it is not an id in iroh's
/// Base32 form as well.
pub fn parse_endpoint_token(token: &str) -> (r: Result<EndpointId, PeerError>)
    ensures
        match r {
            Ok(id) => parsed_token(token@) == Ok::<Seq<u8>, PeerErrorView>(id@)
                && is_endpoint_id(id@),
            Err(e) => parsed_token(token@) == Err::<Seq<u8>, PeerErrorView>(e@),
        },
        forall|id: Seq<u8>|
            id.len() == 32 && is_endpoint_id(id) && compact(token@) == #[trigger] code_symbols(id)
                ==> r is Ok && r->Ok_0@ == id,
        forall|id: Seq<u8>|
            id.len() == 32 && is_endpoint_id(id) && token@ == #[trigger] short_code(id) ==> r is Ok
                && r->Ok_0@ == id,
        forall|id: Seq<u8>, c: char|
            id.len() == 32 && is_endpoint_id(id) && c != symbol(check_value(id)) && compact(token@)
                == #[trigger] crockford_of(id).push(c) ==> r is Err
                && r->Err_0@ == PeerErrorView::CheckMismatch,
        forall|id: Seq<u8>|
            id.len() == 32 && is_endpoint_id(id) && token@ == #[trigger] hex_of(id) ==> r is Ok
                && r->Ok_0@ == id,
        forall|id: Seq<u8>|
            id.len() == 32 && is_endpoint_id(id) && compact(token@) == #[trigger] crockford_of(id)
                && endpoint_token(trim_of(token@)) is None ==> r is Ok && r->Ok_0@ == id,
{
    let t = trim(token);
    let parsed = match parse_endpoint_id(t.as_str()) {
        Ok(id) => Some(id),
        Err(_) => None,
    };
    proof {
        assert forall|id: Seq<u8>, c: char|
            id.len() == 32 && is_endpoint_id(id) && compact(token@) == #[trigger] crockford_of(
                id,
            ).push(c) implies parsed_token(token@) == if c == symbol(check_value(id)) {
            Ok::<Seq<u8>, PeerErrorView>(id)
        } else {
            Err(PeerErrorView::CheckMismatch)
        } by {
            lemma_code_clean(id);
            lemma_code_is_not_iroh(token@);
            lemma_code_reads_back(id, c, token@);
        }
        assert forall|id: Seq<u8>|
            id.len() == 32 && is_endpoint_id(id) && compact(token@) == #[trigger] code_symbols(
                id,
            ) implies parsed_token(token@) == Ok::<Seq<u8>, PeerErrorView>(id) by {
            assert(code_symbols(id) == crockford_of(id).push(symbol(check_value(id))));
        }
        assert forall|id: Seq<u8>|
            id.len() == 32 && is_endpoint_id(id) && token@ == #[trigger] short_code(
                id,
            ) implies parsed_token(token@) == Ok::<Seq<u8>, PeerErrorView>(id) by {
            law_short_code_symbols(id);
        }
        assert forall|id: Seq<u8>|
            id.len() == 32 && is_endpoint_id(id) && compact(token@) == #[trigger] crockford_of(id)
                && endpoint_token(trim_of(token@)) is None implies parsed_token(token@) == Ok::<
            Seq<u8>,
            PeerErrorView,
        >(id) by {
            lemma_bare_code_reads_back(id, token@);
        }
        assert forall|id: Seq<u8>|
            id.len() == 32 && is_endpoint_id(id) && token@ == #[trigger] hex_of(
                id,
            ) implies parsed_token(token@) == Ok::<Seq<u8>, PeerErrorView>(id) by {
            lemma_hex_trim(id);
        }
    }
    token_from_parsed(token, parsed)
}

/// A peer to dial.
#[derive(Debug)]
pub struct ResolvedPeer {
    pub id: EndpointId,
    pub relays: Vec<String>,
    pub addrs: Vec<SocketAddr>,
    pub name: Option<String>,
}

/// A resolved peer as a value of the specification.
pub struct ResolvedView {
    pub id: Seq<u8>,
    pub relays: Seq<Seq<char>>,
    pub addrs: Seq<SocketAddr>,
    pub name: Option<Seq<char>>,
}

impl View for ResolvedPeer {
    type V = ResolvedView;

    open spec fn view(&self) -> ResolvedView {
        ResolvedView {
            id: self.id@,
            relays: texts(self.relays@),
            addrs: self.addrs@,
            name: match self.name {
                Some(n) => Some(n@),
                None => None,
            },
        }
    }
}

/// Position of the first address hint that is no address.
pub open spec fn bad_addr(addrs: Seq<AddrHint>) -> Option<int>
    decreases addrs.len(),
{
    if addrs.len() == 0 {
        None
    } else {
        match bad_addr(addrs.drop_last()) {
            Some(i) => Some(i),
            None => if addrs.last().addr is Err {
                Some(addrs.len() - 1)
            } else {
                None
            },
        }
    }
}

proof fn lemma_bad_addr_stays(addrs: Seq<AddrHint>, k: int)
    requires
        0 <= k <= addrs.len(),
        bad_addr(addrs.take(k)) is Some,
    ensures
        bad_addr(addrs) == bad_addr(addrs.take(k)),
    decreases addrs.len() - k,
{
    if k < addrs.len() {
        assert(addrs.take(k + 1).drop_last() =~= addrs.take(k));
        lemma_bad_addr_stays(addrs, k + 1);
    } else {
        assert(addrs.take(k) =~= addrs);
    }
}

/// A contact as a peer to dial; its id is judged before its addresses.
pub open spec fn contact_peer(name: Seq<char>, c: Contact) -> Result<ResolvedView, PeerErrorView> {
    match endpoint_token(c.id@) {
        None => Err(PeerErrorView::ContactId(c.id@, endpoint_refusal(c.id@))),
        Some(id) => match bad_addr(c.addrs@) {
            Some(i) => Err(
                PeerErrorView::ContactAddr(c.addrs@[i].text@, c.addrs@[i].addr->Err_0@),
            ),
            None => Ok(
                ResolvedView {
                    id,
                    relays: texts(c.relays@),
                    addrs: c.addrs@.map_values(|a: AddrHint| a.addr->Ok_0),
                    name: Some(name),
                },
            ),
        },
    }
}

/// Copies of a list of strings.
pub fn copy_strings(v: &Vec<String>) -> (r: Vec<String>)
    ensures
        texts(r@) == texts(v@),
{
    let mut out: Vec<String> = Vec::new();
    let mut i: usize = 0;
    while i < v.len()
        invariant
            i <= v@.len(),
            out@.len() == i,
            forall|j: int| 0 <= j < i ==> (#[trigger] out@[j])@ == v@[j]@,
        decreases v@.len() - i,
    {
        out.push(v[i].clone());
        i = i + 1;
    }
    proof {
        assert(texts(out@) =~= texts(v@));
    }
    out
}

fn contact_to_resolved(name: &String, c: &Contact) -> (r: Result<ResolvedPeer, PeerError>)
    ensures
        match r {
            Ok(p) => contact_peer(name@, *c) == Ok::<ResolvedView, PeerErrorView>(p@)
                && is_endpoint_id(p.id@),
            Err(e) => contact_peer(name@, *c) == Err::<ResolvedView, PeerErrorView>(e@),
        },
        forall|b: Seq<u8>|
            b.len() == 32 && is_endpoint_id(b) && c.id@ == #[trigger] hex_of(b) ==> endpoint_token(
                c.id@,
            ) == Some(b),
{
    let parsed = parse_endpoint_id(c.id.as_str());
    match parsed {
        Err(why) => Err(PeerError::ContactId(c.id.clone(), why)),
        Ok(id) => {
            let mut addrs: Vec<SocketAddr> = Vec::new();
            let mut i: usize = 0;
            while i < c.addrs.len()
                invariant
                    i <= c.addrs@.len(),
                    bad_addr(c.addrs@.take(i as int)) is None,
                    endpoint_token(c.id@) == Some(id@),
                    addrs@.len() == i,
                    forall|j: int| 0 <= j < i ==> #[trigger] addrs@[j] == c.addrs@[j].addr->Ok_0,
                    forall|b: Seq<u8>|
                        b.len() == 32 && is_endpoint_id(b) && c.id@ == #[trigger] hex_of(b)
                            ==> endpoint_token(c.id@) == Some(b),
                decreases c.addrs@.len() - i,
            {
                proof {
                    assert(c.addrs@.take(i + 1).drop_last() =~= c.addrs@.take(i as int));
                }
                match &c.addrs[i].addr {
                    Err(why) => {
                        proof {
                            lemma_bad_addr_stays(c.addrs@, i + 1);
                        }
                        return Err(
                            PeerError::ContactAddr(c.addrs[i].text.clone(), why.clone()),
                        );
                    },
                    Ok(a) => {
                        addrs.push(*a);
                    },
                }
                i = i + 1;
            }
            proof {
                assert(c.addrs@.take(c.addrs@.len() as int) =~= c.addrs@);
                assert(addrs@ =~= c.addrs@.map_values(|a: AddrHint| a.addr->Ok_0));
            }
            Ok(
                ResolvedPeer {
                    id,
                    relays: copy_strings(&c.relays),
                    addrs,
                    name: Some(name.clone()),
                },
            )
        },
    }
}

/// Position of the first nickname that is `key` but for ASCII case.
pub open spec fn first_ignoring_case(s: Seq<(Seq<char>, Contact)>, key: Seq<char>) -> Option<int>
    decreases s.len(),
{
    if s.len() == 0 {
        None
    } else {
        match first_ignoring_case(s.drop_last(), key) {
            Some(i) => Some(i),
            None => if lower_all(s.last().0) == lower_all(key) {
                Some(s.len() - 1)
            } else {
                None
            },
        }
    }
}

proof fn lemma_first_ignoring_case_stays(s: Seq<(Seq<char>, Contact)>, key: Seq<char>, k: int)
    requires
        0 <= k <= s.len(),
        first_ignoring_case(s.take(k), key) is Some,
    ensures
        first_ignoring_case(s, key) == first_ignoring_case(s.take(k), key),
    decreases s.len() - k,
{
    if k < s.len() {
        assert(s.take(k + 1).drop_last() =~= s.take(k));
        lemma_first_ignoring_case_stays(s, key, k + 1);
    } else {
        assert(s.take(k) =~= s);
    }
}

fn find_ignoring_case(book: &ContactBook, key: &str) -> (r: Option<usize>)
    ensures
        match r {
            Some(i) => i < book@.len() && first_ignoring_case(book@, key@) == Some(i as int),
            None => first_ignoring_case(book@, key@) is None,
        },
{
    let mut i: usize = 0;
    while i < book.len()
        invariant
            i <= book@.len(),
            first_ignoring_case(book@.take(i as int), key@) is None,
        decreases book@.len() - i,
    {
        proof {
            assert(book@.take(i + 1).drop_last() =~= book@.take(i as int));
        }
        if eq_ignore_case(book.name_at(i).as_str(), key) {
            proof {
                lemma_first_ignoring_case_stays(book@, key@, i + 1);
            }
            return Some(i);
        }
        i = i + 1;
    }
    proof {
        assert(book@.take(book@.len() as int) =~= book@);
    }
    None
}

/// The peer that `to` names: the contact with that nickname, else the first
/// one whose nickname differs in ASCII case alone, else an id or short code.
pub open spec fn peer_of(s: Seq<(Seq<char>, Contact)>, to: Seq<char>) -> Result<
    ResolvedView,
    PeerErrorView,
> {
    let key = trim_of(to);
    if has_name(s, key) {
        contact_peer(key, book_map(s)[key])
    } else {
        match first_ignoring_case(s, key) {
            Some(i) => contact_peer(s[i].0, s[i].1),
            None => match parsed_token(key) {
                Ok(id) => Ok(
                    ResolvedView { id, relays: Seq::empty(), addrs: Seq::empty(), name: None },
                ),
                Err(e) => Err(e),
            },
        }
    }
}

/// The peer that `to` names.
///
/// A contact that was saved under exactly this nickname with the hexadecimal
/// form of an id, and without bad addresses, gives that id.
pub fn resolve(book: &ContactBook, to: &str) -> (r: Result<ResolvedPeer, PeerError>)
    requires
        book.wf(),
    ensures
        match r {
            Ok(p) => peer_of(book@, to@) == Ok::<ResolvedView, PeerErrorView>(p@)
                && is_endpoint_id(p.id@),
            Err(e) => peer_of(book@, to@) == Err::<ResolvedView, PeerErrorView>(e@),
        },
        forall|id: Seq<u8>|
            id.len() == 32 && is_endpoint_id(id) && has_name(book@, trim_of(to@)) && book_map(
                book@,
            )[trim_of(to@)].id@ == #[trigger] hex_of(id) && bad_addr(
                book_map(book@)[trim_of(to@)].addrs@,
            ) is None ==> r is Ok && r->Ok_0.id@ == id,
{
    let key = trim(to);
    let (found, i) = book.find(key.as_str());
    if found {
        proof {
            lemma_book_get(book@, i as int);
        }
        return contact_to_resolved(book.name_at(i), book.contact_at(i));
    }
    if let Some(j) = find_ignoring_case(book, key.as_str()) {
        return contact_to_resolved(book.name_at(j), book.contact_at(j));
    }
    match parse_endpoint_token(key.as_str()) {
        Ok(id) => {
            let relays: Vec<String> = Vec::new();
            let addrs: Vec<SocketAddr> = Vec::new();
            proof {
                assert(texts(relays@) =~= Seq::<Seq<char>>::empty());
            }
            Ok(ResolvedPeer { id, relays, addrs, name: None })
        },
        Err(e) => Err(e),
    }
}

/// A contact that was saved with an id is found by that id.
pub proof fn law_saved_contact_is_found_by_id(
    s: Seq<(Seq<char>, Contact)>,
    i: int,
    hex: Seq<char>,
)
    requires
        0 <= i < s.len(),
        lower_all(s[i].1.id@) == lower_all(hex),
    ensures
        first_with_id(s, hex) is Some,
        first_with_id(s, hex)->0 <= i,
        0 <= first_with_id(s, hex)->0,
        lower_all(s[first_with_id(s, hex)->0].1.id@) == lower_all(hex),
    decreases s.len(),
{
    lemma_first_with_id_range(s, hex);
    if i < s.len() - 1 {
        assert(s.drop_last()[i] == s[i]);
        law_saved_contact_is_found_by_id(s.drop_last(), i, hex);
    }
}

proof fn lemma_first_with_id_range(s: Seq<(Seq<char>, Contact)>, hex: Seq<char>)
    ensures
        first_with_id(s, hex) matches Some(i) ==> 0 <= i < s.len() && lower_all(s[i].1.id@)
            == lower_all(hex),
    decreases s.len(),
{
    if s.len() > 0 {
        lemma_first_with_id_range(s.drop_last(), hex);
    }
}

/// Saves the peer that a text writes under a nickname.
pub fn add_contact(book: &mut ContactBook, name: String, token: &str) -> (r: Result<
    EndpointId,
    PeerError,
>)
    requires
        old(book).wf(),
    ensures
        final(book).wf(),
        match r {
            Ok(id) => parsed_token(token@) == Ok::<Seq<u8>, PeerErrorView>(id@) && is_endpoint_id(
                id@,
            ) && exists|c: Contact| #[trigger]
                is_bare_contact(c, id@) && book_map(final(book)@) == book_map(old(book)@).insert(
                    name@,
                    c,
                ),
            Err(e) => parsed_token(token@) == Err::<Seq<u8>, PeerErrorView>(e@) && final(book)@
                == old(book)@,
        },
{
    match parse_endpoint_token(token) {
        Err(e) => Err(e),
        Ok(id) => {
            let relays: Vec<String> = Vec::new();
            let addrs: Vec<AddrHint> = Vec::new();
            let c = Contact { id: id.to_text(), relays, addrs };
            proof {
                assert(is_bare_contact(c, id@));
            }
            book.insert(name, c);
            Ok(id)
        },
    }
}

/// A contact that holds an id and nothing else.
pub open spec fn is_bare_contact(c: Contact, id: Seq<u8>) -> bool {
    c.id@ == hex_of(id) && c.relays@.len() == 0 && c.addrs@.len() == 0
}

/// A peer that was saved is known by its id from then on, whatever else the
/// book holds.
pub proof fn law_saved_peers_are_known(
    before: Seq<(Seq<char>, Contact)>,
    after: Seq<(Seq<char>, Contact)>,
    name: Seq<char>,
    c: Contact,
    id: Seq<u8>,
)
    requires
        is_bare_contact(c, id),
        book_map(after) == book_map(before).insert(name, c),
    ensures
        first_with_id(after, hex_of(id)) is Some,
{
    assert(book_map(after).contains_key(name));
    let i = place_of(after, name);
    assert(book_map(after)[name] == c);
    law_saved_contact_is_found_by_id(after, i, hex_of(id));
}

/// The error of removing a contact that is not there.
pub fn no_such_contact(catalog: &Catalog, name: &str) -> (r: String)
    ensures
        r@ == said(catalog@, "no contact named '{0}'"@, seq![name@]),
{
    say1(catalog, "no contact named '{0}'", name.to_owned())
}

/// The lines that `contact list` prints: nickname, tab, id.
pub open spec fn listing(s: Seq<(Seq<char>, Contact)>) -> Seq<Seq<char>> {
    s.map_values(|e: (Seq<char>, Contact)| e.0 + seq!['\t'] + e.1.id@)
}

/// The lines that `contact list` prints, in the order of the book.
pub fn contact_lines(book: &ContactBook) -> (r: Vec<String>)
    ensures
        texts(r@) == listing(book@),
{
    let mut out: Vec<String> = Vec::new();
    let mut i: usize = 0;
    while i < book.len()
        invariant
            i <= book@.len(),
            out@.len() == i,
            forall|j: int| 0 <= j < i ==> (#[trigger] out@[j])@ == listing(book@)[j],
        decreases book@.len() - i,
    {
        let mut line = book.name_at(i).clone();
        line.push('\t');
        line.append(book.contact_at(i).id.as_str());
        proof {
            assert(line@ =~= listing(book@)[i as int]);
        }
        out.push(line);
        i = i + 1;
    }
    proof {
        assert(texts(out@) =~= listing(book@));
    }
    out
}

/// The two lines by which a peer is told an id.
pub fn machine_identity(id: &EndpointId) -> (r: (String, String))
    ensures
        r.0@ == "ENDPOINT_ID="@ + hex_of(id@),
        r.1@ == "SHORT_CODE="@ + short_code(id@),
{
    let mut a = "ENDPOINT_ID=".to_owned();
    a.append(id.to_text().as_str());
    let mut b = "SHORT_CODE=".to_owned();
    b.append(encode_short_code(id).as_str());
    (a, b)
}

/// The id that belongs to a secret key, and the two lines that tell it.
pub fn identity_code(secret: &[u8; 32]) -> (r: (EndpointId, String, String))
    ensures
        r.0@ == public_key(secret@),
        is_endpoint_id(r.0@),
        r.1@ == "ENDPOINT_ID="@ + hex_of(r.0@),
        r.2@ == "SHORT_CODE="@ + short_code(r.0@),
{
    let id = public_of(secret);
    let (a, b) = machine_identity(&id);
    (id, a, b)
}

/// The hint to save a peer who is not in the book yet.
pub fn hint_save_contact(catalog: &Catalog, peer: &ResolvedPeer) -> (r: Option<String>)
    ensures
        r is None == peer.name is Some,
        r matches Some(s) ==> s@ == said(
            catalog@,
            "tip: save them so next time is just a name:\n  link-p2p contact add <nickname> {0}"@,
            seq![short_code(peer.id@)],
        ),
{
    match &peer.name {
        Some(_) => None,
        None => Some(
            say1(
                catalog,
                "tip: save them so next time is just a name:\n  link-p2p contact add <nickname> {0}",
                encode_short_code(&peer.id),
            ),
        ),
    }
}

/// The invitation to hand one's own code to the other side.
pub fn hint_share_identity(catalog: &Catalog, id: &EndpointId) -> (r: Vec<Line>)
    ensures
        lines_of(r@) == seq![
            (
                0u8,
                Tone::Dim,
                looked_up(
                    catalog@,
                    "give the other peer your SHORT_CODE (or ENDPOINT_ID); both sides run the same `call`:"@,
                ),
            ),
            (2u8, Tone::Highlight, short_code(id@)),
        ],
{
    let mut out: Vec<Line> = Vec::new();
    put(
        &mut out,
        0,
        Tone::Dim,
        lookup(
            catalog,
            "give the other peer your SHORT_CODE (or ENDPOINT_ID); both sides run the same `call`:",
        ),
    );
    put(&mut out, 2, Tone::Highlight, encode_short_code(id));
    out
}

proof fn lemma_bad_addr(addrs: Seq<AddrHint>)
    ensures
        match bad_addr(addrs) {
            None => forall|j: int| 0 <= j < addrs.len() ==> (#[trigger] addrs[j]).addr is Ok,
            Some(i) => 0 <= i < addrs.len() && addrs[i].addr is Err && forall|j: int|
                0 <= j < i ==> (#[trigger] addrs[j]).addr is Ok,
        },
    decreases addrs.len(),
{
    if addrs.len() > 0 {
        let front = addrs.drop_last();
        lemma_bad_addr(front);
        match bad_addr(front) {
            Some(i) => {
                assert forall|j: int| 0 <= j < i implies (#[trigger] addrs[j]).addr is Ok by {
                    assert(front[j].addr is Ok);
                }
            },
            None => {
                assert forall|j: int| 0 <= j < front.len() implies (#[trigger] addrs[j]).addr is Ok by {
                    assert(front[j].addr is Ok);
                }
            },
        }
    }
}

proof fn lemma_first_ignoring_case(s: Seq<(Seq<char>, Contact)>, key: Seq<char>)
    ensures
        match first_ignoring_case(s, key) {
            None => forall|j: int|
                0 <= j < s.len() ==> lower_all((#[trigger] s[j]).0) != lower_all(key),
            Some(i) => 0 <= i < s.len() && lower_all(s[i].0) == lower_all(key) && forall|j: int|
                0 <= j < i ==> lower_all((#[trigger] s[j]).0) != lower_all(key),
        },
    decreases s.len(),
{
    if s.len() > 0 {
        let front = s.drop_last();
        lemma_first_ignoring_case(front, key);
        match first_ignoring_case(front, key) {
            Some(i) => {
                assert forall|j: int| 0 <= j < i implies lower_all((#[trigger] s[j]).0)
                    != lower_all(key) by {
                    assert(lower_all(front[j].0) != lower_all(key));
                }
            },
            None => {
                assert forall|j: int| 0 <= j < front.len() implies lower_all((#[trigger] s[j]).0)
                    != lower_all(key) by {
                    assert(lower_all(front[j].0) != lower_all(key));
                }
            },
        }
    }
}

/// Whether the contact at `i` is the one that a key names: it has exactly this
/// nickname, or none has and it is the first whose nickname is the key but for
/// ASCII case.
pub open spec fn is_named(s: Seq<(Seq<char>, Contact)>, key: Seq<char>, i: int) -> bool {
    &&& 0 <= i < s.len()
    &&& s[i].0 == key || {
        &&& lower_all(s[i].0) == lower_all(key)
        &&& forall|j: int| 0 <= j < s.len() ==> (#[trigger] s[j]).0 != key
        &&& forall|j: int| 0 <= j < i ==> lower_all((#[trigger] s[j]).0) != lower_all(key)
    }
}

proof fn lemma_named(s: Seq<(Seq<char>, Contact)>, to: Seq<char>, i: int)
    requires
        ascending(s),
        is_named(s, trim_of(to), i),
    ensures
        peer_of(s, to) == contact_peer(s[i].0, s[i].1),
{
    let key = trim_of(to);
    lemma_first_ignoring_case(s, key);
    if s[i].0 == key {
        assert(has_name(s, key));
        lemma_book_get(s, i);
    } else {
        assert(!has_name(s, key));
        let k = first_ignoring_case(s, key)->0;
        if k < i {
            assert(lower_all(s[k].0) != lower_all(key));
        }
    }
}

/// A peer that is dialed by its nickname is dialed with all that was saved of
/// it: every address hint gives its address, in order, every relay is kept, in
/// order, and the nickname is the saved one. It fails where the saved id or a
/// hint cannot be read, and names the id, or else the first such hint.
pub proof fn law_contact_is_dialed_with_all_it_holds(
    book: ContactBook,
    to: &str,
    i: int,
    r: Result<ResolvedPeer, PeerError>,
)
    requires
        book.wf(),
        is_named(book@, trim_of(to@), i),
        call_ensures(resolve, (&book, to), r),
    ensures
        ({
            let c = book@[i].1;
            &&& r matches Ok(p) ==> {
                &&& endpoint_token(c.id@) == Some(p.id@)
                &&& p.addrs@.len() == c.addrs@.len()
                &&& forall|j: int|
                    0 <= j < c.addrs@.len() ==> (#[trigger] c.addrs@[j]).addr
                        == Ok::<SocketAddr, String>(p.addrs@[j])
                &&& p.relays@.len() == c.relays@.len()
                &&& forall|j: int|
                    0 <= j < c.relays@.len() ==> (#[trigger] c.relays@[j])@ == p.relays@[j]@
                &&& p.name is Some && p.name->0@ == book@[i].0
            }
            &&& r is Ok <==> endpoint_token(c.id@) is Some && forall|j: int|
                0 <= j < c.addrs@.len() ==> (#[trigger] c.addrs@[j]).addr is Ok
            &&& endpoint_token(c.id@) is None ==> r is Err && r->Err_0@ is ContactId
                && r->Err_0@->ContactId_0 == c.id@
            &&& r matches Err(PeerError::ContactAddr(t, why)) ==> exists|j: int|
                0 <= j < c.addrs@.len() && t@ == (#[trigger] c.addrs@[j]).text@ && (
                c.addrs@[j].addr matches Err(w) && w@ == why@) && forall|k: int|
                    0 <= k < j ==> (#[trigger] c.addrs@[k]).addr is Ok
        }),
{
    let c = book@[i].1;
    lemma_named(book@, to@, i);
    lemma_bad_addr(c.addrs@);
    if let Ok(p) = r {
        assert(bad_addr(c.addrs@) is None);
        assert forall|j: int| 0 <= j < c.addrs@.len() implies (#[trigger] c.addrs@[j]).addr
            == Ok::<SocketAddr, String>(p.addrs@[j]) by {
            assert(p@.addrs[j] == c.addrs@[j].addr->Ok_0);
        }
        assert(texts(p.relays@).len() == texts(c.relays@).len());
        assert forall|j: int| 0 <= j < c.relays@.len() implies (#[trigger] c.relays@[j])@
            == p.relays@[j]@ by {
            assert(texts(p.relays@)[j] == texts(c.relays@)[j]);
        }
    }
    if let Err(PeerError::ContactAddr(t, why)) = r {
        let j = bad_addr(c.addrs@)->0;
        assert(t@ == c.addrs@[j].text@);
    }
}

/// What is no nickname, whatever its case, is read as an id or short code; the
/// peer then has neither addresses nor relays nor a name.
pub proof fn law_other_names_are_ids(
    book: ContactBook,
    to: &str,
    r: Result<ResolvedPeer, PeerError>,
)
    requires
        book.wf(),
        forall|j: int|
            0 <= j < book@.len() ==> lower_all((#[trigger] book@[j]).0) != lower_all(
                trim_of(to@),
            ),
        call_ensures(resolve, (&book, to), r),
    ensures
        match (r, parsed_token(trim_of(to@))) {
            (Ok(p), Ok(id)) => p.id@ == id && p.addrs@.len() == 0 && p.relays@.len() == 0
                && p.name is None,
            (Err(e), Err(f)) => e@ == f,
            _ => false,
        },
{
    let key = trim_of(to@);
    lemma_first_ignoring_case(book@, key);
    if has_name(book@, key) {
        let j = place_of(book@, key);
        assert(lower_all(book@[j].0) != lower_all(key));
    }
    if let Ok(p) = r {
        assert(texts(p.relays@).len() == p.relays@.len());
    }
}

/// A peer that was saved under a nickname is dialed by it, whatever else the
/// book holds.
pub proof fn law_saved_peer_is_dialed(
    before: ContactBook,
    after: ContactBook,
    name: Seq<char>,
    c: Contact,
    id: Seq<u8>,
    to: &str,
    r: Result<ResolvedPeer, PeerError>,
)
    requires
        after.wf(),
        id.len() == 32,
        is_endpoint_id(id),
        c.id@ == hex_of(id) && c.relays@.len() == 0 && c.addrs@.len() == 0,
        book_map(after@) == book_map(before@).insert(name, c),
        trim_of(to@) == name,
        call_ensures(resolve, (&after, to), r),
    ensures
        r matches Ok(p) && p.id@ == id && p.name is Some && p.name->0@ == name && p.addrs@.len()
            == 0 && p.relays@.len() == 0,
{
    assert(book_map(after@).contains_key(name));
    let i = place_of(after@, name);
    assert(book_map(after@)[name] == c);
    assert(after@[i] == (name, c));
    lemma_bad_addr(c.addrs@);
    law_contact_is_dialed_with_all_it_holds(after, to, i, r);
}

proof fn lemma_order_at(a: Seq<char>, b: Seq<char>, k: int)
    requires
        0 <= k <= a.len(),
        k <= b.len(),
        a.take(k) == b.take(k),
    ensures
        k < a.len() && k < b.len() && a[k] != b[k] ==> text_before(a, b) == (a[k] < b[k]),
        k == a.len() ==> text_before(a, b) == (a.len() < b.len()),
    decreases k,
{
    if k > 0 {
        assert(a.take(k)[0] == a[0] && b.take(k)[0] == b[0]);
        assert(a.drop_first().take(k - 1) =~= a.take(k).drop_first());
        assert(b.drop_first().take(k - 1) =~= b.take(k).drop_first());
        assert(k < a.len() ==> a.drop_first()[k - 1] == a[k]);
        assert(k < b.len() ==> b.drop_first()[k - 1] == b[k]);
        lemma_order_at(a.drop_first(), b.drop_first(), k - 1);
    }
}

/// Nicknames are ordered by the first character at which they differ; one that
/// another begins with comes before it.
pub proof fn law_nicknames_are_ordered_by_character(a: Seq<char>, b: Seq<char>, k: int)
    requires
        0 <= k <= a.len(),
        k <= b.len(),
        a.take(k) == b.take(k),
    ensures
        k < a.len() && k < b.len() && a[k] != b[k] ==> text_before(a, b) == (a[k] < b[k]),
        k == a.len() && k < b.len() ==> text_before(a, b) && !text_before(b, a),
        a == b ==> !text_before(a, b),
{
    lemma_order_at(a, b, k);
    lemma_before_total(a, b);
    lemma_order_at(a, a, a.len() as int);
}

/// Whether a nickname begins with what was typed, but for ASCII case.
pub open spec fn begins_with(name: Seq<char>, typed: Seq<char>) -> bool {
    typed.len() <= name.len() && forall|i: int|
        0 <= i < typed.len() ==> lower(#[trigger] name[i]) == lower(typed[i])
}

proof fn lemma_completes(name: Seq<char>, typed: Seq<char>)
    ensures
        completes(name, typed) == begins_with(name, typed),
{
    let n = typed.len() as int;
    if completes(name, typed) {
        assert forall|i: int| 0 <= i < n implies lower(#[trigger] name[i]) == lower(typed[i]) by {
            if starts_with(name, typed) {
                assert(name.take(n)[i] == typed[i]);
            } else {
                assert(lower_all(name).take(n)[i] == lower_all(typed)[i]);
            }
        }
    }
    if begins_with(name, typed) {
        assert forall|i: int| 0 <= i < n implies lower_all(name).take(n)[i] == lower_all(typed)[i] by {
            assert(lower(name[i]) == lower(typed[i]));
        }
        assert(lower_all(name).take(n) =~= lower_all(typed));
    }
}

/// Completion offers every nickname that begins with what was typed, but for
/// ASCII case, and no other, in the order of the book; beside each stands the
/// id, cut to twelve characters where it is longer.
pub proof fn law_completion_offers_what_fits(
    s: Seq<(Seq<char>, Contact)>,
    typed: Seq<char>,
)
    ensures
        completions(s, typed).len() == s.filter(
            |e: (Seq<char>, Contact)| begins_with(e.0, typed),
        ).len(),
        forall|k: int|
            0 <= k < completions(s, typed).len() ==> {
                let e = s.filter(|e: (Seq<char>, Contact)| begins_with(e.0, typed))[k];
                let shown = (#[trigger] completions(s, typed)[k]).1;
                &&& completions(s, typed)[k].0 == e.0
                &&& e.1.id@.len() <= 12 ==> shown == Some(e.1.id@)
                &&& e.1.id@.len() > 12 ==> shown == Some(e.1.id@.subrange(0, 12) + seq!['…'])
            },
    decreases s.len(),
{
    reveal(Seq::filter);
    if s.len() > 0 {
        law_completion_offers_what_fits(s.drop_last(), typed);
        lemma_completes(s.last().0, typed);
        let id = s.last().1.id@;
        if id.len() > 12 {
            assert(short_help(id) =~= id.subrange(0, 12) + seq!['…']);
        }
    }
}

/// An id is known by the first nickname in the book that was saved with it,
/// whatever the case of its digits, and by none where it was not saved.
pub proof fn law_ids_are_known_by_their_nickname(
    book: ContactBook,
    id: EndpointId,
    shown: String,
    name: Option<String>,
    known: bool,
    i: int,
)
    requires
        call_ensures(EndpointId::to_text, (&id,), shown),
        call_ensures(name_for_id, (&book, &id), name),
        call_ensures(crate::phone_ring::is_known_contact, (&book, &id), known),
    ensures
        0 <= i < book@.len() && lower_all(book@[i].1.id@) == lower_all(shown@) && (forall|j: int|
            0 <= j < i ==> lower_all((#[trigger] book@[j]).1.id@) != lower_all(shown@)) ==> name
            is Some && name->0@ == book@[i].0,
        (forall|j: int|
            0 <= j < book@.len() ==> lower_all((#[trigger] book@[j]).1.id@) != lower_all(shown@))
            ==> name is None,
        known <==> name is Some,
{
    lemma_first_with_id_range(book@, shown@);
    if 0 <= i < book@.len() && lower_all(book@[i].1.id@) == lower_all(shown@) {
        law_saved_contact_is_found_by_id(book@, i, shown@);
        let k = first_with_id(book@, shown@)->0;
        if forall|j: int|
            0 <= j < i ==> lower_all((#[trigger] book@[j]).1.id@) != lower_all(shown@) {
            if k < i {
                assert(lower_all(book@[k].1.id@) != lower_all(shown@));
            }
        }
    }
}

/// What is read of a typed code is its characters without dashes and white
/// space, each in upper case, `1` for I and L, and `0` for O.
pub proof fn law_typed_codes_are_read_by_symbol(s: Seq<char>)
    ensures
        compact(s) == s.filter(|c: char| c != '-' && !is_space(c)).map_values(
            |c: char|
                if c == 'I' || c == 'i' || c == 'L' || c == 'l' {
                    '1'
                } else if c == 'O' || c == 'o' {
                    '0'
                } else if 97 <= c as u32 <= 122 {
                    (c as u32 - 32) as char
                } else {
                    c
                },
        ),
    decreases s.len(),
{
    reveal(Seq::filter);
    let kept = s.filter(|c: char| c != '-' && !is_space(c));
    let f = |c: char|
        if c == 'I' || c == 'i' || c == 'L' || c == 'l' {
            '1'
        } else if c == 'O' || c == 'o' {
            '0'
        } else if 97 <= c as u32 <= 122 {
            (c as u32 - 32) as char
        } else {
            c
        };
    if s.len() > 0 {
        law_typed_codes_are_read_by_symbol(s.drop_last());
        let before = s.drop_last().filter(|c: char| c != '-' && !is_space(c));
        if !(s.last() == '-' || is_space(s.last())) {
            assert(kept =~= before.push(s.last()));
            assert(kept.map_values(f) =~= before.map_values(f).push(f(s.last())));
            assert(f(s.last()) == forgiven(s.last()));
        } else {
            assert(kept =~= before);
        }
    } else {
        assert(kept.map_values(f) =~= compact(s));
    }
}

/// A short code is the symbols of the id and one check symbol, in groups of
/// four with a dash between them: 53 symbols and 13 dashes.
pub proof fn law_short_code_is_grouped(id: EndpointId, code: String, raw: String, check: char, i: int)
    requires
        call_ensures(encode_short_code, (&id,), code),
        raw@ == crockford_of(id@),
        check == symbol(check_value(id@)),
        0 <= i < 53,
    ensures
        raw@.len() == 52,
        code@.len() == 66,
        code@[i + i / 4] == (if i < 52 {
            raw@[i]
        } else {
            check
        }),
        i > 0 && i % 4 == 0 ==> code@[i + i / 4 - 1] == '-',
{
    lemma_code_clean(id@);
    lemma_dashed_at(code_symbols(id@), i);
}

proof fn lemma_dashed_at(s: Seq<char>, i: int)
    requires
        0 <= i < s.len(),
    ensures
        dashed(s).len() == s.len() + (s.len() - 1) / 4,
        dashed(s)[i + i / 4] == s[i],
        i > 0 && i % 4 == 0 ==> dashed(s)[i + i / 4 - 1] == '-',
    decreases s.len(),
{
    if s.len() > 4 {
        let tail = s.skip(4);
        let head = s.take(4).push('-');
        if i >= 4 {
            lemma_dashed_at(tail, i - 4);
            assert(tail[i - 4] == s[i]);
            assert(i + i / 4 == 5 + (i - 4) + (i - 4) / 4);
            if i == 4 {
                assert(dashed(s)[4] == head[4]);
            }
        } else {
            lemma_dashed_at(tail, 0);
            assert(dashed(s)[i] == head[i]);
        }
    }
}

/// The check symbol goes by the bytes' alternating sum modulo 32: of no bytes
/// it is that of 0, of one byte that of the byte, and two more bytes add what
/// the second exceeds the first by.
pub proof fn law_check_symbol(
    data: &[u8],
    longer: &[u8],
    x: u8,
    y: u8,
    short: char,
    long: char,
)
    requires
        call_ensures(check_symbol, (data,), short),
        call_ensures(check_symbol, (longer,), long),
        longer@ == data@.push(x).push(y),
    ensures
        exists|a: int, b: int|
            0 <= a < 32 && 0 <= b < 32 && short == #[trigger] crate::crockford::alphabet()[a]
                && long == #[trigger] crate::crockford::alphabet()[b] && b == (a + y - x) % 32,
        data@.len() == 0 ==> short == '0',
        data@.len() == 1 ==> short == crate::crockford::alphabet()[data@[0] as int % 32],
{
    let a = check_value(data@);
    let b = check_value(longer@);
    crate::crockford::lemma_alphabet(a);
    crate::crockford::lemma_alphabet(b);
    assert(longer@.drop_last() =~= data@.push(x));
    assert(data@.push(x).drop_last() =~= data@);
    assert(check_value(data@.push(x)) == (a * 31 + x) % 32);
    assert(b == (check_value(data@.push(x)) * 31 + y) % 32);
    assert(b == ((a * 31 + x) % 32 * 31 + y) % 32);
    assert(((a * 31 + x) % 32 * 31 + y) % 32 == (a + y - x) % 32) by (nonlinear_arith)
        requires
            a < 32,
    ;
    if data@.len() == 1 {
        assert(data@.drop_last() =~= Seq::<u8>::empty());
        assert(check_value(data@.drop_last()) == 0);
    }
}

/// A contact that was saved is found under its nickname, in place of the one
/// that stood there, until it is removed; others are found as before.
pub proof fn law_saved_contacts_are_found(
    book: &mut ContactBook,
    later: &mut ContactBook,
    name: String,
    contact: Contact,
    key: &str,
    other: &str,
    found: Option<&Contact>,
    before: Option<&Contact>,
    after: Option<&Contact>,
    removed: bool,
    gone: Option<&Contact>,
    kept: Option<&Contact>,
)
    requires
        old(book).wf(),
        key@ == name@,
        other@ != name@,
        call_ensures(ContactBook::insert, (book, name, contact), ()),
        call_ensures(ContactBook::get, (&*final(book), key), found),
        call_ensures(ContactBook::get, (&*old(book), other), before),
        call_ensures(ContactBook::get, (&*final(book), other), after),
        *old(later) == *final(book),
        call_ensures(ContactBook::remove, (later, key), removed),
        call_ensures(ContactBook::get, (&*final(later), key), gone),
        call_ensures(ContactBook::get, (&*final(later), other), kept),
    ensures
        found is Some && *found->0 == contact,
        before is Some <==> after is Some,
        before is Some ==> *before->0 == *after->0,
        removed,
        gone is None,
        before is Some <==> kept is Some,
        before is Some ==> *before->0 == *kept->0,
{
}

/// The list of contacts has one line for each, in the order of the book: its
/// nickname, a tab, and its id as it was saved.
pub proof fn law_contacts_are_listed(book: ContactBook, lines: Vec<String>, i: int)
    requires
        call_ensures(contact_lines, (&book,), lines),
    ensures
        lines@.len() == book@.len(),
        0 <= i < book@.len() ==> lines@[i]@ == book@[i].0 + seq!['\t'] + book@[i].1.id@,
{
    assert(texts(lines@).len() == lines@.len());
    if 0 <= i < book@.len() {
        assert(texts(lines@)[i] == lines@[i]@);
    }
}

} // verus!
