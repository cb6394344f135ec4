//! Message catalogs: which language a run speaks, the compiled catalog file,
//! message lookup, and templates with `{0}`, `{1}`, … placeholders.
//!
//! A catalog is a flat map from English message to translation. Looking up a
//! message that it lacks gives the English message back.

use vstd::hash_map::StringHashMap;
use vstd::prelude::*;
use vstd::utf8::{decode_utf8, valid_utf8};
use crate::bytes::{be32_at, copy_range, le32_at, read_be32, read_le32};
use crate::paths::{Base, Location};
use crate::text::{
    all_digits, char_lower, chars_of, is_digit, lower, number_of, parse_number, same_chars,
    same_text, split, split_of, string_of, texts, trim, trim_of,
};

verus! {

/// A map from message to translation.
pub struct Catalog {
    entries: StringHashMap<String>,
}

impl View for Catalog {
    type V = Map<Seq<char>, Seq<char>>;

    closed spec fn view(&self) -> Map<Seq<char>, Seq<char>> {
        self.entries@.map_values(|s: String| s@)
    }
}

impl Catalog {
    /// The catalog without entries: every message stays English.
    pub fn english() -> (r: Catalog)
        ensures
            r@ == Map::<Seq<char>, Seq<char>>::empty(),
    {
        let r = Catalog { entries: StringHashMap::new() };
        proof {
            assert(r@ =~= Map::<Seq<char>, Seq<char>>::empty());
        }
        r
    }

    /// Adds or replaces the translation of `msgid`.
    pub fn insert(&mut self, msgid: String, msgstr: String)
        ensures
            final(self)@ == old(self)@.insert(msgid@, msgstr@),
    {
        let ghost before = self.entries@;
        let ghost k = msgid@;
        let ghost v = msgstr@;
        self.entries.insert(msgid, msgstr);
        proof {
            assert(self@ =~= old(self)@.insert(k, v));
        }
    }

    /// The translation of `msgid`, where there is one.
    pub fn get(&self, msgid: &str) -> (r: Option<&String>)
        ensures
            match r {
                Some(s) => self@.contains_key(msgid@) && s@ == self@[msgid@],
                None => !self@.contains_key(msgid@),
            },
    {
        self.entries.get(msgid)
    }

    /// How many messages have a translation.
    pub fn len(&self) -> (r: usize)
        ensures
            r == self@.len(),
    {
        proof {
            assert(self@.dom() =~= self.entries@.dom());
        }
        self.entries.len()
    }
}

/// What a catalog `m` says for `msgid`: its translation, else `msgid` itself.
pub open spec fn looked_up(m: Map<Seq<char>, Seq<char>>, msgid: Seq<char>) -> Seq<char> {
    if m.contains_key(msgid) {
        m[msgid]
    } else {
        msgid
    }
}

/// Forgets all translations: messages are in English again.
pub fn reset_catalog(catalog: &mut Catalog)
    ensures
        final(catalog)@ == Map::<Seq<char>, Seq<char>>::empty(),
{
    *catalog = Catalog::english();
}

/// The translation of `msgid`, or `msgid` itself where the catalog has none.
pub fn lookup(catalog: &Catalog, msgid: &str) -> (r: String)
    ensures
        r@ == looked_up(catalog@, msgid@),
{
    match catalog.get(msgid) {
        Some(s) => s.clone(),
        None => msgid.to_owned(),
    }
}

/// How many decimal digits `t` begins with.
pub open spec fn digit_run(t: Seq<char>) -> nat
    decreases t.len(),
{
    if t.len() > 0 && is_digit(t.first()) {
        1 + digit_run(t.drop_first())
    } else {
        0
    }
}

/// Whether `t` begins with a placeholder: `{`, one or more digits, `}`.
pub open spec fn at_placeholder(t: Seq<char>) -> bool {
    let n = digit_run(t.drop_first());
    t.len() > 0 && t[0] == '{' && n > 0 && n + 1 < t.len() && t[n as int + 1] == '}'
}

/// `t` with each placeholder `{i}` replaced by argument `i`.
///
/// Placeholders are found in `t` alone, so text that an argument brings in is
/// never looked at again; a placeholder without an argument stays as it is.
pub open spec fn filled(t: Seq<char>, args: Seq<Seq<char>>) -> Seq<char>
    decreases t.len(),
{
    if t.len() == 0 {
        Seq::empty()
    } else if at_placeholder(t) {
        let n = digit_run(t.drop_first());
        let index = number_of(t.subrange(1, n as int + 1));
        let token = if index < args.len() {
            args[index as int]
        } else {
            t.take(n as int + 2)
        };
        token + filled(t.skip(n as int + 2), args)
    } else {
        seq![t[0]] + filled(t.skip(1), args)
    }
}

proof fn lemma_digit_run_is(t: Seq<char>, n: int)
    requires
        0 <= n <= t.len(),
        all_digits(t.take(n)),
        n < t.len() ==> !is_digit(t[n]),
    ensures
        digit_run(t) == n,
    decreases t.len(),
{
    if n > 0 {
        assert(is_digit(t.take(n)[0]));
        assert forall|i: int| 0 <= i < n - 1 implies is_digit(
            #[trigger] t.drop_first().take(n - 1)[i],
        ) by {
            assert(t.take(n)[i + 1] == t.drop_first().take(n - 1)[i]);
        }
        lemma_digit_run_is(t.drop_first(), n - 1);
    }
}

/// Replaces `{0}`, `{1}`, … in `template` by the corresponding `args`.
///
/// One pass over the template: an argument that itself reads like a
/// placeholder is inserted verbatim. Placeholders out of range and stray
/// braces stay literal.
pub fn tr_fmt_impl(template: &str, args: &[String]) -> (r: String)
    ensures
        r@ == filled(template@, texts(args@)),
{
    let t = chars_of(template);
    let count: usize = args.len();
    let ghost vals = texts(args@);
    let mut out = String::new();
    let mut i: usize = 0;
    proof {
        assert(t@.skip(0) =~= t@);
    }
    while i < t.len()
        invariant
            i <= t@.len(),
            vals == texts(args@),
            count == args@.len(),
            out@ + filled(t@.skip(i as int), vals) == filled(t@, vals),
        decreases t@.len() - i,
    {
        let ghost rest = t@.skip(i as int);
        let ghost done = out@;
        let mut j: usize = i + 1;
        while j < t.len() && '0' <= t[j] && t[j] <= '9'
            invariant
                i < j <= t@.len(),
                forall|k: int| i < k < j ==> is_digit(#[trigger] t@[k]),
            decreases t@.len() - j,
        {
            j = j + 1;
        }
        proof {
            let body = rest.drop_first();
            assert(body =~= t@.skip(i + 1));
            assert forall|k: int| 0 <= k < j - i - 1 implies is_digit(
                #[trigger] body.take(j - i - 1)[k],
            ) by {
                assert(is_digit(t@[i + 1 + k]));
            }
            lemma_digit_run_is(body, j - i - 1);
            assert(rest.subrange(1, j - i) =~= t@.subrange(i + 1, j as int));
            assert(body.take(j - i - 1) =~= t@.subrange(i + 1, j as int));
            if j < t@.len() {
                assert(rest[j - i] == t@[j as int]);
                assert(rest.skip(j - i + 1) =~= t@.skip(j + 1));
                assert(rest.take(j - i + 1) =~= t@.subrange(i as int, j + 1));
            }
            assert(rest.skip(1) =~= t@.skip(i + 1));
        }
        if t[i] == '{' && j > i + 1 && j < t.len() && t[j] == '}' {
            proof {
                assert(at_placeholder(rest));
            }
            let index = parse_number(&t, i + 1, j);
            let in_range: bool = match index {
                Some(n) => n < count as u64,
                None => false,
            };
            if in_range {
                let n: u64 = match index {
                    Some(n) => n,
                    None => 0,
                };
                out.append(args[n as usize].as_str());
                proof {
                    assert(vals[n as int] == args@[n as int]@);
                }
            } else {
                let token = string_of(&t, i, j + 1);
                out.append(token.as_str());
            }
            i = j + 1;
        } else {
            out.push(t[i]);
            i = i + 1;
            proof {
                assert(!at_placeholder(rest));
                assert(done.push(rest[0]) + filled(rest.skip(1), vals) =~= done + (seq![rest[0]]
                    + filled(rest.skip(1), vals)));
            }
        }
        proof {
            assert(out@ + filled(t@.skip(i as int), vals) =~= done + filled(rest, vals));
        }
    }
    proof {
        assert(out@ + Seq::<char>::empty() =~= out@);
    }
    out
}

/// The translated template with its placeholders filled.
pub fn tr_fmt(catalog: &Catalog, template: &str, args: &[String]) -> (r: String)
    ensures
        r@ == filled(looked_up(catalog@, template@), texts(args@)),
{
    let t = lookup(catalog, template);
    tr_fmt_impl(t.as_str(), args)
}

/// What a run with the given catalog says for a template and its arguments.
pub open spec fn said(
    catalog: Map<Seq<char>, Seq<char>>,
    template: Seq<char>,
    args: Seq<Seq<char>>,
) -> Seq<char> {
    filled(looked_up(catalog, template), args)
}

/// `tr_fmt` with one argument.
pub fn say1(catalog: &Catalog, template: &str, a: String) -> (r: String)
    ensures
        r@ == said(catalog@, template@, seq![a@]),
{
    let mut args: Vec<String> = Vec::new();
    args.push(a);
    proof {
        assert(texts(args@) =~= seq![a@]);
    }
    tr_fmt(catalog, template, args.as_slice())
}

/// `tr_fmt` with two arguments.
pub fn say2(catalog: &Catalog, template: &str, a: String, b: String) -> (r: String)
    ensures
        r@ == said(catalog@, template@, seq![a@, b@]),
{
    let mut args: Vec<String> = Vec::new();
    args.push(a);
    args.push(b);
    proof {
        assert(texts(args@) =~= seq![a@, b@]);
    }
    tr_fmt(catalog, template, args.as_slice())
}

/// `tr_fmt` with three arguments.
pub fn say3(catalog: &Catalog, template: &str, a: String, b: String, c: String) -> (r: String)
    ensures
        r@ == said(catalog@, template@, seq![a@, b@, c@]),
{
    let mut args: Vec<String> = Vec::new();
    args.push(a);
    args.push(b);
    args.push(c);
    proof {
        assert(texts(args@) =~= seq![a@, b@, c@]);
    }
    tr_fmt(catalog, template, args.as_slice())
}

/// Text without an opening brace comes out as it went in.
pub proof fn law_plain_text_is_unchanged(t: Seq<char>, args: Seq<Seq<char>>)
    requires
        forall|i: int| 0 <= i < t.len() ==> t[i] != '{',
    ensures
        filled(t, args) == t,
    decreases t.len(),
{
    if t.len() > 0 {
        law_plain_text_is_unchanged(t.skip(1), args);
        assert(seq![t[0]] + t.skip(1) =~= t);
    }
}

/// A placeholder is replaced by exactly its argument, whatever that argument
/// holds, and the scan goes on behind the placeholder.
pub proof fn law_arguments_are_not_rescanned(
    before: Seq<char>,
    digits: Seq<char>,
    after: Seq<char>,
    args: Seq<Seq<char>>,
)
    requires
        forall|i: int| 0 <= i < before.len() ==> before[i] != '{',
        digits.len() > 0,
        all_digits(digits),
        number_of(digits) < args.len(),
    ensures
        filled(before + seq!['{'] + digits + seq!['}'] + after, args) == before
            + args[number_of(digits) as int] + filled(after, args),
    decreases before.len(),
{
    let t = before + seq!['{'] + digits + seq!['}'] + after;
    if before.len() > 0 {
        law_arguments_are_not_rescanned(before.skip(1), digits, after, args);
        assert(t.skip(1) =~= before.skip(1) + seq!['{'] + digits + seq!['}'] + after);
        assert(seq![t[0]] + (before.skip(1) + args[number_of(digits) as int] + filled(after, args))
            =~= before + args[number_of(digits) as int] + filled(after, args));
    } else {
        let n = digits.len() as int;
        let body = t.drop_first();
        assert(body.take(n) =~= digits);
        assert(body[n] == '}');
        lemma_digit_run_is(body, n);
        assert(t.subrange(1, n + 1) =~= digits);
        assert(t.skip(n + 2) =~= after);
        assert(before + args[number_of(digits) as int] + filled(after, args)
            =~= args[number_of(digits) as int] + filled(after, args));
    }
}

/// Index of the first setting that is present and not empty.
pub open spec fn first_set(vars: Seq<Option<String>>) -> Option<int>
    decreases vars.len(),
{
    if vars.len() == 0 {
        None
    } else {
        match first_set(vars.drop_last()) {
            Some(i) => Some(i),
            None => match vars.last() {
                Some(v) => if v@.len() > 0 {
                    Some(vars.len() - 1)
                } else {
                    None
                },
                None => None,
            },
        }
    }
}

proof fn lemma_first_set_stays(vars: Seq<Option<String>>, k: int)
    requires
        0 <= k <= vars.len(),
        first_set(vars.take(k)) is Some,
    ensures
        first_set(vars) == first_set(vars.take(k)),
    decreases vars.len() - k,
{
    if k < vars.len() {
        assert(vars.take(k + 1).drop_last() =~= vars.take(k));
        lemma_first_set_stays(vars, k + 1);
    } else {
        assert(vars.take(k) =~= vars);
    }
}

/// The raw language setting: the first of `vars` that is set and not empty.
///
/// Callers pass the values of `LANGUAGE`, `LC_ALL`, `LC_MESSAGES` and `LANG`,
/// in this order.
pub fn env_lang(vars: &Vec<Option<String>>) -> (r: Option<String>)
    ensures
        match first_set(vars@) {
            Some(i) => r is Some && r->0@ == vars@[i]->0@,
            None => r is None,
        },
{
    let mut i: usize = 0;
    while i < vars.len()
        invariant
            i <= vars@.len(),
            first_set(vars@.take(i as int)) is None,
        decreases vars@.len() - i,
    {
        proof {
            assert(vars@.take(i + 1).drop_last() =~= vars@.take(i as int));
        }
        if let Some(v) = &vars[i] {
            if v.as_str().unicode_len() > 0 {
                proof {
                    lemma_first_set_stays(vars@, i + 1);
                }
                return Some(v.clone());
            }
        }
        i = i + 1;
    }
    proof {
        assert(vars@.take(vars@.len() as int) =~= vars@);
    }
    None
}

/// A language specifier up to its first dot, in lower case, with `_` for `-`.
pub open spec fn lang_key(raw: Seq<char>) -> Seq<char> {
    split_of(raw, '.')[0].map_values(
        |c: char|
            if c == '-' {
                '_'
            } else {
                lower(c)
            },
    )
}

/// The catalog directory for a normalized language key.
pub open spec fn lang_dir(key: Seq<char>) -> Option<Seq<char>> {
    if key == "zh"@ || key == "zh_cn"@ {
        Some("zh_CN"@)
    } else if key == "ja"@ || key == "ja_jp"@ {
        Some("ja_JP"@)
    } else if key == "es"@ || key == "es_es"@ {
        Some("es_ES"@)
    } else {
        None
    }
}

/// The catalog directory for one language specifier such as `ja_JP.UTF-8`,
/// `zh-CN` or `es`; `None` for `C`, `POSIX` and languages without a catalog.
pub fn normalize_lang(raw: &str) -> (r: Option<&'static str>)
    ensures
        match r {
            Some(d) => lang_dir(lang_key(raw@)) == Some(d@),
            None => lang_dir(lang_key(raw@)) is None,
        },
{
    let pieces = split(raw, '.');
    proof {
        crate::text::lemma_split_nonempty(raw@, '.');
        assert(texts(pieces@).len() == pieces@.len());
        assert(texts(pieces@)[0] == pieces@[0]@);
    }
    let base = chars_of(pieces[0].as_str());
    let mut key: Vec<char> = Vec::new();
    let mut i: usize = 0;
    while i < base.len()
        invariant
            i <= base@.len(),
            key@.len() == i,
            forall|j: int|
                0 <= j < i ==> key@[j] == (if base@[j] == '-' {
                    '_'
                } else {
                    lower(base@[j])
                }),
        decreases base@.len() - i,
    {
        let c: char = base[i];
        if c == '-' {
            key.push('_');
        } else {
            key.push(char_lower(c));
        }
        i = i + 1;
    }
    proof {
        assert(key@ =~= lang_key(raw@));
    }
    if same_chars(&key, &chars_of("zh")) || same_chars(&key, &chars_of("zh_cn")) {
        Some("zh_CN")
    } else if same_chars(&key, &chars_of("ja")) || same_chars(&key, &chars_of("ja_jp")) {
        Some("ja_JP")
    } else if same_chars(&key, &chars_of("es")) || same_chars(&key, &chars_of("es_es")) {
        Some("es_ES")
    } else {
        None
    }
}

/// The language tags that a colon-separated setting lists.
pub open spec fn listed(parts: Seq<Seq<char>>) -> Seq<Seq<char>>
    decreases parts.len(),
{
    if parts.len() == 0 {
        Seq::empty()
    } else {
        let last = trim_of(parts.last());
        if last.len() == 0 {
            listed(parts.drop_last())
        } else {
            listed(parts.drop_last()).push(last)
        }
    }
}

/// The languages that a run prefers, most wanted first: those that the
/// environment setting lists, else those of the system.
pub fn language_prefs(setting: &Option<String>, system: Vec<String>) -> (r: Vec<String>)
    ensures
        texts(r@) == (match *setting {
            Some(raw) => listed(split_of(raw@, ':')),
            None => texts(system@),
        }),
{
    match setting {
        None => system,
        Some(raw) => {
            let parts = split(raw.as_str(), ':');
            let mut out: Vec<String> = Vec::new();
            let mut i: usize = 0;
            proof {
                assert(texts(out@) =~= Seq::<Seq<char>>::empty());
            }
            while i < parts.len()
                invariant
                    i <= parts@.len(),
                    texts(out@) == listed(texts(parts@).take(i as int)),
                decreases parts@.len() - i,
            {
                let p = trim(parts[i].as_str());
                let ghost before = texts(out@);
                let ghost pv = p@;
                proof {
                    assert(texts(parts@).take(i + 1).drop_last() =~= texts(parts@).take(i as int));
                    assert(texts(parts@).take(i + 1).last() == parts@[i as int]@);
                }
                if p.as_str().unicode_len() > 0 {
                    out.push(p);
                    proof {
                        assert(texts(out@) =~= before.push(pv));
                    }
                }
                i = i + 1;
            }
            proof {
                assert(texts(parts@).take(parts@.len() as int) =~= texts(parts@));
            }
            out
        },
    }
}

/// Where catalogs are searched, in order: the override, beside the binary,
/// the working directory, the build output.
pub fn candidates(override_set: bool, exe_known: bool) -> (r: Vec<Location>)
    ensures
        override_set ==> r@.len() > 0 && r@[0].base == Base::LocaleOverride && r@[0].names()
            == Seq::<Seq<char>>::empty(),
        r@.map_values(|l: Location| l.base) == (if override_set {
            seq![Base::LocaleOverride]
        } else {
            seq![]
        }) + (if exe_known {
            seq![Base::ExeDir]
        } else {
            seq![]
        }) + seq![Base::CurrentDir, Base::BuildDir],
        forall|i: int|
            0 <= i < r@.len() && (#[trigger] r@[i]).base != Base::LocaleOverride ==> r@[i].names()
                == seq!["locales"@],
{
    let mut dirs: Vec<Location> = Vec::new();
    if override_set {
        dirs.push(Location::at(Base::LocaleOverride));
    }
    if exe_known {
        dirs.push(Location::at(Base::ExeDir).join("locales"));
    }
    dirs.push(Location::at(Base::CurrentDir).join("locales"));
    dirs.push(Location::at(Base::BuildDir).join("locales"));
    proof {
        assert(Seq::<Seq<char>>::empty().push("locales"@) =~= seq!["locales"@]);
        assert(dirs@.map_values(|l: Location| l.base) =~= (if override_set {
            seq![Base::LocaleOverride]
        } else {
            seq![]
        }) + (if exe_known {
            seq![Base::ExeDir]
        } else {
            seq![]
        }) + seq![Base::CurrentDir, Base::BuildDir]);
    }
    dirs
}

/// The catalog file of `lang` under a catalog directory.
pub fn mo_path(dir: Location, lang: &str) -> (r: Location)
    ensures
        r.base == dir.base,
        r.names() == dir.names() + seq![lang@, "LC_MESSAGES"@, "link-p2p.mo"@],
{
    let ghost before = dir.names();
    let r = dir.join(lang).join("LC_MESSAGES").join("link-p2p.mo");
    proof {
        assert(r.names() =~= before + seq![lang@, "LC_MESSAGES"@, "link-p2p.mo"@]);
    }
    r
}

/// A catalog file that was found: the language directory it stands under, and
/// its bytes where they could be read.
pub struct CatalogFile {
    pub dir: String,
    pub bytes: Option<Vec<u8>>,
}

/// Index of the first file for language directory `dir`.
pub open spec fn file_for(files: Seq<CatalogFile>, dir: Seq<char>) -> Option<int>
    decreases files.len(),
{
    if files.len() == 0 {
        None
    } else {
        match file_for(files.drop_last(), dir) {
            Some(i) => Some(i),
            None => if files.last().dir@ == dir {
                Some(files.len() - 1)
            } else {
                None
            },
        }
    }
}

proof fn lemma_file_for_stays(files: Seq<CatalogFile>, dir: Seq<char>, k: int)
    requires
        0 <= k <= files.len(),
        file_for(files.take(k), dir) is Some,
    ensures
        file_for(files, dir) == file_for(files.take(k), dir),
    decreases files.len() - k,
{
    if k < files.len() {
        assert(files.take(k + 1).drop_last() =~= files.take(k));
        lemma_file_for_stays(files, dir, k + 1);
    } else {
        assert(files.take(k) =~= files);
    }
}

/// Position of the first file for `dir`.
pub fn find_file(files: &Vec<CatalogFile>, dir: &str) -> (r: Option<usize>)
    ensures
        match r {
            Some(i) => i < files@.len() && file_for(files@, dir@) == Some(i as int),
            None => file_for(files@, dir@) is None,
        },
{
    let mut i: usize = 0;
    while i < files.len()
        invariant
            i <= files@.len(),
            file_for(files@.take(i as int), dir@) is None,
        decreases files@.len() - i,
    {
        proof {
            assert(files@.take(i + 1).drop_last() =~= files@.take(i as int));
        }
        if same_text(files[i].dir.as_str(), dir) {
            proof {
                lemma_file_for_stays(files@, dir@, i + 1);
            }
            return Some(i);
        }
        i = i + 1;
    }
    proof {
        assert(files@.take(files@.len() as int) =~= files@);
    }
    None
}

/// The first preferred language that has a catalog file.
pub open spec fn chosen_lang(prefs: Seq<Seq<char>>, files: Seq<CatalogFile>) -> Option<Seq<char>>
    decreases prefs.len(),
{
    if prefs.len() == 0 {
        None
    } else {
        match lang_dir(lang_key(prefs.first())) {
            Some(d) => if file_for(files, d) is Some {
                Some(d)
            } else {
                chosen_lang(prefs.drop_first(), files)
            },
            None => chosen_lang(prefs.drop_first(), files),
        }
    }
}

proof fn lemma_chosen_has_file(prefs: Seq<Seq<char>>, files: Seq<CatalogFile>)
    ensures
        chosen_lang(prefs, files) matches Some(d) ==> file_for(files, d) is Some,
    decreases prefs.len(),
{
    if prefs.len() > 0 {
        lemma_chosen_has_file(prefs.drop_first(), files);
    }
}

/// Walks the preferences and picks the first language with a catalog file;
/// unsupported languages are skipped.
pub fn resolve_lang(prefs: &Vec<String>, files: &Vec<CatalogFile>) -> (r: Option<&'static str>)
    ensures
        match r {
            Some(d) => chosen_lang(texts(prefs@), files@) == Some(d@),
            None => chosen_lang(texts(prefs@), files@) is None,
        },
{
    let mut i: usize = 0;
    proof {
        assert(texts(prefs@).skip(0) =~= texts(prefs@));
    }
    while i < prefs.len()
        invariant
            i <= prefs@.len(),
            chosen_lang(texts(prefs@), files@) == chosen_lang(texts(prefs@).skip(i as int), files@),
        decreases prefs@.len() - i,
    {
        proof {
            assert(texts(prefs@).skip(i as int).first() == prefs@[i as int]@);
            assert(texts(prefs@).skip(i as int).drop_first() =~= texts(prefs@).skip(i + 1));
        }
        if let Some(d) = normalize_lang(prefs[i].as_str()) {
            if let Some(_) = find_file(files, d) {
                return Some(d);
            }
        }
        i = i + 1;
    }
    None
}

/// The text of a byte string in which invalid UTF-8 was replaced.
pub uninterp spec fn lossy_text(bytes: Seq<u8>) -> Seq<char>;

/// `String::from_utf8_lossy`: text that is valid UTF-8 is decoded; what stands
/// for invalid sequences is named by `lossy_text` and not stated further.
#[verifier::external_body]
pub(crate) fn from_utf8_lossy(bytes: &[u8]) -> (r: String)
    ensures
        r@ == lossy_text(bytes@),
        valid_utf8(bytes@) ==> r@ == decode_utf8(bytes@),
{
    String::from_utf8_lossy(bytes).into_owned()
}

/// Whether a catalog file is big-endian: its magic does not read as the
/// little-endian one.
pub open spec fn mo_big_endian(b: Seq<u8>) -> bool {
    le32_at(b, 0) != 0x9504_12de
}

/// The 32-bit word at `off` of a catalog file.
pub open spec fn mo_word(b: Seq<u8>, off: int) -> nat {
    if mo_big_endian(b) {
        be32_at(b, off)
    } else {
        le32_at(b, off)
    }
}

/// String `i` of the descriptor table at `tab`, where it lies in the file.
pub open spec fn mo_string(b: Seq<u8>, tab: nat, i: nat) -> Option<Seq<u8>> {
    let at = tab + i * 8;
    if at + 8 <= b.len() && mo_word(b, at as int + 4) + mo_word(b, at as int) <= b.len() {
        Some(
            b.subrange(
                mo_word(b, at as int + 4) as int,
                mo_word(b, at as int + 4) as int + mo_word(b, at as int) as int,
            ),
        )
    } else {
        None
    }
}

/// The entries of a catalog file up to number `n`; later ones win, and an
/// entry whose message is empty is left out.
pub open spec fn mo_entries(b: Seq<u8>, n: nat) -> Option<Map<Seq<char>, Seq<char>>>
    decreases n,
{
    if n == 0 {
        Some(Map::empty())
    } else {
        let i = (n - 1) as nat;
        match (mo_entries(b, i), mo_string(b, mo_word(b, 12), i), mo_string(b, mo_word(b, 16), i)) {
            (Some(m), Some(orig), Some(trans)) => if orig.len() == 0 {
                Some(m)
            } else {
                Some(m.insert(lossy_text(orig), lossy_text(trans)))
            },
            _ => None,
        }
    }
}

/// The catalog that a file holds, if it is one.
pub open spec fn mo_catalog(b: Seq<u8>) -> Option<Map<Seq<char>, Seq<char>>> {
    if b.len() < 28 {
        None
    } else {
        mo_entries(b, mo_word(b, 8))
    }
}

proof fn lemma_mo_entries_none(b: Seq<u8>, k: nat, n: nat)
    requires
        k <= n,
        mo_entries(b, k) is None,
    ensures
        mo_entries(b, n) is None,
    decreases n,
{
    if k < n {
        lemma_mo_entries_none(b, k, (n - 1) as nat);
    }
}

fn read_word(b: &[u8], off: usize) -> (r: u32)
    requires
        28 <= b@.len(),
        off + 4 <= b@.len(),
    ensures
        r == mo_word(b@, off as int),
{
    if read_le32(b, 0) != 0x9504_12de {
        read_be32(b, off)
    } else {
        read_le32(b, off)
    }
}

fn read_string(b: &[u8], tab: u32, i: u32) -> (r: Option<Vec<u8>>)
    requires
        28 <= b@.len(),
    ensures
        match r {
            Some(s) => mo_string(b@, tab as nat, i as nat) == Some(s@),
            None => mo_string(b@, tab as nat, i as nat) is None,
        },
{
    let at: u64 = tab as u64 + i as u64 * 8;
    if at + 8 > b.len() as u64 {
        return None;
    }
    let len: u32 = read_word(b, at as usize);
    let off: u32 = read_word(b, at as usize + 4);
    if off as u64 + len as u64 > b.len() as u64 {
        return None;
    }
    Some(copy_range(b, off as usize, off as usize + len as usize))
}

/// Reads a compiled catalog (GNU `.mo`, version 0) of either byte order.
///
/// `None` where the file is shorter than its header or a descriptor or a
/// string lies outside of it.
pub fn parse_mo(bytes: &[u8]) -> (r: Option<Catalog>)
    ensures
        match r {
            Some(c) => mo_catalog(bytes@) == Some(c@),
            None => mo_catalog(bytes@) is None,
        },
{
    if bytes.len() < 28 {
        return None;
    }
    let n: u32 = read_word(bytes, 8);
    let orig_tab: u32 = read_word(bytes, 12);
    let trans_tab: u32 = read_word(bytes, 16);
    let mut map = Catalog::english();
    let mut i: u32 = 0;
    while i < n
        invariant
            i <= n,
            28 <= bytes@.len(),
            n == mo_word(bytes@, 8),
            orig_tab == mo_word(bytes@, 12),
            trans_tab == mo_word(bytes@, 16),
            mo_entries(bytes@, i as nat) == Some(map@),
        decreases n - i,
    {
        let orig = read_string(bytes, orig_tab, i);
        let trans = read_string(bytes, trans_tab, i);
        match (orig, trans) {
            (Some(o), Some(t)) => {
                if o.len() > 0 {
                    map.insert(from_utf8_lossy(o.as_slice()), from_utf8_lossy(t.as_slice()));
                }
            },
            _ => {
                proof {
                    assert(mo_entries(bytes@, (i + 1) as nat) is None);
                    lemma_mo_entries_none(bytes@, (i + 1) as nat, n as nat);
                }
                return None;
            },
        }
        i = i + 1;
    }
    Some(map)
}

/// The catalog that a run starts with.
pub open spec fn initial_catalog(prefs: Seq<Seq<char>>, files: Seq<CatalogFile>) -> Map<
    Seq<char>,
    Seq<char>,
> {
    match chosen_lang(prefs, files) {
        Some(d) => match files[file_for(files, d)->0].bytes {
            Some(b) => match mo_catalog(b@) {
                Some(m) => m,
                None => Map::empty(),
            },
            None => Map::empty(),
        },
        None => Map::empty(),
    }
}

/// Picks the language of this run and loads its catalog. Never fails: without
/// a readable catalog every message stays English.
pub fn init(prefs: &Vec<String>, files: &Vec<CatalogFile>) -> (r: Catalog)
    ensures
        r@ == initial_catalog(texts(prefs@), files@),
{
    proof {
        lemma_chosen_has_file(texts(prefs@), files@);
    }
    match resolve_lang(prefs, files) {
        None => Catalog::english(),
        Some(d) => match find_file(files, d) {
            None => Catalog::english(),
            Some(i) => match &files[i].bytes {
                None => Catalog::english(),
                Some(b) => match parse_mo(b.as_slice()) {
                    Some(c) => c,
                    None => Catalog::english(),
                },
            },
        },
    }
}

/// A message that was given a translation is said in it; every other message
/// is said as before, and without translations in English.
pub proof fn law_translations_are_said(
    empty: Catalog,
    catalog: &mut Catalog,
    msgid: String,
    msgstr: String,
    id: &str,
    other: &str,
    english: String,
    translated: String,
    before: String,
    after: String,
)
    requires
        call_ensures(Catalog::english, (), empty),
        call_ensures(lookup, (&empty, id), english),
        call_ensures(Catalog::insert, (catalog, msgid, msgstr), ()),
        id@ == msgid@,
        other@ != msgid@,
        call_ensures(lookup, (&*final(catalog), id), translated),
        call_ensures(lookup, (&*old(catalog), other), before),
        call_ensures(lookup, (&*final(catalog), other), after),
    ensures
        english@ == id@,
        translated@ == msgstr@,
        after@ == before@,
{
}

/// A template is said as it stands up to its first opening brace. Where that
/// opens a number with a closing brace, the argument with that number stands in
/// its place, or, where there is none, what was written; any other brace stands
/// for itself. What follows is said in the same way.
pub proof fn law_templates_are_filled_in(
    template: &str,
    args: &[String],
    before: Seq<char>,
    digits: Seq<char>,
    after: Seq<char>,
    rest: &str,
    r: String,
    tail: String,
)
    requires
        call_ensures(tr_fmt_impl, (template, args), r),
        call_ensures(tr_fmt_impl, (rest, args), tail),
        forall|i: int| 0 <= i < before.len() ==> before[i] != '{',
    ensures
        template@ == before ==> r@ == before,
        template@ == before + seq!['{'] + digits + seq!['}'] + after && rest@ == after
            && digits.len() > 0 && all_digits(digits) && number_of(digits) < args@.len() ==> r@
            == before + args@[number_of(digits) as int]@ + tail@,
        template@ == before + seq!['{'] + digits + seq!['}'] + after && rest@ == after
            && digits.len() > 0 && all_digits(digits) && number_of(digits) >= args@.len() ==> r@
            == before + seq!['{'] + digits + seq!['}'] + tail@,
        template@ == before + seq!['{'] + after && rest@ == after && (after.len() == 0
            || !is_digit(after[0])) ==> r@ == before + seq!['{'] + tail@,
{
    let vals = texts(args@);
    if template@ == before {
        law_plain_text_is_unchanged(before, vals);
    }
    if template@ == before + seq!['{'] + digits + seq!['}'] + after && rest@ == after
        && digits.len() > 0 && all_digits(digits) {
        if number_of(digits) < args@.len() {
            law_arguments_are_not_rescanned(before, digits, after, vals);
            assert(vals[number_of(digits) as int] == args@[number_of(digits) as int]@);
        } else {
            lemma_unknown_placeholder(before, digits, after, vals);
        }
    }
    if template@ == before + seq!['{'] + after && rest@ == after && (after.len() == 0 || !is_digit(
        after[0],
    )) {
        lemma_stray_brace(before, after, vals);
    }
}

proof fn lemma_unknown_placeholder(
    before: Seq<char>,
    digits: Seq<char>,
    after: Seq<char>,
    args: Seq<Seq<char>>,
)
    requires
        forall|i: int| 0 <= i < before.len() ==> before[i] != '{',
        digits.len() > 0,
        all_digits(digits),
        number_of(digits) >= args.len(),
    ensures
        filled(before + seq!['{'] + digits + seq!['}'] + after, args) == before + seq!['{'] + digits
            + seq!['}'] + filled(after, args),
    decreases before.len(),
{
    let t = before + seq!['{'] + digits + seq!['}'] + after;
    if before.len() > 0 {
        lemma_unknown_placeholder(before.skip(1), digits, after, args);
        assert(t.skip(1) =~= before.skip(1) + seq!['{'] + digits + seq!['}'] + after);
        assert(seq![t[0]] + (before.skip(1) + seq!['{'] + digits + seq!['}'] + filled(after, args))
            =~= before + seq!['{'] + digits + seq!['}'] + filled(after, args));
    } else {
        let n = digits.len() as int;
        let body = t.drop_first();
        assert(body.take(n) =~= digits);
        assert(body[n] == '}');
        lemma_digit_run_is(body, n);
        assert(t.subrange(1, n + 1) =~= digits);
        assert(t.skip(n + 2) =~= after);
        assert(t.take(n + 2) =~= before + seq!['{'] + digits + seq!['}']);
    }
}

proof fn lemma_stray_brace(before: Seq<char>, after: Seq<char>, args: Seq<Seq<char>>)
    requires
        forall|i: int| 0 <= i < before.len() ==> before[i] != '{',
        after.len() == 0 || !is_digit(after[0]),
    ensures
        filled(before + seq!['{'] + after, args) == before + seq!['{'] + filled(after, args),
    decreases before.len(),
{
    let t = before + seq!['{'] + after;
    if before.len() > 0 {
        lemma_stray_brace(before.skip(1), after, args);
        assert(t.skip(1) =~= before.skip(1) + seq!['{'] + after);
        assert(seq![t[0]] + (before.skip(1) + seq!['{'] + filled(after, args)) =~= before + seq!['{']
            + filled(after, args));
    } else {
        assert(t.drop_first() =~= after);
        assert(t.skip(1) =~= after);
        assert(digit_run(after) == 0);
        assert(before + seq!['{'] + filled(after, args) =~= seq![t[0]] + filled(after, args));
    }
}

proof fn lemma_first_set(vars: Seq<Option<String>>)
    ensures
        match first_set(vars) {
            None => forall|j: int|
                0 <= j < vars.len() ==> !((#[trigger] vars[j]) is Some && vars[j]->0@.len() > 0),
            Some(i) => 0 <= i < vars.len() && vars[i] is Some && vars[i]->0@.len() > 0 && forall|
                j: int,
            |
                0 <= j < i ==> !((#[trigger] vars[j]) is Some && vars[j]->0@.len() > 0),
        },
    decreases vars.len(),
{
    if vars.len() > 0 {
        let front = vars.drop_last();
        lemma_first_set(front);
        match first_set(front) {
            Some(i) => {
                assert forall|j: int| 0 <= j < i implies !((#[trigger] vars[j]) is Some
                    && vars[j]->0@.len() > 0) by {
                    assert(front[j] == vars[j]);
                }
            },
            None => {
                assert forall|j: int| 0 <= j < front.len() implies !((#[trigger] vars[j]) is Some
                    && vars[j]->0@.len() > 0) by {
                    assert(front[j] == vars[j]);
                }
            },
        }
    }
}

/// The language setting is the first of the variables that is set to
/// something; there is none where none is.
pub proof fn law_first_setting_counts(vars: Vec<Option<String>>, i: int, r: Option<String>)
    requires
        call_ensures(env_lang, (&vars,), r),
    ensures
        0 <= i < vars@.len() && vars@[i] is Some && vars@[i]->0@.len() > 0 && (forall|j: int|
            0 <= j < i ==> !((#[trigger] vars@[j]) is Some && vars@[j]->0@.len() > 0)) ==> r is Some
            && r->0@ == vars@[i]->0@,
        (forall|j: int|
            0 <= j < vars@.len() ==> !((#[trigger] vars@[j]) is Some && vars@[j]->0@.len() > 0))
            ==> r is None,
{
    lemma_first_set(vars@);
    if 0 <= i < vars@.len() && vars@[i] is Some && vars@[i]->0@.len() > 0 && (forall|j: int|
        0 <= j < i ==> !((#[trigger] vars@[j]) is Some && vars@[j]->0@.len() > 0)) {
        let k = first_set(vars@)->0;
        if k < i {
            assert(!(vars@[k] is Some && vars@[k]->0@.len() > 0));
        }
    }
}

/// What follows the first dot of a language specifier does not matter, nor do
/// case and whether its parts are joined by a dash or an underscore.
pub proof fn law_specifiers_are_read_alike(
    a: &str,
    b: &str,
    base: Seq<char>,
    suffix: Seq<char>,
    r: Option<&'static str>,
    s: Option<&'static str>,
)
    requires
        call_ensures(normalize_lang, (a,), r),
        call_ensures(normalize_lang, (b,), s),
        !base.contains('.'),
        a@ == base || a@ == base + seq!['.'] + suffix,
        b@.len() == base.len(),
        forall|i: int|
            0 <= i < base.len() ==> {
                let x = #[trigger] base[i];
                let y = b@[i];
                ||| lower(x) == lower(y)
                ||| (x == '-' || x == '_') && (y == '-' || y == '_')
            },
    ensures
        r is Some <==> s is Some,
        r is Some ==> r->0@ == s->0@,
{
    assert(!b@.contains('.')) by {
        if b@.contains('.') {
            let i = choose|i: int| 0 <= i < b@.len() && b@[i] == '.';
            assert(base[i] == '.');
        }
    }
    crate::relay_probe::lemma_first_piece(b@, Seq::empty(), '.');
    assert(b@ + Seq::<char>::empty() =~= b@);
    if a@ == base {
        crate::relay_probe::lemma_first_piece(base, Seq::empty(), '.');
        assert(base + Seq::<char>::empty() =~= base);
    } else {
        crate::relay_probe::lemma_first_piece(base, seq!['.'] + suffix, '.');
        assert(base + (seq!['.'] + suffix) =~= a@);
    }
    let x = lang_key(a@);
    let y = lang_key(b@);
    assert forall|i: int| 0 <= i < base.len() implies x[i] == y[i] by {
        let c = base[i];
        let d = b@[i];
        assert(lower(c) == lower(d) || (c == '-' || c == '_') && (d == '-' || d == '_'));
    }
    assert(x =~= y);
}

/// The languages that a setting lists are its pieces between colons, without
/// white space around them, those that are empty left out; without a setting
/// they are the system's.
pub proof fn law_setting_lists_languages(
    raw: String,
    system: Vec<String>,
    pieces: Vec<String>,
    set: Vec<String>,
    unset: Vec<String>,
    as_str: &str,
)
    requires
        as_str@ == raw@,
        call_ensures(split, (as_str, ':'), pieces),
        call_ensures(language_prefs, (&Some(raw), system), set),
        call_ensures(language_prefs, (&None, system), unset),
    ensures
        texts(set@) == texts(pieces@).map_values(|p: Seq<char>| trim_of(p)).filter(
            |p: Seq<char>| p.len() > 0,
        ),
        texts(unset@) == texts(system@),
{
    lemma_listed(texts(pieces@));
}

pub(crate) proof fn lemma_listed(parts: Seq<Seq<char>>)
    ensures
        listed(parts) == parts.map_values(|p: Seq<char>| trim_of(p)).filter(
            |p: Seq<char>| p.len() > 0,
        ),
    decreases parts.len(),
{
    reveal(Seq::filter);
    let cut = |p: Seq<char>| trim_of(p);
    if parts.len() > 0 {
        lemma_listed(parts.drop_last());
        assert(parts.map_values(cut).drop_last() =~= parts.drop_last().map_values(cut));
        assert(parts.map_values(cut).last() == trim_of(parts.last()));
    } else {
        assert(parts.map_values(cut) =~= Seq::<Seq<char>>::empty());
    }
}

proof fn lemma_chosen(prefs: Seq<Seq<char>>, files: Seq<CatalogFile>, i: int)
    requires
        0 <= i <= prefs.len(),
        forall|j: int|
            0 <= j < i ==> {
                let d = lang_dir(lang_key(#[trigger] prefs[j]));
                d is None || file_for(files, d->0) is None
            },
    ensures
        i == prefs.len() ==> chosen_lang(prefs, files) is None,
        i < prefs.len() && lang_dir(lang_key(prefs[i])) is Some && file_for(
            files,
            lang_dir(lang_key(prefs[i]))->0,
        ) is Some ==> chosen_lang(prefs, files) == lang_dir(lang_key(prefs[i])),
    decreases prefs.len(),
{
    if prefs.len() > 0 && i > 0 {
        let rest = prefs.drop_first();
        assert(prefs[0] == prefs.first());
        assert forall|j: int| 0 <= j < i - 1 implies {
            let d = lang_dir(lang_key(#[trigger] rest[j]));
            d is None || file_for(files, d->0) is None
        } by {
            assert(rest[j] == prefs[j + 1]);
        }
        lemma_chosen(rest, files, i - 1);
        if i < prefs.len() {
            assert(rest[i - 1] == prefs[i]);
        }
    }
}

proof fn lemma_file_for(files: Seq<CatalogFile>, dir: Seq<char>)
    ensures
        match file_for(files, dir) {
            None => forall|j: int| 0 <= j < files.len() ==> (#[trigger] files[j]).dir@ != dir,
            Some(i) => 0 <= i < files.len() && files[i].dir@ == dir && forall|j: int|
                0 <= j < i ==> (#[trigger] files[j]).dir@ != dir,
        },
    decreases files.len(),
{
    if files.len() > 0 {
        let front = files.drop_last();
        lemma_file_for(front, dir);
        match file_for(front, dir) {
            Some(i) => {
                assert forall|j: int| 0 <= j < i implies (#[trigger] files[j]).dir@ != dir by {
                    assert(front[j] == files[j]);
                }
            },
            None => {
                assert forall|j: int| 0 <= j < front.len() implies (#[trigger] files[j]).dir@
                    != dir by {
                    assert(front[j] == files[j]);
                }
            },
        }
    }
}

/// A run speaks the first language that it prefers and that a catalog file is
/// there for, whatever comes before it without one, and English where there is
/// none.
pub proof fn law_first_preferred_language_is_spoken(
    prefs: Vec<String>,
    files: Vec<CatalogFile>,
    i: int,
    k: int,
    r: Option<&'static str>,
)
    requires
        call_ensures(resolve_lang, (&prefs, &files), r),
        0 <= i <= prefs@.len(),
        forall|j: int, l: int|
            0 <= j < i && 0 <= l < files@.len() ==> lang_dir(lang_key((#[trigger] prefs@[j])@))
                != Some((#[trigger] files@[l]).dir@),
    ensures
        i < prefs@.len() && 0 <= k < files@.len() && lang_dir(lang_key(prefs@[i]@)) == Some(
            files@[k].dir@,
        ) ==> r is Some && r->0@ == files@[k].dir@,
        i == prefs@.len() ==> r is None,
{
    let p = texts(prefs@);
    assert forall|j: int| 0 <= j < i implies {
        let d = lang_dir(lang_key(#[trigger] p[j]));
        d is None || file_for(files@, d->0) is None
    } by {
        let d = lang_dir(lang_key(p[j]));
        assert(p[j] == prefs@[j]@);
        if d is Some {
            lemma_file_for(files@, d->0);
            if let Some(l) = file_for(files@, d->0) {
                assert(lang_dir(lang_key(prefs@[j]@)) != Some(files@[l].dir@));
            }
        }
    }
    lemma_chosen(p, files@, i);
    if i < prefs@.len() && 0 <= k < files@.len() && lang_dir(lang_key(prefs@[i]@)) == Some(
        files@[k].dir@,
    ) {
        assert(p[i] == prefs@[i]@);
        lemma_file_for(files@, files@[k].dir@);
        if file_for(files@, files@[k].dir@) is None {
            assert(files@[k].dir@ != files@[k].dir@);
        }
    }
}

/// The languages that there are catalogs for are Chinese, Japanese and Spanish,
/// by their code alone or with their country.
pub proof fn law_known_languages(raw: &str, r: Option<&'static str>)
    requires
        call_ensures(normalize_lang, (raw,), r),
    ensures
        r is Some ==> (r->0@ == "zh_CN"@ || r->0@ == "ja_JP"@ || r->0@ == "es_ES"@),
        raw@ == "zh"@ || raw@ == "zh_CN"@ ==> r is Some && r->0@ == "zh_CN"@,
        raw@ == "ja"@ || raw@ == "ja_JP"@ ==> r is Some && r->0@ == "ja_JP"@,
        raw@ == "es"@ || raw@ == "es_ES"@ ==> r is Some && r->0@ == "es_ES"@,
        raw@.len() != 2 && raw@.len() != 5 && !raw@.contains('.') ==> r is None,
{
    reveal_strlit("zh");
    reveal_strlit("ja");
    reveal_strlit("es");
    reveal_strlit("zh_CN");
    reveal_strlit("ja_JP");
    reveal_strlit("es_ES");
    reveal_strlit("zh_cn");
    reveal_strlit("ja_jp");
    reveal_strlit("es_es");
    if !raw@.contains('.') {
        crate::relay_probe::lemma_first_piece(raw@, Seq::empty(), '.');
        assert(raw@ + Seq::<char>::empty() =~= raw@);
        let key = lang_key(raw@);
        assert(key.len() == raw@.len());
        if raw@ == "zh_CN"@ {
            assert(key =~= "zh_cn"@);
        }
        if raw@ == "ja_JP"@ {
            assert(key =~= "ja_jp"@);
        }
        if raw@ == "es_ES"@ {
            assert(key =~= "es_es"@);
        }
        if raw@ == "zh"@ {
            assert(key =~= "zh"@);
        }
        if raw@ == "ja"@ {
            assert(key =~= "ja"@);
        }
        if raw@ == "es"@ {
            assert(key =~= "es"@);
        }
        assert("zh"@ != "ja"@ && "zh"@ != "es"@ && "ja"@ != "es"@) by {
            assert("zh"@[0] == 'z' && "ja"@[0] == 'j' && "es"@[0] == 'e');
        }
        assert("zh_cn"@[0] == 'z' && "ja_jp"@[0] == 'j' && "es_es"@[0] == 'e');
    } else {
        lemma_dotless(raw@);
    }
}

proof fn lemma_dotless(raw: Seq<char>)
    requires
        raw.contains('.'),
    ensures
        raw != "zh"@ && raw != "ja"@ && raw != "es"@,
        raw != "zh_CN"@ && raw != "ja_JP"@ && raw != "es_ES"@,
{
    reveal_strlit("zh");
    reveal_strlit("ja");
    reveal_strlit("es");
    reveal_strlit("zh_CN");
    reveal_strlit("ja_JP");
    reveal_strlit("es_ES");
    let i = choose|i: int| 0 <= i < raw.len() && raw[i] == '.';
    assert(raw[i] == '.');
}

/// A 32-bit word of a file, low byte first or high byte first.
pub open spec fn word_at(b: Seq<u8>, off: int, low_first: bool) -> int {
    if low_first {
        b[off] + b[off + 1] * 0x100 + b[off + 2] * 0x1_0000 + b[off + 3] * 0x100_0000
    } else {
        b[off + 3] + b[off + 2] * 0x100 + b[off + 1] * 0x1_0000 + b[off] * 0x100_0000
    }
}

/// The string that entry `i` of the table at `tab` describes, by its length and
/// where it begins.
pub open spec fn described(b: Seq<u8>, tab: int, i: int, low_first: bool) -> Seq<u8> {
    let at = tab + 8 * i;
    let len = word_at(b, at, low_first);
    let from = word_at(b, at + 4, low_first);
    b.subrange(from, from + len)
}

/// Whether a file's first word is the magic with its low byte first.
pub open spec fn low_byte_first(b: Seq<u8>) -> bool {
    b[0] == 0xde && b[1] == 0x12 && b[2] == 0x04 && b[3] == 0x95
}

/// Whether entry `i` of `n` has a message, and no later one has the same.
pub open spec fn is_last_for_message(b: Seq<u8>, msgs: int, n: int, i: int, low_first: bool) -> bool {
    &&& 0 <= i < n
    &&& described(b, msgs, i, low_first).len() > 0
    &&& forall|j: int|
        i < j < n && (#[trigger] described(b, msgs, j, low_first)).len() > 0 ==> lossy_text(
            described(b, msgs, j, low_first),
        ) != lossy_text(described(b, msgs, i, low_first))
}

/// A catalog file holds as many entries as its third word says, messages in
/// the table that the fourth points to and translations in that of the fifth,
/// in the byte order that its first word has. Every message is translated as
/// the last entry for it says; the entry without a message is no message.
pub proof fn law_catalog_file_is_read(bytes: &[u8], low_first: bool, i: int, r: Option<Catalog>)
    requires
        call_ensures(parse_mo, (bytes,), r),
        r is Some,
        low_first == low_byte_first(bytes@),
    ensures
        ({
            let b = bytes@;
            let n = word_at(b, 8, low_first);
            let msgs = word_at(b, 12, low_first);
            let said = word_at(b, 16, low_first);
            &&& b.len() >= 28
            &&& is_last_for_message(b, msgs, n, i, low_first) ==> {
                let msg = lossy_text(described(b, msgs, i, low_first));
                r->0@.contains_key(msg) && r->0@[msg] == lossy_text(
                    described(b, said, i, low_first),
                )
            }
        }),
{
    let b = bytes@;
    assert(low_first == !mo_big_endian(b));
    let n = word_at(b, 8, low_first);
    assert(n == mo_word(b, 8));
    assert(word_at(b, 12, low_first) == mo_word(b, 12));
    assert(word_at(b, 16, low_first) == mo_word(b, 16));
    if 0 <= i < n {
        lemma_entry(b, n as nat, i, low_first);
    }
}

proof fn lemma_described(b: Seq<u8>, tab: nat, i: nat, low_first: bool)
    requires
        low_first == !mo_big_endian(b),
        mo_string(b, tab, i) is Some,
    ensures
        mo_string(b, tab, i)->0 == described(b, tab as int, i as int, low_first),
{
    let at = tab + i * 8;
    assert(word_at(b, at as int, low_first) == mo_word(b, at as int));
    assert(word_at(b, at as int + 4, low_first) == mo_word(b, at as int + 4));
}

proof fn lemma_entry(b: Seq<u8>, n: nat, i: int, low_first: bool)
    requires
        low_first == !mo_big_endian(b),
        mo_entries(b, n) is Some,
        0 <= i < n,
    ensures
        ({
            let msgs = mo_word(b, 12) as int;
            let said = mo_word(b, 16) as int;
            is_last_for_message(b, msgs, n as int, i, low_first) ==> {
                let msg = lossy_text(described(b, msgs, i, low_first));
                mo_entries(b, n)->0.contains_key(msg) && mo_entries(b, n)->0[msg] == lossy_text(
                    described(b, said, i, low_first),
                )
            }
        }),
    decreases n,
{
    let k = (n - 1) as nat;
    let msgs = mo_word(b, 12);
    let said = mo_word(b, 16);
    lemma_described(b, msgs, k, low_first);
    lemma_described(b, said, k, low_first);
    if i < k {
        lemma_entry(b, k, i, low_first);
        if is_last_for_message(b, msgs as int, n as int, i, low_first) {
            assert(is_last_for_message(b, msgs as int, k as int, i, low_first));
        }
        let last = described(b, msgs as int, k as int, low_first);
        if last.len() > 0 {
            assert(mo_entries(b, n)->0 == mo_entries(b, k)->0.insert(
                lossy_text(last),
                lossy_text(described(b, said as int, k as int, low_first)),
            ));
        }
    }
}

/// A run speaks what the file for its language holds: the first file for it,
/// as reading it gives; and English where there is no language, or its file
/// cannot be read.
pub proof fn law_run_speaks_its_catalog(
    prefs: Vec<String>,
    files: Vec<CatalogFile>,
    lang: Option<&'static str>,
    k: int,
    bytes: &[u8],
    read: Option<Catalog>,
    r: Catalog,
)
    requires
        call_ensures(init, (&prefs, &files), r),
        call_ensures(resolve_lang, (&prefs, &files), lang),
        call_ensures(parse_mo, (bytes,), read),
    ensures
        lang is None ==> r@ == Map::<Seq<char>, Seq<char>>::empty(),
        lang is Some && 0 <= k < files@.len() && files@[k].dir@ == lang->0@ && (forall|j: int|
            0 <= j < k ==> (#[trigger] files@[j]).dir@ != lang->0@) && files@[k].bytes is Some
            && files@[k].bytes->0@ == bytes@ ==> (read is Some ==> r@ == read->0@) && (read is None
            ==> r@ == Map::<Seq<char>, Seq<char>>::empty()),
{
    if let Some(d) = lang {
        lemma_file_for(files@, d@);
        if 0 <= k < files@.len() && files@[k].dir@ == d@ && (forall|j: int|
            0 <= j < k ==> (#[trigger] files@[j]).dir@ != d@) {
            let i = file_for(files@, d@)->0;
            if i < k {
                assert(files@[i].dir@ != d@);
            }
        }
    }
}

} // verus!
