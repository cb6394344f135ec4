//! Help text: the first sentence for `-h`, and hard line breaks at sentence
//! and clause boundaries for `--help`, so that it reads well at any terminal
//! width.

use vstd::prelude::*;
use crate::text::{
    char_is_space, chars_of, ink, is_space, join, join_of, lemma_ink_add, lemma_split_join,
    lemma_trim_keeps_ink, split, split_of, string_from, string_of, texts, trim, trim_end_at,
    trim_end_of, trim_of, trim_range, trim_start_at, trim_start_of,
};

verus! {

/// Preferred maximum display width of one help line.
pub const HELP_LINE_WIDTH: usize = 72;

/// A CJK mark that ends a sentence wherever it stands.
pub open spec fn is_cjk_stop(c: char) -> bool {
    c == '。' || c == '！' || c == '？'
}

/// An ASCII lower-case letter.
pub open spec fn is_small(c: char) -> bool {
    'a' <= c <= 'z'
}

/// Whether the character at `i` is the last of `e.g.` or `i.e.`.
pub open spec fn ends_abbreviation(s: Seq<char>, i: int) -> bool {
    &&& i >= 3
    &&& s[i] == '.' && s[i - 2] == '.'
    &&& (s[i - 3] == 'e' && s[i - 1] == 'g') || (s[i - 3] == 'i' && s[i - 1] == 'e')
}

/// Whether a sentence of `s` ends with the character at `i`.
///
/// ASCII marks end one only before white space or the end of the text. A dot
/// does not where a digit follows (`1.0`), nor between a lower-case letter
/// and a word that begins with one (`etc. and`), nor where it ends an
/// abbreviation.
pub open spec fn ends_sentence(s: Seq<char>, i: int) -> bool {
    let rest = s.skip(i + 1);
    let word = trim_start_of(rest);
    ||| is_cjk_stop(s[i])
    ||| {
        &&& s[i] == '.' || s[i] == '!' || s[i] == '?'
        &&& rest.len() == 0 || is_space(rest[0])
        &&& !(s[i] == '.' && rest.len() > 0 && '0' <= rest[0] <= '9')
        &&& !(s[i] == '.' && i > 0 && is_small(s[i - 1]) && word.len() > 0 && is_small(word[0]))
        &&& !ends_abbreviation(s, i)
    }
}

/// A piece without white space around it, or nothing where none is left.
pub open spec fn kept(piece: Seq<char>) -> Seq<Seq<char>> {
    if trim_of(piece).len() == 0 {
        Seq::empty()
    } else {
        seq![trim_of(piece)]
    }
}

/// The sentences of `s` from `start` on, when no sentence ends in `start..i`.
pub open spec fn sentences_from(s: Seq<char>, start: int, i: int) -> Seq<Seq<char>>
    decreases s.len() - i,
{
    if i >= s.len() {
        kept(s.subrange(start, s.len() as int))
    } else if ends_sentence(s, i) {
        kept(s.subrange(start, i + 1)) + sentences_from(s, i + 1, i + 1)
    } else {
        sentences_from(s, start, i + 1)
    }
}

/// The sentences of `s`, each without white space around it.
pub open spec fn sentences(s: Seq<char>) -> Seq<Seq<char>> {
    sentences_from(s, 0, 0)
}

/// Appends the trimmed `v[from..to]` unless nothing is left of it.
fn push_kept(out: &mut Vec<String>, v: &Vec<char>, from: usize, to: usize)
    requires
        from <= to <= v@.len(),
    ensures
        texts(final(out)@) == texts(old(out)@) + kept(v@.subrange(from as int, to as int)),
{
    let (a, b) = trim_range(v, from, to);
    let ghost piece = v@.subrange(from as int, to as int);
    if a < b {
        let s = string_of(v, a, b);
        let ghost sv = s@;
        out.push(s);
        proof {
            assert(texts(out@) =~= texts(old(out)@).push(sv));
            assert(texts(old(out)@).push(sv) =~= texts(old(out)@) + kept(piece));
        }
    } else {
        proof {
            assert(texts(out@) + kept(piece) =~= texts(out@));
        }
    }
}

fn is_sentence_end(v: &Vec<char>, i: usize) -> (r: bool)
    requires
        i < v@.len(),
    ensures
        r == ends_sentence(v@, i as int),
{
    let c: char = v[i];
    if c == '。' || c == '！' || c == '？' {
        return true;
    }
    if c != '.' && c != '!' && c != '?' {
        return false;
    }
    let ghost rest = v@.skip(i + 1);
    let len: usize = v.len();
    let after: usize = i + 1;
    proof {
        assert(v@.subrange(after as int, v@.len() as int) =~= rest);
    }
    if after < len && !char_is_space(v[after]) {
        return false;
    }
    if c == '.' && i >= 3 && v[i - 2] == '.' && ((v[i - 3] == 'e' && v[i - 1] == 'g') || (v[i - 3]
        == 'i' && v[i - 1] == 'e')) {
        return false;
    }
    if c == '.' && i > 0 && 'a' <= v[i - 1] && v[i - 1] <= 'z' {
        let w: usize = trim_start_at(v, after, len);
        proof {
            assert(w < v@.len() ==> trim_start_of(rest)[0] == v@[w as int]);
        }
        if w < len && 'a' <= v[w] && v[w] <= 'z' {
            return false;
        }
    }
    true
}

/// Splits text at its sentence ends.
pub fn split_sentences(s: &str) -> (r: Vec<String>)
    ensures
        texts(r@) == sentences(s@),
{
    let v = chars_of(s);
    let mut out: Vec<String> = Vec::new();
    let mut start: usize = 0;
    let mut i: usize = 0;
    proof {
        assert(texts(out@) + sentences(v@) =~= sentences(v@));
    }
    while i < v.len()
        invariant
            start <= i <= v@.len(),
            texts(out@) + sentences_from(v@, start as int, i as int) == sentences(v@),
        decreases v@.len() - i,
    {
        if is_sentence_end(&v, i) {
            let ghost before = texts(out@);
            push_kept(&mut out, &v, start, i + 1);
            proof {
                assert(texts(out@) + sentences_from(v@, i + 1, i + 1) =~= before + (kept(
                    v@.subrange(start as int, i + 1),
                ) + sentences_from(v@, i + 1, i + 1)));
            }
            start = i + 1;
        }
        i = i + 1;
    }
    let end: usize = v.len();
    push_kept(&mut out, &v, start, end);
    out
}

/// The help shown by `-h`: the first sentence.
pub open spec fn brief_of(full: Seq<char>) -> Seq<char> {
    let ss = sentences(trim_of(full));
    if ss.len() > 0 {
        ss[0]
    } else {
        trim_of(full)
    }
}

/// The first sentence of `full`, or all of it where it holds no sentence.
pub fn brief_help(full: &str) -> (r: String)
    ensures
        r@ == brief_of(full@),
{
    let s = trim(full);
    let ss = split_sentences(s.as_str());
    proof {
        assert(texts(ss@).len() == ss@.len());
        assert(ss@.len() > 0 ==> texts(ss@)[0] == ss@[0]@);
    }
    if ss.len() > 0 {
        ss[0].clone()
    } else {
        s
    }
}

/// A character after which a line may be broken.
pub open spec fn is_soft_break(c: char) -> bool {
    c == ',' || c == '，' || c == ';' || c == '；' || c == '/' || c == '、' || c == ' ' || c
        == '\t'
}

/// Whether a line may be broken after `ch`.
pub fn is_soft_break_char(ch: char) -> (r: bool)
    ensures
        r == is_soft_break(ch),
{
    ch == ',' || ch == '，' || ch == ';' || ch == '；' || ch == '/' || ch == '、' || ch == ' '
        || ch == '\t'
}

/// Whether `c` lies in a block that terminals draw two columns wide.
pub open spec fn is_wide(c: char) -> bool {
    ||| '\u{1100}' <= c <= '\u{115F}'
    ||| '\u{2329}' <= c <= '\u{232A}'
    ||| '\u{2E80}' <= c <= '\u{303E}'
    ||| '\u{3040}' <= c <= '\u{A4CF}'
    ||| '\u{AC00}' <= c <= '\u{D7A3}'
    ||| '\u{F900}' <= c <= '\u{FAFF}'
    ||| '\u{FE10}' <= c <= '\u{FE19}'
    ||| '\u{FE30}' <= c <= '\u{FE6F}'
    ||| '\u{FF00}' <= c <= '\u{FF60}'
    ||| '\u{FFE0}' <= c <= '\u{FFE6}'
    ||| '\u{1F300}' <= c <= '\u{1F64F}'
    ||| '\u{1F900}' <= c <= '\u{1F9FF}'
    ||| '\u{20000}' <= c <= '\u{2FFFD}'
    ||| '\u{30000}' <= c <= '\u{3FFFD}'
}

/// The columns that one character takes.
pub open spec fn width_of(c: char) -> nat {
    if is_wide(c) {
        2
    } else {
        1
    }
}

/// The columns that a text takes.
pub open spec fn columns(s: Seq<char>) -> nat
    decreases s.len(),
{
    if s.len() == 0 {
        0
    } else {
        columns(s.drop_last()) + width_of(s.last())
    }
}

/// The columns that `ch` takes: two for East Asian wide, else one.
pub fn char_width(ch: char) -> (r: usize)
    ensures
        r == width_of(ch),
{
    if ('\u{1100}' <= ch && ch <= '\u{115F}') || ('\u{2329}' <= ch && ch <= '\u{232A}') || (
    '\u{2E80}' <= ch && ch <= '\u{303E}') || ('\u{3040}' <= ch && ch <= '\u{A4CF}') || ('\u{AC00}'
        <= ch && ch <= '\u{D7A3}') || ('\u{F900}' <= ch && ch <= '\u{FAFF}') || ('\u{FE10}' <= ch
        && ch <= '\u{FE19}') || ('\u{FE30}' <= ch && ch <= '\u{FE6F}') || ('\u{FF00}' <= ch && ch
        <= '\u{FF60}') || ('\u{FFE0}' <= ch && ch <= '\u{FFE6}') || ('\u{1F300}' <= ch && ch
        <= '\u{1F64F}') || ('\u{1F900}' <= ch && ch <= '\u{1F9FF}') || ('\u{20000}' <= ch && ch
        <= '\u{2FFFD}') || ('\u{30000}' <= ch && ch <= '\u{3FFFD}') {
        2
    } else {
        1
    }
}

/// Whether `v` takes more than `width` columns.
fn exceeds(v: &Vec<char>, width: usize) -> (r: bool)
    ensures
        r == (columns(v@) > width),
{
    let mut left: usize = width;
    let mut i: usize = 0;
    while i < v.len()
        invariant
            i <= v@.len(),
            left + columns(v@.take(i as int)) == width,
        decreases v@.len() - i,
    {
        let w: usize = char_width(v[i]);
        proof {
            assert(v@.take(i + 1).drop_last() =~= v@.take(i as int));
            lemma_columns_prefix(v@, i + 1);
        }
        if w > left {
            return true;
        }
        left = left - w;
        i = i + 1;
    }
    proof {
        assert(v@.take(v@.len() as int) =~= v@);
    }
    false
}

proof fn lemma_columns_prefix(s: Seq<char>, k: int)
    requires
        0 <= k <= s.len(),
    ensures
        columns(s.take(k)) <= columns(s),
    decreases s.len() - k,
{
    if k < s.len() {
        lemma_columns_prefix(s, k + 1);
        assert(s.take(k + 1).drop_last() =~= s.take(k));
    } else {
        assert(s.take(k) =~= s);
    }
}

/// The greatest `j <= k` such that a line may be broken before position `j`
/// of `s` and what stands before fits `width`; 0 where there is none.
pub open spec fn last_fit(s: Seq<char>, width: nat, k: int) -> int
    decreases k,
{
    if k <= 0 {
        0
    } else if is_soft_break(s[k - 1]) && columns(s.take(k)) <= width {
        k
    } else {
        last_fit(s, width, k - 1)
    }
}

/// Where an overlong `s` is broken, if it can be.
pub open spec fn soft_break(s: Seq<char>, width: nat) -> Option<int> {
    let b = last_fit(s, width, s.len() as int);
    if 0 < b < s.len() {
        Some(b)
    } else {
        None
    }
}

proof fn lemma_last_fit_range(s: Seq<char>, width: nat, k: int)
    requires
        0 <= k,
    ensures
        0 <= last_fit(s, width, k) <= k,
        last_fit(s, width, k) > 0 ==> columns(s.take(last_fit(s, width, k))) <= width,
    decreases k,
{
    if k > 0 {
        lemma_last_fit_range(s, width, k - 1);
    }
}

proof fn lemma_last_fit_cut(s: Seq<char>, width: nat, i: int, k: int)
    requires
        0 <= i < k <= s.len(),
        columns(s.take(i + 1)) > width,
    ensures
        last_fit(s, width, k) == last_fit(s, width, i),
    decreases k,
{
    assert(s.take(k).take(i + 1) =~= s.take(i + 1));
    lemma_columns_prefix(s.take(k), i + 1);
    if k > i + 1 {
        lemma_last_fit_cut(s, width, i, k - 1);
    }
}

/// The best place to break `v` at or before `width` columns.
fn find_soft_break(v: &Vec<char>, width: usize) -> (r: Option<usize>)
    ensures
        match r {
            Some(b) => soft_break(v@, width as nat) == Some(b as int),
            None => soft_break(v@, width as nat) is None,
        },
{
    let mut left: usize = width;
    let mut last: usize = 0;
    let mut i: usize = 0;
    let mut over: bool = false;
    while i < v.len() && !over
        invariant
            i <= v@.len(),
            left + columns(v@.take(i as int)) == width,
            last == last_fit(v@, width as nat, i as int),
            over ==> i < v@.len() && columns(v@.take(i + 1)) > width,
        decreases v@.len() - i, if over { 0int } else { 1int },
    {
        let w: usize = char_width(v[i]);
        proof {
            assert(v@.take(i + 1).drop_last() =~= v@.take(i as int));
        }
        if w > left {
            over = true;
        } else {
            left = left - w;
            i = i + 1;
            if is_soft_break_char(v[i - 1]) {
                last = i;
            }
        }
    }
    proof {
        if over {
            lemma_last_fit_cut(v@, width as nat, i as int, v@.len() as int);
        }
    }
    if last > 0 && last < v.len() {
        Some(last)
    } else {
        None
    }
}

/// A sentence broken into lines: while it is wider than `width`, at the last
/// soft break that fits.
pub open spec fn wrapped(s: Seq<char>, width: nat) -> Seq<Seq<char>>
    decreases s.len(),
{
    match soft_break(s, width) {
        Some(k) if columns(s) > width => {
            let head = trim_end_of(s.take(k));
            let tail = trim_start_of(s.skip(k));
            let first = if head.len() == 0 {
                Seq::empty()
            } else {
                seq![head]
            };
            if tail.len() == 0 || tail.len() >= s.len() {
                first
            } else {
                first + wrapped(tail, width)
            }
        },
        _ => seq![s],
    }
}

proof fn lemma_trim_start_len(s: Seq<char>)
    ensures
        trim_start_of(s).len() <= s.len(),
    decreases s.len(),
{
    if s.len() > 0 && is_space(s.first()) {
        lemma_trim_start_len(s.drop_first());
    }
}

/// Breaks an overlong sentence into lines.
pub fn wrap_clause(sentence: &str, width: usize) -> (r: Vec<String>)
    ensures
        texts(r@) == wrapped(sentence@, width as nat),
{
    let mut lines: Vec<String> = Vec::new();
    let mut rest = chars_of(sentence);
    let mut done: bool = false;
    proof {
        assert(texts(lines@) + wrapped(rest@, width as nat) =~= wrapped(rest@, width as nat));
    }
    while !done
        invariant
            !done ==> texts(lines@) + wrapped(rest@, width as nat) == wrapped(
                sentence@,
                width as nat,
            ),
            done ==> texts(lines@) == wrapped(sentence@, width as nat),
        decreases rest@.len(), if done { 0int } else { 1int },
    {
        let ghost s = rest@;
        let ghost before = texts(lines@);
        let at: Option<usize> = if exceeds(&rest, width) {
            find_soft_break(&rest, width)
        } else {
            None
        };
        match at {
            None => {
                let line = string_from(&rest);
                let ghost lv = line@;
                lines.push(line);
                done = true;
                proof {
                    assert(texts(lines@) =~= before + seq![lv]);
                }
            },
            Some(k) => {
                let len: usize = rest.len();
                let b: usize = trim_end_at(&rest, 0, k);
                let a: usize = trim_start_at(&rest, k, len);
                proof {
                    assert(s.subrange(0, k as int) =~= s.take(k as int));
                    assert(s.subrange(k as int, len as int) =~= s.skip(k as int));
                    lemma_trim_start_len(s.skip(k as int));
                }
                let ghost head = trim_end_of(s.take(k as int));
                let ghost tail = trim_start_of(s.skip(k as int));
                if b > 0 {
                    let line = string_of(&rest, 0, b);
                    let ghost lv = line@;
                    lines.push(line);
                    proof {
                        assert(texts(lines@) =~= before + seq![lv]);
                    }
                }
                let tail_text = string_of(&rest, a, len);
                rest = chars_of(tail_text.as_str());
                if rest.len() == 0 {
                    done = true;
                    proof {
                        assert(texts(lines@) =~= before + wrapped(s, width as nat));
                    }
                } else {
                    proof {
                        assert(texts(lines@) + wrapped(tail, width as nat) =~= before + wrapped(
                            s,
                            width as nat,
                        ));
                    }
                }
            },
        }
    }
    lines
}

/// The lines of a list of sentences.
pub open spec fn clause_lines(ss: Seq<Seq<char>>) -> Seq<Seq<char>>
    decreases ss.len(),
{
    if ss.len() == 0 {
        Seq::empty()
    } else {
        clause_lines(ss.drop_last()) + wrapped(ss.last(), HELP_LINE_WIDTH as nat)
    }
}

/// The lines of a list of paragraphs; an empty paragraph is one empty line.
pub open spec fn paragraph_lines(paras: Seq<Seq<char>>) -> Seq<Seq<char>>
    decreases paras.len(),
{
    if paras.len() == 0 {
        Seq::empty()
    } else {
        let p = trim_of(paras.last());
        paragraph_lines(paras.drop_last()) + if p.len() == 0 {
            seq![Seq::<char>::empty()]
        } else {
            clause_lines(sentences(p))
        }
    }
}

/// `lines` without the empty ones at its end.
pub open spec fn without_trailing_blanks(lines: Seq<Seq<char>>) -> Seq<Seq<char>>
    decreases lines.len(),
{
    if lines.len() > 0 && lines.last().len() == 0 {
        without_trailing_blanks(lines.drop_last())
    } else {
        lines
    }
}

/// The help shown by `--help`.
pub open spec fn wrapped_help(full: Seq<char>) -> Seq<char> {
    let s = trim_of(full);
    if s.len() == 0 {
        Seq::empty()
    } else {
        join_of(
            without_trailing_blanks(paragraph_lines(split_of(s, '\n'))),
            seq!['\n'],
        )
    }
}

/// Moves the elements of `more` behind those of `out`.
fn append_lines(out: &mut Vec<String>, more: Vec<String>)
    ensures
        texts(final(out)@) == texts(old(out)@) + texts(more@),
{
    let mut more = more;
    let ghost added = more@;
    out.append(&mut more);
    proof {
        assert(texts(out@) =~= texts(old(out)@) + texts(added));
    }
}

/// The lines of one paragraph that is not empty.
fn clause_lines_of(p: &str) -> (r: Vec<String>)
    ensures
        texts(r@) == clause_lines(sentences(p@)),
{
    let ss = split_sentences(p);
    let mut out: Vec<String> = Vec::new();
    let mut i: usize = 0;
    proof {
        assert(texts(out@) =~= Seq::<Seq<char>>::empty());
    }
    while i < ss.len()
        invariant
            i <= ss@.len(),
            texts(out@) == clause_lines(texts(ss@).take(i as int)),
        decreases ss@.len() - i,
    {
        proof {
            assert(texts(ss@).take(i + 1).drop_last() =~= texts(ss@).take(i as int));
            assert(texts(ss@).take(i + 1).last() == ss@[i as int]@);
        }
        append_lines(&mut out, wrap_clause(ss[i].as_str(), HELP_LINE_WIDTH));
        i = i + 1;
    }
    proof {
        assert(texts(ss@).take(ss@.len() as int) =~= texts(ss@));
    }
    out
}

/// Inserts hard line breaks after sentences and splits overlong clauses.
///
/// Line breaks in `full` are kept as paragraph breaks.
pub fn hard_wrap_help(full: &str) -> (r: String)
    ensures
        r@ == wrapped_help(full@),
{
    let s = trim(full);
    if s.as_str().unicode_len() == 0 {
        let r = String::new();
        proof {
            assert(r@ =~= Seq::<char>::empty());
        }
        return r;
    }
    let paras = split(s.as_str(), '\n');
    let mut out: Vec<String> = Vec::new();
    let mut i: usize = 0;
    proof {
        assert(texts(out@) =~= Seq::<Seq<char>>::empty());
    }
    while i < paras.len()
        invariant
            i <= paras@.len(),
            texts(out@) == paragraph_lines(texts(paras@).take(i as int)),
        decreases paras@.len() - i,
    {
        proof {
            assert(texts(paras@).take(i + 1).drop_last() =~= texts(paras@).take(i as int));
            assert(texts(paras@).take(i + 1).last() == paras@[i as int]@);
        }
        let p = trim(paras[i].as_str());
        if p.as_str().unicode_len() == 0 {
            let blank = String::new();
            let ghost before = texts(out@);
            proof {
                assert(blank@ =~= Seq::<char>::empty());
            }
            out.push(blank);
            proof {
                assert(texts(out@) =~= before + seq![Seq::<char>::empty()]);
            }
        } else {
            append_lines(&mut out, clause_lines_of(p.as_str()));
        }
        i = i + 1;
    }
    proof {
        assert(texts(paras@).take(paras@.len() as int) =~= texts(paras@));
    }
    let ghost all = texts(out@);
    while out.len() > 0 && out[out.len() - 1].as_str().unicode_len() == 0
        invariant
            without_trailing_blanks(texts(out@)) == without_trailing_blanks(all),
        decreases out@.len(),
    {
        proof {
            assert(texts(out@).last() == out@[out@.len() - 1]@);
            assert(texts(out@).drop_last() =~= texts(out@.subrange(0, out@.len() - 1)));
        }
        let _ = out.pop();
    }
    proof {
        assert(out@.len() > 0 ==> texts(out@).last() == out@[out@.len() - 1]@);
        reveal_strlit("\n");
        assert("\n"@ =~= seq!['\n']);
    }
    join(&out, "\n")
}

/// The inks of `parts`, one after the other.
pub open spec fn inks(parts: Seq<Seq<char>>) -> Seq<char>
    decreases parts.len(),
{
    if parts.len() == 0 {
        Seq::empty()
    } else {
        inks(parts.drop_last()) + ink(parts.last())
    }
}

proof fn lemma_inks_add(a: Seq<Seq<char>>, b: Seq<Seq<char>>)
    ensures
        inks(a + b) == inks(a) + inks(b),
    decreases b.len(),
{
    if b.len() == 0 {
        assert(a + b =~= a);
        assert(inks(a) + inks(b) =~= inks(a));
    } else {
        lemma_inks_add(a, b.drop_last());
        assert((a + b).drop_last() =~= a + b.drop_last());
        assert(inks(a + b) =~= inks(a) + inks(b));
    }
}

proof fn lemma_inks_one(s: Seq<char>)
    ensures
        inks(seq![s]) == ink(s),
{
    reveal_with_fuel(inks, 2);
    assert(seq![s].drop_last() =~= Seq::<Seq<char>>::empty());
    assert(inks(seq![s]) =~= ink(s));
}

proof fn lemma_ink_empty()
    ensures
        ink(Seq::<char>::empty()) == Seq::<char>::empty(),
{
    reveal(Seq::filter);
}

proof fn lemma_kept_ink(piece: Seq<char>)
    ensures
        inks(kept(piece)) == ink(piece),
{
    lemma_trim_keeps_ink(piece);
    if trim_of(piece).len() == 0 {
        lemma_ink_empty();
        assert(trim_of(piece) =~= Seq::<char>::empty());
    } else {
        lemma_inks_one(trim_of(piece));
    }
}

proof fn lemma_sentences_ink(s: Seq<char>, start: int, i: int)
    requires
        0 <= start <= i <= s.len(),
    ensures
        inks(sentences_from(s, start, i)) == ink(s.skip(start)),
    decreases s.len() - i,
{
    if i >= s.len() {
        lemma_kept_ink(s.subrange(start, s.len() as int));
        assert(s.subrange(start, s.len() as int) =~= s.skip(start));
    } else if ends_sentence(s, i) {
        let piece = s.subrange(start, i + 1);
        lemma_kept_ink(piece);
        lemma_sentences_ink(s, i + 1, i + 1);
        lemma_inks_add(kept(piece), sentences_from(s, i + 1, i + 1));
        lemma_ink_add(piece, s.skip(i + 1));
        assert(piece + s.skip(i + 1) =~= s.skip(start));
    } else {
        lemma_sentences_ink(s, start, i + 1);
    }
}

proof fn lemma_wrapped_ink(s: Seq<char>, width: nat)
    ensures
        inks(wrapped(s, width)) == ink(s),
    decreases s.len(),
{
    match soft_break(s, width) {
        Some(k) if columns(s) > width => {
            let head = trim_end_of(s.take(k));
            let tail = trim_start_of(s.skip(k));
            let first = if head.len() == 0 {
                Seq::empty()
            } else {
                seq![head]
            };
            lemma_ink_empty();
            lemma_trim_keeps_ink(s.take(k));
            lemma_trim_keeps_ink(s.skip(k));
            lemma_trim_start_len(s.skip(k));
            lemma_ink_add(s.take(k), s.skip(k));
            assert(s.take(k) + s.skip(k) =~= s);
            if head.len() == 0 {
                assert(head =~= Seq::<char>::empty());
            } else {
                lemma_inks_one(head);
            }
            assert(inks(first) == ink(s.take(k)));
            if tail.len() == 0 {
                assert(tail =~= Seq::<char>::empty());
                assert(ink(s) =~= inks(first));
            } else {
                lemma_wrapped_ink(tail, width);
                lemma_inks_add(first, wrapped(tail, width));
            }
        },
        _ => {
            lemma_inks_one(s);
        },
    }
}

proof fn lemma_clause_lines_ink(ss: Seq<Seq<char>>)
    ensures
        inks(clause_lines(ss)) == inks(ss),
    decreases ss.len(),
{
    if ss.len() > 0 {
        lemma_clause_lines_ink(ss.drop_last());
        lemma_wrapped_ink(ss.last(), HELP_LINE_WIDTH as nat);
        lemma_inks_add(clause_lines(ss.drop_last()), wrapped(ss.last(), HELP_LINE_WIDTH as nat));
    }
}

proof fn lemma_paragraph_lines_ink(paras: Seq<Seq<char>>)
    ensures
        inks(paragraph_lines(paras)) == inks(paras),
    decreases paras.len(),
{
    if paras.len() > 0 {
        lemma_paragraph_lines_ink(paras.drop_last());
        let p = trim_of(paras.last());
        lemma_trim_keeps_ink(paras.last());
        let more = if p.len() == 0 {
            seq![Seq::<char>::empty()]
        } else {
            clause_lines(sentences(p))
        };
        if p.len() == 0 {
            assert(p =~= Seq::<char>::empty());
            lemma_inks_one(Seq::<char>::empty());
        } else {
            lemma_clause_lines_ink(sentences(p));
            lemma_sentences_ink(p, 0, 0);
            assert(p.skip(0) =~= p);
        }
        lemma_inks_add(paragraph_lines(paras.drop_last()), more);
    }
}

proof fn lemma_blanks_ink(lines: Seq<Seq<char>>)
    ensures
        inks(without_trailing_blanks(lines)) == inks(lines),
    decreases lines.len(),
{
    if lines.len() > 0 && lines.last().len() == 0 {
        lemma_blanks_ink(lines.drop_last());
        lemma_ink_empty();
        assert(lines.last() =~= Seq::<char>::empty());
        assert(inks(lines) =~= inks(lines.drop_last()));
    }
}

proof fn lemma_join_ink(parts: Seq<Seq<char>>, sep: Seq<char>)
    requires
        ink(sep) == Seq::<char>::empty(),
    ensures
        ink(join_of(parts, sep)) == inks(parts),
    decreases parts.len(),
{
    if parts.len() == 0 {
        lemma_ink_empty();
    } else if parts.len() == 1 {
        assert(parts =~= seq![parts[0]]);
        lemma_inks_one(parts[0]);
    } else {
        lemma_join_ink(parts.drop_last(), sep);
        let front = join_of(parts.drop_last(), sep);
        lemma_ink_add(front, sep);
        lemma_ink_add(front + sep, parts.last());
        assert(ink(front) + ink(sep) =~= ink(front));
    }
}

proof fn lemma_newline_ink()
    ensures
        ink(seq!['\n']) == Seq::<char>::empty(),
{
    reveal_with_fuel(Seq::filter, 2);
    assert(seq!['\n'].drop_last() =~= Seq::<char>::empty());
    assert(ink(seq!['\n']) =~= Seq::<char>::empty());
}

/// Hard-wrapping changes white space only: every other character comes out,
/// in its order, exactly once.
pub proof fn law_wrapping_keeps_the_text(full: Seq<char>)
    ensures
        ink(wrapped_help(full)) == ink(full),
{
    let s = trim_of(full);
    lemma_trim_keeps_ink(full);
    if s.len() == 0 {
        lemma_ink_empty();
        assert(s =~= Seq::<char>::empty());
    } else {
        let paras = split_of(s, '\n');
        let lines = paragraph_lines(paras);
        lemma_newline_ink();
        lemma_join_ink(without_trailing_blanks(lines), seq!['\n']);
        lemma_blanks_ink(lines);
        lemma_paragraph_lines_ink(paras);
        lemma_split_join(s, '\n');
        lemma_join_ink(paras, seq!['\n']);
    }
}

/// A line is wider than asked for only where it holds no place to break it.
pub proof fn law_lines_fit_or_cannot_be_broken(s: Seq<char>, width: nat, i: int)
    requires
        0 <= i < wrapped(s, width).len(),
    ensures
        columns(wrapped(s, width)[i]) <= width || soft_break(wrapped(s, width)[i], width) is None,
    decreases s.len(),
{
    match soft_break(s, width) {
        Some(k) if columns(s) > width => {
            let head = trim_end_of(s.take(k));
            let tail = trim_start_of(s.skip(k));
            lemma_last_fit_range(s, width, s.len() as int);
            lemma_trim_end_columns(s.take(k));
            lemma_trim_start_len(s.skip(k));
            let first = if head.len() == 0 {
                Seq::empty()
            } else {
                seq![head]
            };
            if i >= first.len() {
                law_lines_fit_or_cannot_be_broken(tail, width, i - first.len());
            }
        },
        _ => {},
    }
}

proof fn lemma_trim_end_columns(s: Seq<char>)
    ensures
        columns(trim_end_of(s)) <= columns(s),
    decreases s.len(),
{
    if s.len() > 0 && is_space(s.last()) {
        lemma_trim_end_columns(s.drop_last());
    }
}

/// Characters that are drawn two columns wide are those of the East Asian
/// blocks and the pictographs; every other takes one.
pub proof fn law_wide_characters(c: char, r: usize)
    requires
        call_ensures(char_width, (c,), r),
    ensures
        ({
            let n = c as u32 as int;
            let wide = {
                ||| 0x1100 <= n < 0x1160
                ||| 0x2329 <= n < 0x232b
                ||| 0x2e80 <= n < 0x303f
                ||| 0x3040 <= n < 0xa4d0
                ||| 0xac00 <= n < 0xd7a4
                ||| 0xf900 <= n < 0xfb00
                ||| 0xfe10 <= n < 0xfe1a
                ||| 0xfe30 <= n < 0xfe70
                ||| 0xff00 <= n < 0xff61
                ||| 0xffe0 <= n < 0xffe7
                ||| 0x1f300 <= n < 0x1f650
                ||| 0x1f900 <= n < 0x1fa00
                ||| 0x20000 <= n < 0x2fffe
                ||| 0x30000 <= n < 0x3fffe
            };
            r == if wide {
                2int
            } else {
                1
            }
        }),
{
}

/// Whether a character can end a sentence.
pub open spec fn is_stop(c: char) -> bool {
    c == '.' || c == '!' || c == '?' || c == '。' || c == '！' || c == '？'
}

proof fn lemma_no_stop(s: Seq<char>, start: int, i: int, end: int)
    requires
        0 <= start <= i <= end <= s.len(),
        forall|j: int| i <= j < end ==> !is_stop(#[trigger] s[j]),
    ensures
        sentences_from(s, start, i) == sentences_from(s, start, end),
    decreases end - i,
{
    if i < end {
        assert(!is_stop(s[i]));
        lemma_no_stop(s, start, i + 1, end);
    }
}

/// The brief help of a text is what it says up to its first stop, with the
/// stop: a CJK stop wherever it stands, and an ASCII one at the end or before
/// white space, which after a small letter and a dot is followed by something
/// else than a small letter. Text without a stop is brief as it is.
pub proof fn law_brief_help_is_the_first_sentence(
    full: &str,
    first: Seq<char>,
    stop: char,
    rest: Seq<char>,
    r: String,
)
    requires
        call_ensures(brief_help, (full,), r),
        forall|j: int| 0 <= j < first.len() ==> !is_stop(#[trigger] first[j]),
        first.len() > 0,
        !is_space(first[0]),
        trim_of(full@) == full@,
    ensures
        full@ == first ==> r@ == first,
        full@ == first + seq![stop] + rest && (stop == '。' || stop == '！' || stop == '？') ==> r@
            == first + seq![stop],
        full@ == first + seq![stop] + rest && (stop == '!' || stop == '?') && (rest.len() == 0
            || is_space(rest[0])) ==> r@ == first + seq![stop],
        full@ == first + seq![stop] + rest && stop == '.' && (rest.len() == 0 || (rest.len() > 1
            && rest[0] == ' ' && !is_space(rest[1]) && !is_small(rest[1]))) ==> r@ == first + seq![
            stop,
        ],
{
    let s = full@;
    let n = first.len() as int;
    if s == first {
        lemma_no_stop(s, 0, 0, n);
        assert(s.subrange(0, n) =~= s);
        assert(sentences(s) =~= kept(s));
    }
    let cjk = stop == '。' || stop == '！' || stop == '？';
    let mark = (stop == '!' || stop == '?') && (rest.len() == 0 || is_space(rest[0]));
    let dot = stop == '.' && (rest.len() == 0 || (rest.len() > 1 && rest[0] == ' ' && !is_space(
        rest[1],
    ) && !is_small(rest[1])));
    if s == first + seq![stop] + rest && (cjk || mark || dot) {
        assert forall|j: int| 0 <= j < n implies !is_stop(#[trigger] s[j]) by {
            assert(first[j] == s[j]);
        }
        lemma_no_stop(s, 0, 0, n);
        assert(s[n] == stop);
        let behind = s.skip(n + 1);
        assert(behind =~= rest);
        if n >= 2 {
            assert(first[n - 2] == s[n - 2]);
            assert(!is_stop(s[n - 2]));
        }
        if dot && rest.len() > 0 {
            assert(rest.drop_first()[0] == rest[1]);
            assert(is_space(rest.first()));
            assert(trim_start_of(rest) == trim_start_of(rest.drop_first()));
            assert(!is_space(rest.drop_first().first()));
            assert(trim_start_of(rest.drop_first()) == rest.drop_first());
        }
        assert(ends_sentence(s, n));
        let piece = s.subrange(0, n + 1);
        assert(piece =~= first + seq![stop]);
        assert(piece.first() == first[0] && piece.last() == stop);
        assert(!is_space(stop));
        assert(trim_of(piece) == piece);
        assert(sentences(s) == kept(piece) + sentences_from(s, n + 1, n + 1));
        assert(sentences(s)[0] == piece);
    }
}

proof fn lemma_last_fit_is(s: Seq<char>, width: nat, k: int, end: int)
    requires
        0 < k <= end <= s.len(),
        is_soft_break(s[k - 1]),
        columns(s.take(k)) <= width,
        forall|j: int|
            k < j <= end ==> !(is_soft_break(s[j - 1]) && columns(#[trigger] s.take(j)) <= width),
    ensures
        last_fit(s, width, end) == k,
    decreases end - k,
{
    if end > k {
        assert(!(is_soft_break(s[end - 1]) && columns(s.take(end)) <= width));
        lemma_last_fit_is(s, width, k, end - 1);
    }
}

/// A sentence that fits is one line. A wider one is broken at the last place
/// where it may be and where what stands before still fits, white space there
/// being left out, and what follows is broken in the same way.
pub proof fn law_lines_are_broken_at_the_last_place(
    s: &str,
    tail: &str,
    width: usize,
    k: int,
    r: Vec<String>,
    more: Vec<String>,
)
    requires
        call_ensures(wrap_clause, (s, width), r),
        call_ensures(wrap_clause, (tail, width), more),
    ensures
        columns(s@) <= width ==> texts(r@) == seq![s@],
        columns(s@) > width && 0 < k < s@.len() && is_soft_break(s@[k - 1]) && columns(s@.take(k))
            <= width && (forall|j: int|
            k < j <= s@.len() ==> !(is_soft_break(s@[j - 1]) && columns(#[trigger] s@.take(j))
                <= width)) && trim_end_of(s@.take(k)).len() > 0 && tail@ == trim_start_of(
            s@.skip(k),
        ) && tail@.len() > 0 ==> texts(r@) == seq![trim_end_of(s@.take(k))] + texts(more@),
{
    if columns(s@) > width && 0 < k < s@.len() && is_soft_break(s@[k - 1]) && columns(s@.take(k))
        <= width && (forall|j: int|
        k < j <= s@.len() ==> !(is_soft_break(s@[j - 1]) && columns(#[trigger] s@.take(j))
            <= width)) {
        lemma_last_fit_is(s@, width as nat, k, s@.len() as int);
        lemma_trim_start_len(s@.skip(k));
    }
}

/// Hard-wrapped help says what the text says, character by character, but for
/// white space.
pub proof fn law_wrapped_help_says_the_same(full: &str, r: String)
    requires
        call_ensures(hard_wrap_help, (full,), r),
    ensures
        r@.filter(|c: char| !is_space(c)) == full@.filter(|c: char| !is_space(c)),
{
    law_wrapping_keeps_the_text(full@);
}

/// A line may be broken after a comma, a semicolon or their wide forms, a
/// slash, an enumeration comma, a space and a tab, and nowhere else.
pub proof fn law_soft_breaks(c: char, r: bool)
    requires
        call_ensures(is_soft_break_char, (c,), r),
    ensures
        ({
            let n = c as u32;
            r <==> n == 0x2c || n == 0xff0c || n == 0x3b || n == 0xff1b || n == 0x2f || n == 0x3001
                || n == 0x20 || n == 0x09
        }),
{
}

} // verus!
