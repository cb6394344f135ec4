//! Text over its sequence of characters: trimming, ASCII case, joining,
//! and numbers in decimal and hexadecimal.

use vstd::prelude::*;
use vstd::utf8::{decode_utf8, valid_utf8};

verus! {

/// `String::push` appends the given character and leaves the rest alone.
pub assume_specification[ String::push ](s: &mut String, c: char)
    ensures
        final(s)@ == old(s)@.push(c),
;

/// What `core::str::from_utf8` says of bytes that are not UTF-8.
pub uninterp spec fn utf8_refusal(bytes: Seq<u8>) -> Seq<char>;

/// `core::str::from_utf8`: succeeds on valid UTF-8 and only there, with the
/// text that the bytes encode; what it says elsewhere is named by
/// `utf8_refusal`.
#[verifier::external_body]
pub(crate) fn text_from_utf8(bytes: &[u8]) -> (r: Result<String, String>)
    ensures
        match r {
            Ok(s) => valid_utf8(bytes@) && s@ == decode_utf8(bytes@),
            Err(why) => !valid_utf8(bytes@) && why@ == utf8_refusal(bytes@),
        },
{
    match core::str::from_utf8(bytes) {
        Ok(s) => Ok(s.to_owned()),
        Err(e) => Err(format!("{e}")),
    }
}

/// The characters with Unicode's `White_Space` property.
pub open spec fn is_space(c: char) -> bool {
    ||| '\u{9}' <= c <= '\u{d}'
    ||| c == ' '
    ||| c == '\u{85}'
    ||| c == '\u{a0}'
    ||| c == '\u{1680}'
    ||| '\u{2000}' <= c <= '\u{200a}'
    ||| c == '\u{2028}'
    ||| c == '\u{2029}'
    ||| c == '\u{202f}'
    ||| c == '\u{205f}'
    ||| c == '\u{3000}'
}

/// Whether `c` is white space.
pub fn char_is_space(c: char) -> (r: bool)
    ensures
        r == is_space(c),
{
    ('\u{9}' <= c && c <= '\u{d}') || c == ' ' || c == '\u{85}' || c == '\u{a0}' || c == '\u{1680}'
        || ('\u{2000}' <= c && c <= '\u{200a}') || c == '\u{2028}' || c == '\u{2029}' || c
        == '\u{202f}' || c == '\u{205f}' || c == '\u{3000}'
}

/// `c` with `A`–`Z` mapped to `a`–`z`.
pub open spec fn lower(c: char) -> char {
    if 'A' <= c <= 'Z' {
        (c as u32 + 32) as char
    } else {
        c
    }
}

/// `c` with `a`–`z` mapped to `A`–`Z`.
pub open spec fn upper(c: char) -> char {
    if 'a' <= c <= 'z' {
        (c as u32 - 32) as char
    } else {
        c
    }
}

/// `lower` on every character.
pub open spec fn lower_all(s: Seq<char>) -> Seq<char> {
    s.map_values(|c: char| lower(c))
}

/// The ASCII lower-case form of `c`.
pub fn char_lower(c: char) -> (r: char)
    ensures
        r == lower(c),
{
    if 'A' <= c && c <= 'Z' {
        let b: u8 = c as u8;
        (b + 32) as char
    } else {
        c
    }
}

/// The ASCII upper-case form of `c`.
pub fn char_upper(c: char) -> (r: char)
    ensures
        r == upper(c),
{
    if 'a' <= c && c <= 'z' {
        let b: u8 = c as u8;
        (b - 32) as char
    } else {
        c
    }
}

/// `s` without its leading white space.
pub open spec fn trim_start_of(s: Seq<char>) -> Seq<char>
    decreases s.len(),
{
    if s.len() > 0 && is_space(s.first()) {
        trim_start_of(s.drop_first())
    } else {
        s
    }
}

/// `s` without its trailing white space.
pub open spec fn trim_end_of(s: Seq<char>) -> Seq<char>
    decreases s.len(),
{
    if s.len() > 0 && is_space(s.last()) {
        trim_end_of(s.drop_last())
    } else {
        s
    }
}

/// `s` without white space at either end.
pub open spec fn trim_of(s: Seq<char>) -> Seq<char> {
    trim_end_of(trim_start_of(s))
}

/// What is left of `s` when every white-space character is taken out.
pub open spec fn ink(s: Seq<char>) -> Seq<char> {
    s.filter(|c: char| !is_space(c))
}

/// The texts that a list of strings holds.
pub open spec fn texts(v: Seq<String>) -> Seq<Seq<char>> {
    v.map_values(|s: String| s@)
}

/// `parts` one after the other with `sep` between neighbours.
pub open spec fn join_of(parts: Seq<Seq<char>>, sep: Seq<char>) -> Seq<char>
    decreases parts.len(),
{
    if parts.len() == 0 {
        Seq::empty()
    } else if parts.len() == 1 {
        parts[0]
    } else {
        join_of(parts.drop_last(), sep) + sep + parts.last()
    }
}

/// `s` begins with `p`.
pub open spec fn starts_with(s: Seq<char>, p: Seq<char>) -> bool {
    p.len() <= s.len() && s.take(p.len() as int) == p
}

/// The characters of `s`, in order.
pub fn chars_of(s: &str) -> (r: Vec<char>)
    ensures
        r@ == s@,
{
    let mut out: Vec<char> = Vec::new();
    for c in it: s.chars()
        invariant
            out@ == s@.take(it.index() as int),
            it.seq() == s@,
    {
        out.push(c);
        proof {
            assert(s@.take(it.index() + 1) =~= s@.take(it.index() as int).push(c));
        }
    }
    proof {
        assert(s@.take(s@.len() as int) =~= s@);
    }
    out
}

/// The string made of `v[from..to]`.
pub fn string_of(v: &Vec<char>, from: usize, to: usize) -> (r: String)
    requires
        from <= to <= v@.len(),
    ensures
        r@ == v@.subrange(from as int, to as int),
{
    let mut out = String::new();
    let mut i: usize = from;
    while i < to
        invariant
            from <= i <= to <= v@.len(),
            out@ == v@.subrange(from as int, i as int),
        decreases to - i,
    {
        out.push(v[i]);
        i = i + 1;
        proof {
            assert(v@.subrange(from as int, i as int) =~= v@.subrange(
                from as int,
                i - 1,
            ).push(v@[i - 1]));
        }
    }
    out
}

/// The string made of all of `v`.
pub fn string_from(v: &Vec<char>) -> (r: String)
    ensures
        r@ == v@,
{
    let r = string_of(v, 0, v.len());
    proof {
        assert(v@.subrange(0, v@.len() as int) =~= v@);
    }
    r
}

/// Whether `a` and `b` are the same text.
pub fn same_text(a: &str, b: &str) -> (r: bool)
    ensures
        r == (a@ == b@),
{
    let x = chars_of(a);
    let y = chars_of(b);
    same_chars(&x, &y)
}

/// Whether `x` and `y` hold the same characters.
pub fn same_chars(x: &Vec<char>, y: &Vec<char>) -> (r: bool)
    ensures
        r == (x@ == y@),
{
    if x.len() != y.len() {
        return false;
    }
    let mut i: usize = 0;
    while i < x.len()
        invariant
            i <= x@.len(),
            x@.len() == y@.len(),
            forall|j: int| 0 <= j < i ==> x@[j] == y@[j],
        decreases x@.len() - i,
    {
        if x[i] != y[i] {
            return false;
        }
        i = i + 1;
    }
    proof {
        assert(x@ =~= y@);
    }
    true
}

/// Whether `a` and `b` are the same text but for ASCII case.
pub fn eq_ignore_case(a: &str, b: &str) -> (r: bool)
    ensures
        r == (lower_all(a@) == lower_all(b@)),
{
    let x = to_lower(a);
    let y = to_lower(b);
    same_chars(&x, &y)
}

/// The characters of `a` in ASCII lower case.
pub fn to_lower(a: &str) -> (r: Vec<char>)
    ensures
        r@ == lower_all(a@),
{
    let x = chars_of(a);
    let mut out: Vec<char> = Vec::new();
    let mut i: usize = 0;
    while i < x.len()
        invariant
            i <= x@.len(),
            x@ == a@,
            out@.len() == i,
            forall|j: int| 0 <= j < i ==> out@[j] == lower(x@[j]),
        decreases x@.len() - i,
    {
        out.push(char_lower(x[i]));
        i = i + 1;
    }
    proof {
        assert(out@ =~= lower_all(a@));
    }
    out
}

/// Whether `s` begins with `p`.
pub fn has_prefix(s: &Vec<char>, p: &Vec<char>) -> (r: bool)
    ensures
        r == starts_with(s@, p@),
{
    if p.len() > s.len() {
        return false;
    }
    let mut i: usize = 0;
    while i < p.len()
        invariant
            i <= p@.len() <= s@.len(),
            forall|j: int| 0 <= j < i ==> s@[j] == p@[j],
        decreases p@.len() - i,
    {
        if s[i] != p[i] {
            proof {
                assert(s@.take(p@.len() as int)[i as int] != p@[i as int]);
            }
            return false;
        }
        i = i + 1;
    }
    proof {
        assert(s@.take(p@.len() as int) =~= p@);
    }
    true
}

/// Narrows `from..to` to leave out the white space at both ends of it.
pub fn trim_range(v: &Vec<char>, from: usize, to: usize) -> (r: (usize, usize))
    requires
        from <= to <= v@.len(),
    ensures
        from <= r.0 <= r.1 <= to,
        v@.subrange(r.0 as int, r.1 as int) == trim_of(v@.subrange(from as int, to as int)),
{
    let a: usize = trim_start_at(v, from, to);
    let b: usize = trim_end_at(v, a, to);
    (a, b)
}

/// The first position in `from..to` that is not white space, or `to`.
pub fn trim_start_at(v: &Vec<char>, from: usize, to: usize) -> (a: usize)
    requires
        from <= to <= v@.len(),
    ensures
        from <= a <= to,
        v@.subrange(a as int, to as int) == trim_start_of(v@.subrange(from as int, to as int)),
{
    let mut a: usize = from;
    while a < to && char_is_space(v[a])
        invariant
            from <= a <= to <= v@.len(),
            trim_start_of(v@.subrange(a as int, to as int)) == trim_start_of(
                v@.subrange(from as int, to as int),
            ),
        decreases to - a,
    {
        proof {
            assert(v@.subrange(a as int, to as int).drop_first() =~= v@.subrange(
                a + 1,
                to as int,
            ));
        }
        a = a + 1;
    }
    a
}

/// One past the last position in `from..to` that is not white space, or `from`.
pub fn trim_end_at(v: &Vec<char>, from: usize, to: usize) -> (b: usize)
    requires
        from <= to <= v@.len(),
    ensures
        from <= b <= to,
        v@.subrange(from as int, b as int) == trim_end_of(v@.subrange(from as int, to as int)),
{
    let mut b: usize = to;
    while b > from && char_is_space(v[b - 1])
        invariant
            from <= b <= to <= v@.len(),
            trim_end_of(v@.subrange(from as int, b as int)) == trim_end_of(
                v@.subrange(from as int, to as int),
            ),
        decreases b - from,
    {
        proof {
            assert(v@.subrange(from as int, b as int).drop_last() =~= v@.subrange(
                from as int,
                b - 1,
            ));
        }
        b = b - 1;
    }
    b
}

/// `s` without white space at either end.
pub fn trim(s: &str) -> (r: String)
    ensures
        r@ == trim_of(s@),
{
    let v = chars_of(s);
    let (a, b) = trim_range(&v, 0, v.len());
    proof {
        assert(v@.subrange(0, v@.len() as int) =~= v@);
    }
    string_of(&v, a, b)
}

/// `parts` one after the other with `sep` between neighbours.
pub fn join(parts: &Vec<String>, sep: &str) -> (r: String)
    ensures
        r@ == join_of(texts(parts@), sep@),
{
    let mut out = String::new();
    let mut i: usize = 0;
    while i < parts.len()
        invariant
            i <= parts@.len(),
            out@ == join_of(texts(parts@.take(i as int)), sep@),
        decreases parts@.len() - i,
    {
        let ghost before = texts(parts@.take(i as int));
        proof {
            let now = texts(parts@.take(i + 1));
            assert(now.len() == i + 1);
            assert(now.drop_last() =~= before);
            assert(now.last() == parts@[i as int]@);
        }
        if i > 0 {
            out.append(sep);
        }
        out.append(parts[i].as_str());
        i = i + 1;
    }
    proof {
        assert(parts@.take(parts@.len() as int) =~= parts@);
    }
    out
}

/// The decimal digit for `d`.
pub open spec fn digit_char(d: nat) -> char {
    (48 + d) as char
}

/// `n` in decimal, without leading zeros.
pub open spec fn decimal_of(n: nat) -> Seq<char>
    decreases n,
{
    if n < 10 {
        seq![digit_char(n)]
    } else {
        decimal_of(n / 10).push(digit_char(n % 10))
    }
}

/// `n` in decimal, without leading zeros.
pub fn decimal(n: u64) -> (r: String)
    ensures
        r@ == decimal_of(n as nat),
    decreases n,
{
    if n < 10 {
        let mut out = String::new();
        out.push((48 + n as u8) as char);
        proof {
            assert(out@ =~= seq![digit_char(n as nat)]);
        }
        out
    } else {
        let mut out = decimal(n / 10);
        out.push((48 + (n % 10) as u8) as char);
        out
    }
}

/// The lower-case hexadecimal digit for `d`.
pub open spec fn hex_char(d: nat) -> char {
    if d < 10 {
        (48 + d) as char
    } else {
        (87 + d) as char
    }
}

/// The two hexadecimal digits of a byte.
pub open spec fn hex_byte(b: u8) -> Seq<char> {
    seq![hex_char((b / 16) as nat), hex_char((b % 16) as nat)]
}

/// The lower-case hexadecimal form of `bytes`, two digits for each.
pub open spec fn hex_of(bytes: Seq<u8>) -> Seq<char>
    decreases bytes.len(),
{
    if bytes.len() == 0 {
        Seq::empty()
    } else {
        hex_of(bytes.drop_last()) + hex_byte(bytes.last())
    }
}

fn hex_digit(d: u8) -> (r: char)
    requires
        d < 16,
    ensures
        r == hex_char(d as nat),
{
    if d < 10 {
        (48 + d) as char
    } else {
        (87 + d) as char
    }
}

/// The lower-case hexadecimal form of `bytes`.
pub fn hex(bytes: &[u8]) -> (r: String)
    ensures
        r@ == hex_of(bytes@),
{
    let mut out = String::new();
    let mut i: usize = 0;
    while i < bytes.len()
        invariant
            i <= bytes@.len(),
            out@ == hex_of(bytes@.take(i as int)),
        decreases bytes@.len() - i,
    {
        let b: u8 = bytes[i];
        out.push(hex_digit(b / 16));
        out.push(hex_digit(b % 16));
        i = i + 1;
        proof {
            assert(bytes@.take(i as int).drop_last() =~= bytes@.take(i - 1));
            assert(out@ =~= hex_of(bytes@.take(i - 1)) + hex_byte(b));
        }
    }
    proof {
        assert(bytes@.take(bytes@.len() as int) =~= bytes@);
    }
    out
}

/// Whether `c` is one of `0`–`9`.
pub open spec fn is_digit(c: char) -> bool {
    '0' <= c <= '9'
}

/// Whether every character of `s` is a decimal digit.
pub open spec fn all_digits(s: Seq<char>) -> bool {
    forall|i: int| 0 <= i < s.len() ==> is_digit(#[trigger] s[i])
}

/// The number that a run of decimal digits writes.
pub open spec fn number_of(s: Seq<char>) -> nat
    decreases s.len(),
{
    if s.len() == 0 {
        0
    } else {
        number_of(s.drop_last()) * 10 + (s.last() as nat - 48) as nat
    }
}

proof fn lemma_number_prefix(s: Seq<char>, k: int)
    requires
        0 <= k <= s.len(),
    ensures
        number_of(s.take(k)) <= number_of(s),
    decreases s.len() - k,
{
    if k < s.len() {
        lemma_number_prefix(s, k + 1);
        assert(s.take(k + 1).drop_last() =~= s.take(k));
    } else {
        assert(s.take(k) =~= s);
    }
}

/// The number that the digits `v[from..to]` write, or `None` past `u64::MAX`.
pub fn parse_number(v: &Vec<char>, from: usize, to: usize) -> (r: Option<u64>)
    requires
        from <= to <= v@.len(),
        all_digits(v@.subrange(from as int, to as int)),
    ensures
        r == (if number_of(v@.subrange(from as int, to as int)) <= u64::MAX {
            Some(number_of(v@.subrange(from as int, to as int)) as u64)
        } else {
            None
        }),
{
    let ghost run = v@.subrange(from as int, to as int);
    let mut n: u64 = 0;
    let mut i: usize = from;
    while i < to
        invariant
            from <= i <= to <= v@.len(),
            run == v@.subrange(from as int, to as int),
            all_digits(run),
            n == number_of(run.take(i - from)),
        decreases to - i,
    {
        proof {
            assert(run.take(i - from + 1).drop_last() =~= run.take(i - from));
            assert(run[i - from] == v@[i as int]);
            assert(is_digit(run[i - from]));
            lemma_number_prefix(run, i - from + 1);
        }
        let d: u64 = (v[i] as u8 - 48) as u64;
        if n > (u64::MAX - d) / 10 {
            return None;
        }
        n = n * 10 + d;
        i = i + 1;
    }
    proof {
        assert(run.take(to - from) =~= run);
    }
    Some(n)
}

/// The number that a text writes in decimal, after a plus sign or without.
pub open spec fn written_number(s: Seq<char>) -> Option<u64> {
    let digits = if s.len() > 0 && s[0] == '+' {
        s.skip(1)
    } else {
        s
    };
    if digits.len() > 0 && all_digits(digits) && number_of(digits) <= u64::MAX {
        Some(number_of(digits) as u64)
    } else {
        None
    }
}

/// The number that a text writes in decimal, after a plus sign or without.
pub fn parse_u64(s: &str) -> (r: Option<u64>)
    ensures
        r == written_number(s@),
{
    let v = chars_of(s);
    let len: usize = v.len();
    let from: usize = if len > 0 && v[0] == '+' {
        1
    } else {
        0
    };
    let ghost digits = v@.subrange(from as int, len as int);
    proof {
        assert(digits =~= if v@.len() > 0 && v@[0] == '+' {
            v@.skip(1)
        } else {
            v@
        });
    }
    if from == len {
        return None;
    }
    let mut i: usize = from;
    while i < len
        invariant
            from <= i <= len == v@.len(),
            v@ == s@,
            digits == v@.subrange(from as int, len as int),
            digits == (if v@.len() > 0 && v@[0] == '+' {
                v@.skip(1)
            } else {
                v@
            }),
            forall|j: int| 0 <= j < i - from ==> is_digit(#[trigger] digits[j]),
        decreases len - i,
    {
        if !('0' <= v[i] && v[i] <= '9') {
            proof {
                assert(!is_digit(digits[i - from]));
            }
            return None;
        }
        i = i + 1;
    }
    parse_number(&v, from, len)
}

/// The pieces of `s` between occurrences of `sep`.
pub open spec fn split_of(s: Seq<char>, sep: char) -> Seq<Seq<char>>
    decreases s.len(),
{
    if s.len() == 0 {
        seq![Seq::empty()]
    } else {
        let before = split_of(s.drop_last(), sep);
        if s.last() == sep {
            before.push(Seq::empty())
        } else {
            before.drop_last().push(before.last().push(s.last()))
        }
    }
}

/// Splitting gives at least one piece.
pub proof fn lemma_split_nonempty(s: Seq<char>, sep: char)
    ensures
        split_of(s, sep).len() > 0,
    decreases s.len(),
{
    if s.len() > 0 {
        lemma_split_nonempty(s.drop_last(), sep);
    }
}

/// Joining the pieces with the separator gives back what was split.
pub proof fn lemma_split_join(s: Seq<char>, sep: char)
    ensures
        join_of(split_of(s, sep), seq![sep]) == s,
    decreases s.len(),
{
    lemma_split_nonempty(s, sep);
    if s.len() > 0 {
        let before = split_of(s.drop_last(), sep);
        lemma_split_nonempty(s.drop_last(), sep);
        lemma_split_join(s.drop_last(), sep);
        let now = split_of(s, sep);
        if s.last() == sep {
            assert(now.drop_last() =~= before);
            assert(join_of(now, seq![sep]) =~= s.drop_last() + seq![sep]);
            assert(s.drop_last() + seq![sep] =~= s);
        } else {
            assert(now.drop_last() =~= before.drop_last());
            assert(join_of(now, seq![sep]) =~= join_of(before, seq![sep]).push(s.last()));
            assert(s.drop_last().push(s.last()) =~= s);
        }
    } else {
        assert(split_of(s, sep)[0] =~= s);
    }
}

/// The pieces of `s` between occurrences of `sep`.
pub fn split(s: &str, sep: char) -> (r: Vec<String>)
    ensures
        texts(r@) == split_of(s@, sep),
{
    let v = chars_of(s);
    let mut out: Vec<String> = Vec::new();
    let mut cur = String::new();
    let mut i: usize = 0;
    proof {
        assert(texts(out@).push(cur@) =~= seq![Seq::<char>::empty()]);
    }
    while i < v.len()
        invariant
            i <= v@.len(),
            v@ == s@,
            texts(out@).push(cur@) == split_of(s@.take(i as int), sep),
        decreases v@.len() - i,
    {
        let c: char = v[i];
        let ghost before = split_of(s@.take(i as int), sep);
        proof {
            assert(s@.take(i + 1).drop_last() =~= s@.take(i as int));
            assert(before.drop_last() =~= texts(out@));
            assert(before.last() == cur@);
        }
        if c == sep {
            let ghost done = out@;
            out.push(cur);
            proof {
                assert(texts(out@) =~= before);
            }
            cur = String::new();
        } else {
            cur.push(c);
        }
        i = i + 1;
    }
    proof {
        assert(s@.take(s@.len() as int) =~= s@);
    }
    let ghost done = out@;
    let ghost last = cur@;
    out.push(cur);
    proof {
        assert(texts(out@) =~= texts(done).push(last));
    }
    out
}

/// Trimming takes out white space only.
pub proof fn lemma_trim_keeps_ink(s: Seq<char>)
    ensures
        ink(trim_of(s)) == ink(s),
        ink(trim_start_of(s)) == ink(s),
        ink(trim_end_of(s)) == ink(s),
{
    lemma_trim_start_ink(s);
    lemma_trim_end_ink(s);
    lemma_trim_end_ink(trim_start_of(s));
}

proof fn lemma_trim_start_ink(s: Seq<char>)
    ensures
        ink(trim_start_of(s)) == ink(s),
    decreases s.len(),
{
    if s.len() > 0 && is_space(s.first()) {
        lemma_trim_start_ink(s.drop_first());
        let head = seq![s.first()];
        assert(s =~= head + s.drop_first());
        lemma_ink_add(head, s.drop_first());
        assert(head.drop_last() =~= Seq::<char>::empty());
        reveal_with_fuel(Seq::filter, 2);
        assert(ink(head) =~= Seq::<char>::empty());
        assert(ink(s) =~= ink(s.drop_first()));
    }
}

proof fn lemma_trim_end_ink(s: Seq<char>)
    ensures
        ink(trim_end_of(s)) == ink(s),
    decreases s.len(),
{
    if s.len() > 0 && is_space(s.last()) {
        lemma_trim_end_ink(s.drop_last());
        reveal(Seq::filter);
    }
}

/// `ink` of a concatenation is the concatenation of the inks.
pub proof fn lemma_ink_add(a: Seq<char>, b: Seq<char>)
    ensures
        ink(a + b) == ink(a) + ink(b),
{
    Seq::filter_distributes_over_add(a, b, |c: char| !is_space(c));
}

/// Whether every character is white space.
pub open spec fn all_space(s: Seq<char>) -> bool {
    forall|i: int| 0 <= i < s.len() ==> is_space(#[trigger] s[i])
}

proof fn lemma_trim_start_parts(s: Seq<char>)
    ensures
        trim_start_of(s).len() <= s.len(),
        s == s.take(s.len() - trim_start_of(s).len()) + trim_start_of(s),
        all_space(s.take(s.len() - trim_start_of(s).len())),
        trim_start_of(s).len() > 0 ==> !is_space(trim_start_of(s)[0]),
    decreases s.len(),
{
    if s.len() > 0 && is_space(s.first()) {
        let rest = s.drop_first();
        lemma_trim_start_parts(rest);
        let n = rest.len() - trim_start_of(rest).len();
        assert(s.take(n + 1) =~= seq![s.first()] + rest.take(n));
        assert(s =~= seq![s.first()] + rest);
        assert(s =~= s.take(n + 1) + trim_start_of(rest));
        assert forall|i: int| 0 <= i < n + 1 implies is_space(#[trigger] s.take(n + 1)[i]) by {
            if i > 0 {
                assert(rest.take(n)[i - 1] == s[i]);
            }
        }
    } else {
        assert(s =~= s.take(0) + s);
    }
}

proof fn lemma_trim_end_parts(s: Seq<char>)
    ensures
        trim_end_of(s).len() <= s.len(),
        s == trim_end_of(s) + s.skip(trim_end_of(s).len() as int),
        all_space(s.skip(trim_end_of(s).len() as int)),
        trim_end_of(s).len() > 0 ==> !is_space(trim_end_of(s).last()),
        trim_end_of(s).len() > 0 ==> trim_end_of(s)[0] == s[0],
    decreases s.len(),
{
    if s.len() > 0 && is_space(s.last()) {
        let rest = s.drop_last();
        lemma_trim_end_parts(rest);
        let n = trim_end_of(rest).len() as int;
        assert(s.skip(n) =~= rest.skip(n).push(s.last()));
        assert(rest =~= trim_end_of(rest) + rest.skip(n));
        assert(s =~= rest.push(s.last()));
        assert(rest.push(s.last()) =~= trim_end_of(rest) + rest.skip(n).push(s.last()));
        assert forall|i: int| 0 <= i < s.len() - n implies is_space(#[trigger] s.skip(n)[i]) by {
            if i < rest.len() - n {
                assert(rest.skip(n)[i] == s.skip(n)[i]);
            }
        }
    } else {
        assert(s =~= s + s.skip(s.len() as int));
    }
}

/// Trimming takes white space off both ends, all of it, and nothing else.
pub proof fn law_trim_takes_the_ends_off(s: &str, r: String)
    requires
        call_ensures(trim, (s,), r),
    ensures
        exists|a: Seq<char>, b: Seq<char>|
            all_space(a) && all_space(b) && s@ == #[trigger] (a + r@ + b),
        r@.len() > 0 ==> !is_space(r@[0]) && !is_space(r@.last()),
{
    let u = trim_start_of(s@);
    lemma_trim_start_parts(s@);
    lemma_trim_end_parts(u);
    let a = s@.take(s@.len() - u.len());
    let b = u.skip(trim_end_of(u).len() as int);
    assert(s@ =~= a + r@ + b);
}

/// White space is what Unicode calls so: six control characters, the space
/// and no-break space, and the spaces and separators at U+1680, U+2000 to
/// U+200A, U+2028, U+2029, U+202F, U+205F and U+3000.
pub proof fn law_white_space(c: char, r: bool)
    requires
        call_ensures(char_is_space, (c,), r),
    ensures
        ({
            let n = c as u32 as int;
            r <==> set![
                9int,
                10,
                11,
                12,
                13,
                32,
                0x85,
                0xa0,
                0x1680,
                0x2028,
                0x2029,
                0x202f,
                0x205f,
                0x3000,
            ].contains(n) || (0x2000 <= n && n < 0x200b)
        }),
{
}

/// Two texts are the same but for case exactly where they are equally long
/// and differ at most by the two cases of a letter of ASCII, which are 32
/// apart.
pub proof fn law_same_but_for_case(a: &str, b: &str, r: bool)
    requires
        call_ensures(eq_ignore_case, (a, b), r),
    ensures
        r <==> a@.len() == b@.len() && forall|i: int|
            0 <= i < a@.len() ==> {
                let x = #[trigger] a@[i] as u32 as int;
                let y = b@[i] as u32 as int;
                ||| x == y
                ||| 65 <= x && x <= 90 && y == x + 32
                ||| 65 <= y && y <= 90 && x == y + 32
            },
{
    let x = lower_all(a@);
    let y = lower_all(b@);
    if r {
        assert forall|i: int| 0 <= i < a@.len() implies lower(#[trigger] a@[i]) == lower(b@[i]) by {
            assert(x[i] == y[i]);
        }
    }
    if a@.len() == b@.len() && forall|i: int|
        0 <= i < a@.len() ==> {
            let x = #[trigger] a@[i] as u32 as int;
            let y = b@[i] as u32 as int;
            ||| x == y
            ||| 65 <= x && x <= 90 && y == x + 32
            ||| 65 <= y && y <= 90 && x == y + 32
        } {
        assert forall|i: int| 0 <= i < x.len() implies x[i] == y[i] by {
            let c = a@[i];
            let d = b@[i];
            assert(lower(c) == lower(d));
        }
        assert(x =~= y);
    }
}

/// Case is changed in the letters of ASCII alone, and back again by the other
/// change.
pub proof fn law_case_is_changed_in_letters(c: char, low: char, up: char)
    requires
        call_ensures(char_lower, (c,), low),
        call_ensures(char_upper, (c,), up),
    ensures
        ({
            let n = c as u32 as int;
            &&& low as u32 == (if 65 <= n && n <= 90 {
                n + 32
            } else {
                n
            })
            &&& up as u32 == (if 97 <= n && n <= 122 {
                n - 32
            } else {
                n
            })
        }),
{
}

/// A text begins with another exactly where it is that one with something
/// behind it.
pub proof fn law_prefix(s: Vec<char>, p: Vec<char>, r: bool)
    requires
        call_ensures(has_prefix, (&s, &p), r),
    ensures
        r <==> exists|rest: Seq<char>| s@ == #[trigger] (p@ + rest),
{
    if r {
        assert(s@ =~= p@ + s@.skip(p@.len() as int));
    }
    if exists|rest: Seq<char>| s@ == #[trigger] (p@ + rest) {
        let rest = choose|rest: Seq<char>| s@ == #[trigger] (p@ + rest);
        assert(s@.take(p@.len() as int) =~= p@);
    }
}

/// Numbers are written digit by digit: one below ten as its digit, and any
/// other as what is left without its last digit, and that digit.
pub proof fn law_decimal_digits(n: u64, m: u64, long: String, front: String)
    requires
        call_ensures(decimal, (n,), long),
        call_ensures(decimal, (m,), front),
        m == n / 10,
    ensures
        long@.len() > 0,
        long@.last() as u32 == 48 + n % 10,
        n < 10 ==> long@.len() == 1,
        n >= 10 ==> long@.drop_last() == front@,
{
    if n >= 10 {
        assert(long@.drop_last() =~= front@);
    }
}

pub(crate) proof fn lemma_decimal_reads_back(n: nat)
    ensures
        decimal_of(n).len() > 0,
        all_digits(decimal_of(n)),
        number_of(decimal_of(n)) == n,
    decreases n,
{
    let d = decimal_of(n);
    if n >= 10 {
        lemma_decimal_reads_back(n / 10);
        let f = decimal_of(n / 10);
        assert(d.drop_last() =~= f);
        assert forall|i: int| 0 <= i < d.len() implies is_digit(#[trigger] d[i]) by {
            if i < f.len() {
                assert(is_digit(f[i]));
            }
        }
    } else {
        assert(d.drop_last() =~= Seq::<char>::empty());
        assert(number_of(d.drop_last()) == 0);
    }
}

/// What a number is written as reads as that number, after a plus sign or
/// without.
pub proof fn law_numbers_read_back(n: u64, text: String, s: &str, r: Option<u64>)
    requires
        call_ensures(decimal, (n,), text),
        s@ == text@ || s@ == seq!['+'] + text@,
        call_ensures(parse_u64, (s,), r),
    ensures
        r == Some(n),
{
    lemma_decimal_reads_back(n as nat);
    if s@ == seq!['+'] + text@ {
        assert(s@.skip(1) =~= text@);
    } else {
        assert(is_digit(text@[0]));
    }
}

/// A text that reads as a number is digits alone, after a plus sign or
/// without.
pub proof fn law_only_digits_are_numbers(s: &str, r: Option<u64>, i: int)
    requires
        call_ensures(parse_u64, (s,), r),
        r is Some,
        0 <= i < s@.len(),
    ensures
        48 <= s@[i] as u32 <= 57 || (i == 0 && s@[0] == '+' && s@.len() > 1),
{
    let digits = if s@[0] == '+' {
        s@.skip(1)
    } else {
        s@
    };
    if s@[0] == '+' {
        if i > 0 {
            assert(is_digit(digits[i - 1]));
        }
    } else {
        assert(is_digit(digits[i]));
    }
}

/// Bytes are written with two digits each, the high half first.
pub proof fn law_hex_digits(bytes: &[u8], r: String, i: int)
    requires
        call_ensures(hex, (bytes,), r),
    ensures
        r@.len() == 2 * bytes@.len(),
        0 <= i < bytes@.len() ==> r@[2 * i] == "0123456789abcdef"@[bytes@[i] as int / 16]
            && r@[2 * i + 1] == "0123456789abcdef"@[bytes@[i] as int % 16],
{
    reveal_strlit("0123456789abcdef");
    lemma_hex_at(bytes@, i);
}

proof fn lemma_hex_at(bytes: Seq<u8>, i: int)
    ensures
        hex_of(bytes).len() == 2 * bytes.len(),
        0 <= i < bytes.len() ==> hex_of(bytes)[2 * i] == hex_char((bytes[i] / 16) as nat)
            && hex_of(bytes)[2 * i + 1] == hex_char((bytes[i] % 16) as nat),
    decreases bytes.len(),
{
    if bytes.len() > 0 {
        lemma_hex_at(bytes.drop_last(), i);
    }
}

/// Splitting gives pieces without the separator, which joined with it are the
/// text again.
pub proof fn law_split_and_join(s: &str, sep: char, between: &str, r: Vec<String>, back: String)
    requires
        call_ensures(split, (s, sep), r),
        between@ == seq![sep],
        call_ensures(join, (&r, between), back),
    ensures
        r@.len() > 0,
        forall|k: int| 0 <= k < r@.len() ==> !(#[trigger] r@[k])@.contains(sep),
        back@ == s@,
{
    lemma_split_nonempty(s@, sep);
    lemma_split_join(s@, sep);
    lemma_pieces_lack_separator(s@, sep);
    assert forall|k: int| 0 <= k < r@.len() implies !(#[trigger] r@[k])@.contains(sep) by {
        assert(texts(r@)[k] == r@[k]@);
    }
}

proof fn lemma_pieces_lack_separator(s: Seq<char>, sep: char)
    ensures
        forall|k: int| 0 <= k < split_of(s, sep).len() ==> !(#[trigger] split_of(s, sep)[k]).contains(sep),
    decreases s.len(),
{
    if s.len() > 0 {
        let front = s.drop_last();
        lemma_pieces_lack_separator(front, sep);
        lemma_split_nonempty(front, sep);
        let before = split_of(front, sep);
        let now = split_of(s, sep);
        assert forall|k: int| 0 <= k < now.len() implies !(#[trigger] now[k]).contains(sep) by {
            if k < before.len() - 1 {
                assert(now[k] == before[k]);
            } else if s.last() != sep {
                let last = before[before.len() - 1];
                assert(now[k] == last.push(s.last()));
                if now[k].contains(sep) {
                    let j = choose|j: int| 0 <= j < now[k].len() && now[k][j] == sep;
                    assert(last[j] == sep);
                }
            } else if k < before.len() {
                assert(now[k] == before[k]);
            }
        }
    }
}

/// Joining one more part puts the separator and the part behind what the
/// others give; one part alone is itself, and none is nothing.
pub proof fn law_join(parts: Vec<String>, front: Vec<String>, sep: &str, r: String, before: String)
    requires
        call_ensures(join, (&parts, sep), r),
        call_ensures(join, (&front, sep), before),
    ensures
        parts@.len() == 0 ==> r@.len() == 0,
        parts@.len() == 1 ==> r@ == parts@[0]@,
        parts@.len() > 1 && front@ == parts@.drop_last() ==> r@ == before@ + sep@
            + parts@.last()@,
{
    if parts@.len() > 1 && front@ == parts@.drop_last() {
        assert(texts(parts@).drop_last() =~= texts(front@));
    }
}

pub(crate) proof fn lemma_split_behind(a: Seq<char>, sep: char, b: Seq<char>)
    requires
        !b.contains(sep),
    ensures
        split_of(a + seq![sep] + b, sep) == split_of(a, sep).push(b),
    decreases b.len(),
{
    let s = a + seq![sep] + b;
    if b.len() == 0 {
        assert(s.drop_last() =~= a);
        assert(s.last() == sep);
        assert(b =~= Seq::<char>::empty());
    } else {
        let front = b.drop_last();
        assert(!front.contains(sep)) by {
            if front.contains(sep) {
                let i = choose|i: int| 0 <= i < front.len() && front[i] == sep;
                assert(b[i] == sep);
            }
        }
        lemma_split_behind(a, sep, front);
        assert(s.drop_last() =~= a + seq![sep] + front);
        assert(s.last() == b.last());
        assert(b[b.len() - 1] != sep);
        let before = split_of(a, sep).push(front);
        assert(before.drop_last() =~= split_of(a, sep));
        assert(front.push(b.last()) =~= b);
    }
}

pub(crate) proof fn lemma_join_split(parts: Seq<Seq<char>>, sep: char)
    requires
        parts.len() > 0,
        forall|i: int| 0 <= i < parts.len() ==> !(#[trigger] parts[i]).contains(sep),
    ensures
        split_of(join_of(parts, seq![sep]), sep) == parts,
    decreases parts.len(),
{
    if parts.len() == 1 {
        let only = parts[0];
        lemma_split_nonempty(only, sep);
        lemma_pieces_lack_separator(only, sep);
        lemma_one_piece(only, sep);
        assert(parts =~= seq![only]);
    } else {
        let front = parts.drop_last();
        assert forall|i: int| 0 <= i < front.len() implies !(#[trigger] front[i]).contains(sep) by {
            assert(!parts[i].contains(sep));
        }
        lemma_join_split(front, sep);
        assert(!parts[parts.len() - 1].contains(sep));
        lemma_split_behind(join_of(front, seq![sep]), sep, parts.last());
        assert(front.push(parts.last()) =~= parts);
    }
}

proof fn lemma_one_piece(s: Seq<char>, sep: char)
    requires
        !s.contains(sep),
    ensures
        split_of(s, sep) == seq![s],
    decreases s.len(),
{
    if s.len() > 0 {
        let front = s.drop_last();
        assert(!front.contains(sep)) by {
            if front.contains(sep) {
                let i = choose|i: int| 0 <= i < front.len() && front[i] == sep;
                assert(s[i] == sep);
            }
        }
        lemma_one_piece(front, sep);
        assert(s[s.len() - 1] != sep);
        assert(front.push(s.last()) =~= s);
        assert(split_of(s, sep) =~= seq![s]);
    } else {
        assert(s =~= Seq::<char>::empty());
    }
}

/// What was joined with a separator that no part holds is split into the parts
/// again.
pub proof fn law_join_and_split(parts: Vec<String>, sep: char, between: &str, s: String, as_str: &str, r: Vec<String>)
    requires
        parts@.len() > 0,
        forall|i: int| 0 <= i < parts@.len() ==> !(#[trigger] parts@[i])@.contains(sep),
        between@ == seq![sep],
        call_ensures(join, (&parts, between), s),
        as_str@ == s@,
        call_ensures(split, (as_str, sep), r),
    ensures
        texts(r@) == texts(parts@),
{
    let t = texts(parts@);
    assert forall|i: int| 0 <= i < t.len() implies !(#[trigger] t[i]).contains(sep) by {
        assert(!parts@[i]@.contains(sep));
    }
    lemma_join_split(t, sep);
}

} // verus!
