//! Crockford Base32: five bits to a symbol, most significant first, the last
//! symbol padded with zero bits.

use vstd::arithmetic::power2::{lemma2_to64, lemma_pow2_unfold, pow2};
use vstd::prelude::*;
use crate::text::{char_upper, upper};

verus! {

/// The low `w` bits of `v`, most significant first.
pub open spec fn bits_of(v: nat, w: nat) -> Seq<bool>
    decreases w,
{
    if w == 0 {
        Seq::empty()
    } else {
        bits_of(v / 2, (w - 1) as nat).push(v % 2 == 1)
    }
}

/// The number that bits write, most significant first.
pub open spec fn value_of(bits: Seq<bool>) -> nat
    decreases bits.len(),
{
    if bits.len() == 0 {
        0
    } else {
        value_of(bits.drop_last()) * 2 + if bits.last() {
            1nat
        } else {
            0nat
        }
    }
}

/// The bits of numbers of `w` bits each, one after the other.
pub open spec fn spread(values: Seq<nat>, w: nat) -> Seq<bool>
    decreases values.len(),
{
    if values.len() == 0 {
        Seq::empty()
    } else {
        spread(values.drop_last(), w) + bits_of(values.last(), w)
    }
}

/// The numbers that the whole groups of `w` bits write; bits left over at the
/// end are dropped.
pub open spec fn groups(bits: Seq<bool>, w: nat) -> Seq<nat>
    decreases bits.len(),
{
    if w == 0 || bits.len() < w {
        Seq::empty()
    } else {
        seq![value_of(bits.take(w as int))] + groups(bits.skip(w as int), w)
    }
}

/// `n` zero bits.
pub open spec fn zeros(n: nat) -> Seq<bool> {
    Seq::new(n, |i: int| false)
}

/// How many zero bits fill `n` bits up to whole symbols.
pub open spec fn padding(n: nat) -> nat {
    ((5 - n % 5) % 5) as nat
}

/// Bytes as numbers.
pub open spec fn numbers(data: Seq<u8>) -> Seq<nat> {
    data.map_values(|b: u8| b as nat)
}

/// The symbol values of a byte string.
pub open spec fn symbols_of(data: Seq<u8>) -> Seq<nat> {
    let bits = spread(numbers(data), 8);
    groups(bits + zeros(padding(bits.len())), 5)
}

/// The symbol for a value below 32, out of
/// `0123456789ABCDEFGHJKMNPQRSTVWXYZ`.
pub open spec fn symbol(v: nat) -> char {
    if v < 10 {
        (48 + v) as char
    } else if v < 18 {
        (55 + v) as char
    } else if v < 20 {
        (56 + v) as char
    } else if v < 22 {
        (57 + v) as char
    } else if v < 27 {
        (58 + v) as char
    } else {
        (59 + v) as char
    }
}

/// The value of a symbol: the position of its upper-case form in the alphabet.
/// What is not ASCII is no symbol.
pub open spec fn symbol_value(c: char) -> Option<nat> {
    let b = upper(c) as u32;
    if 48 <= b <= 57 {
        Some((b - 48) as nat)
    } else if 65 <= b <= 72 {
        Some((b - 55) as nat)
    } else if 74 <= b <= 75 {
        Some((b - 56) as nat)
    } else if 77 <= b <= 78 {
        Some((b - 57) as nat)
    } else if 80 <= b <= 84 {
        Some((b - 58) as nat)
    } else if 86 <= b <= 90 {
        Some((b - 59) as nat)
    } else {
        None
    }
}

/// The text of a byte string.
pub open spec fn crockford_of(data: Seq<u8>) -> Seq<char> {
    symbols_of(data).map_values(|v: nat| symbol(v))
}

/// Whether every character is a symbol.
pub open spec fn all_symbols(s: Seq<char>) -> bool {
    forall|i: int| 0 <= i < s.len() ==> symbol_value(#[trigger] s[i]) is Some
}

/// The values of the symbols of `s`.
pub open spec fn values_of(s: Seq<char>) -> Seq<nat> {
    s.map_values(|c: char| symbol_value(c)->0)
}

/// The bytes that a text of symbols writes; bits short of a byte are dropped.
pub open spec fn decoded(s: Seq<char>) -> Seq<u8> {
    groups(spread(values_of(s), 5), 8).map_values(|v: nat| v as u8)
}

fn push_bits(out: &mut Vec<bool>, v: u8, w: usize)
    ensures
        final(out)@ == old(out)@ + bits_of(v as nat, w as nat),
    decreases w,
{
    if w > 0 {
        push_bits(out, v / 2, w - 1);
        out.push(v % 2 == 1);
    }
    proof {
        assert(out@ =~= old(out)@ + bits_of(v as nat, w as nat));
    }
}

proof fn lemma_value_bound(bits: Seq<bool>)
    ensures
        value_of(bits) < pow2(bits.len()),
    decreases bits.len(),
{
    if bits.len() == 0 {
        lemma2_to64();
    } else {
        lemma_value_bound(bits.drop_last());
        lemma_pow2_unfold(bits.len());
    }
}

proof fn lemma_small_groups(bits: Seq<bool>, w: nat)
    requires
        w <= 8,
        bits.len() == w,
    ensures
        value_of(bits) < 256,
        w == 5 ==> value_of(bits) < 32,
{
    lemma_value_bound(bits);
    lemma2_to64();
}

fn read_bits(bits: &Vec<bool>, from: usize, w: usize) -> (r: u8)
    requires
        w <= 8,
        from + w <= bits@.len(),
    ensures
        r == value_of(bits@.subrange(from as int, from + w)),
{
    let len: usize = bits.len();
    let mut v: u32 = 0;
    let mut k: usize = 0;
    while k < w
        invariant
            k <= w <= 8,
            from + w <= bits@.len() == len,
            v == value_of(bits@.subrange(from as int, from + k)),
            v < 256,
        decreases w - k,
    {
        proof {
            assert(bits@.subrange(from as int, from + k + 1).drop_last() =~= bits@.subrange(
                from as int,
                from + k,
            ));
            lemma_short_value(bits@.subrange(from as int, from + k + 1));
        }
        v = v * 2 + if bits[from + k] {
            1
        } else {
            0
        };
        k = k + 1;
    }
    v as u8
}

proof fn lemma_short_value(bits: Seq<bool>)
    requires
        bits.len() <= 8,
    ensures
        value_of(bits) < 256,
{
    lemma_value_bound(bits);
    lemma2_to64();
    if bits.len() < 8 {
        vstd::arithmetic::power2::lemma_pow2_strictly_increases(bits.len(), 8);
    }
}

/// The text of `data` in Crockford Base32.
pub fn encode_crockford(data: &[u8]) -> (r: String)
    ensures
        r@ == crockford_of(data@),
{
    let mut bits: Vec<bool> = Vec::new();
    let mut i: usize = 0;
    proof {
        assert(numbers(data@).take(0) =~= Seq::<nat>::empty());
    }
    while i < data.len()
        invariant
            i <= data@.len(),
            bits@ == spread(numbers(data@).take(i as int), 8),
        decreases data@.len() - i,
    {
        proof {
            assert(numbers(data@).take(i + 1).drop_last() =~= numbers(data@).take(i as int));
            assert(numbers(data@).take(i + 1).last() == data@[i as int]);
        }
        push_bits(&mut bits, data[i], 8);
        i = i + 1;
    }
    proof {
        assert(numbers(data@).take(data@.len() as int) =~= numbers(data@));
    }
    let ghost raw = bits@;
    let need: usize = (5 - bits.len() % 5) % 5;
    let mut k: usize = 0;
    while k < need
        invariant
            k <= need,
            bits@ == raw + zeros(k as nat),
        decreases need - k,
    {
        bits.push(false);
        k = k + 1;
        proof {
            assert(bits@ =~= raw + zeros(k as nat));
        }
    }
    let ghost all = bits@;
    let mut out = String::new();
    let mut at: usize = 0;
    let total: usize = bits.len();
    let ghost wanted = crockford_of(data@);
    proof {
        assert(all.skip(0) =~= all);
        assert(wanted =~= groups(all, 5).map_values(|v: nat| symbol(v)));
        assert(out@ + wanted =~= wanted);
    }
    while at < total && total - at >= 5
        invariant
            at <= total == bits@.len(),
            bits@ == all,
            out@ + groups(all.skip(at as int), 5).map_values(|v: nat| symbol(v)) == wanted,
        decreases total - at,
    {
        let v: u8 = read_bits(&bits, at, 5);
        let ghost rest = all.skip(at as int);
        let ghost before = out@;
        proof {
            assert(rest.take(5) =~= all.subrange(at as int, at + 5));
            assert(rest.skip(5) =~= all.skip(at + 5));
            lemma_small_groups(rest.take(5), 5);
        }
        out.push(symbol_char(v));
        at = at + 5;
        proof {
            assert(out@ + groups(all.skip(at as int), 5).map_values(|v: nat| symbol(v)) =~= before
                + groups(rest, 5).map_values(|v: nat| symbol(v)));
        }
    }
    proof {
        assert(groups(all.skip(at as int), 5).map_values(|v: nat| symbol(v)) =~= Seq::<
            char,
        >::empty());
        assert(out@ + Seq::<char>::empty() =~= out@);
    }
    out
}

/// The symbol for `v`.
pub fn symbol_char(v: u8) -> (r: char)
    requires
        v < 32,
    ensures
        r == symbol(v as nat),
{
    if v < 10 {
        (48 + v) as char
    } else if v < 18 {
        (55 + v) as char
    } else if v < 20 {
        (56 + v) as char
    } else if v < 22 {
        (57 + v) as char
    } else if v < 27 {
        (58 + v) as char
    } else {
        (59 + v) as char
    }
}

fn read_symbol(c: char) -> (r: Option<u8>)
    ensures
        match r {
            Some(v) => v < 32 && symbol_value(c) == Some(v as nat),
            None => symbol_value(c) is None,
        },
{
    let wide: u32 = char_upper(c) as u32;
    if wide >= 128 {
        return None;
    }
    let b: u8 = wide as u8;
    if 48 <= b && b <= 57 {
        Some(b - 48)
    } else if 65 <= b && b <= 72 {
        Some(b - 55)
    } else if 74 <= b && b <= 75 {
        Some(b - 56)
    } else if 77 <= b && b <= 78 {
        Some(b - 57)
    } else if 80 <= b && b <= 84 {
        Some(b - 58)
    } else if 86 <= b && b <= 90 {
        Some(b - 59)
    } else {
        None
    }
}

/// The bytes that the first `to` characters of `v` write; `None` where one of
/// them is no symbol.
pub fn decode_crockford(v: &Vec<char>, to: usize) -> (r: Option<Vec<u8>>)
    requires
        to <= v@.len(),
    ensures
        match r {
            Some(b) => all_symbols(v@.take(to as int)) && b@ == decoded(v@.take(to as int))
                && b@.len() == to * 5 / 8,
            None => !all_symbols(v@.take(to as int)),
        },
{
    let ghost s = v@.take(to as int);
    let mut bits: Vec<bool> = Vec::new();
    let mut i: usize = 0;
    proof {
        assert(values_of(s).take(0) =~= Seq::<nat>::empty());
    }
    while i < to
        invariant
            i <= to <= v@.len(),
            s == v@.take(to as int),
            forall|j: int| 0 <= j < i ==> symbol_value(#[trigger] s[j]) is Some,
            bits@ == spread(values_of(s).take(i as int), 5),
        decreases to - i,
    {
        proof {
            assert(s[i as int] == v@[i as int]);
            assert(values_of(s).take(i + 1).drop_last() =~= values_of(s).take(i as int));
        }
        match read_symbol(v[i]) {
            None => {
                return None;
            },
            Some(d) => {
                push_bits(&mut bits, d, 5);
            },
        }
        i = i + 1;
    }
    proof {
        assert(values_of(s).take(s.len() as int) =~= values_of(s));
    }
    let ghost all = bits@;
    let ghost wanted = decoded(s);
    let mut out: Vec<u8> = Vec::new();
    let mut at: usize = 0;
    let total: usize = bits.len();
    proof {
        assert(all.skip(0) =~= all);
        assert(out@ + wanted =~= wanted);
    }
    while at < total && total - at >= 8
        invariant
            at <= total == bits@.len(),
            bits@ == all,
            out@ + groups(all.skip(at as int), 8).map_values(|v: nat| v as u8) == wanted,
        decreases total - at,
    {
        let b: u8 = read_bits(&bits, at, 8);
        let ghost rest = all.skip(at as int);
        let ghost before = out@;
        proof {
            assert(rest.take(8) =~= all.subrange(at as int, at + 8));
            assert(rest.skip(8) =~= all.skip(at + 8));
        }
        out.push(b);
        at = at + 8;
        proof {
            assert(out@ + groups(all.skip(at as int), 8).map_values(|v: nat| v as u8) =~= before
                + groups(rest, 8).map_values(|v: nat| v as u8));
        }
    }
    proof {
        assert(groups(all.skip(at as int), 8).map_values(|v: nat| v as u8) =~= Seq::<u8>::empty());
        assert(out@ + Seq::<u8>::empty() =~= out@);
        lemma_decoded_len(s);
    }
    Some(out)
}

proof fn lemma_bits_round_trip(v: nat, w: nat)
    ensures
        bits_of(v, w).len() == w,
        v < pow2(w) ==> value_of(bits_of(v, w)) == v,
    decreases w,
{
    if w == 0 {
        lemma2_to64();
    } else {
        lemma_bits_round_trip(v / 2, (w - 1) as nat);
        lemma_pow2_unfold(w);
        assert(bits_of(v, w).drop_last() =~= bits_of(v / 2, (w - 1) as nat));
    }
}

proof fn lemma_value_round_trip(bits: Seq<bool>)
    ensures
        bits_of(value_of(bits), bits.len()) == bits,
    decreases bits.len(),
{
    if bits.len() > 0 {
        lemma_value_round_trip(bits.drop_last());
        assert(value_of(bits) / 2 == value_of(bits.drop_last()));
        assert(bits_of(value_of(bits), bits.len()) =~= bits);
    } else {
        assert(bits_of(value_of(bits), bits.len()) =~= bits);
    }
}

pub(crate) proof fn lemma_spread_len(values: Seq<nat>, w: nat)
    ensures
        spread(values, w).len() == values.len() * w,
    decreases values.len(),
{
    if values.len() > 0 {
        lemma_spread_len(values.drop_last(), w);
        lemma_bits_round_trip(values.last(), w);
        assert(values.len() * w == (values.len() - 1) * w + w) by (nonlinear_arith)
            requires
                values.len() > 0,
        ;
    }
}

proof fn lemma_spread_front(values: Seq<nat>, w: nat)
    requires
        values.len() > 0,
    ensures
        spread(values, w) == bits_of(values.first(), w) + spread(values.drop_first(), w),
    decreases values.len(),
{
    if values.len() == 1 {
        assert(values.drop_last() =~= Seq::<nat>::empty());
        assert(values.drop_first() =~= Seq::<nat>::empty());
        assert(spread(values, w) =~= bits_of(values.first(), w) + spread(values.drop_first(), w));
    } else {
        lemma_spread_front(values.drop_last(), w);
        assert(values.drop_last().drop_first() =~= values.drop_first().drop_last());
        assert(spread(values, w) =~= bits_of(values.first(), w) + spread(values.drop_first(), w));
    }
}

/// Spreading whole groups gives the bits back.
proof fn lemma_groups_spread(bits: Seq<bool>, w: nat)
    requires
        w > 0,
        bits.len() % w == 0,
    ensures
        spread(groups(bits, w), w) == bits,
        groups(bits, w).len() * w == bits.len(),
    decreases bits.len(),
{
    if bits.len() < w {
        vstd::arithmetic::div_mod::lemma_small_mod(bits.len(), w);
        assert(bits =~= Seq::<bool>::empty());
        assert(spread(groups(bits, w), w) =~= bits);
    } else {
        let rest = bits.skip(w as int);
        vstd::arithmetic::div_mod::lemma_mod_sub_multiples_vanish(bits.len() as int, w as int);
        assert((bits.len() - w) % (w as int) == 0);
        lemma_groups_spread(rest, w);
        let g = groups(bits, w);
        lemma_spread_front(g, w);
        assert(g.drop_first() =~= groups(rest, w));
        lemma_value_round_trip(bits.take(w as int));
        assert(bits.take(w as int) + rest =~= bits);
        assert(g.len() * w == groups(rest, w).len() * w + w) by (nonlinear_arith)
            requires
                g.len() == groups(rest, w).len() + 1,
        ;
    }
}

/// Grouping spread numbers gives them back; up to `w - 1` bits behind them
/// are dropped.
proof fn lemma_spread_groups(values: Seq<nat>, w: nat, tail: Seq<bool>)
    requires
        w > 0,
        tail.len() < w,
        forall|i: int| 0 <= i < values.len() ==> #[trigger] values[i] < pow2(w),
    ensures
        groups(spread(values, w) + tail, w) == values,
    decreases values.len(),
{
    if values.len() == 0 {
        assert(spread(values, w) + tail =~= tail);
        assert(groups(tail, w) =~= values);
    } else {
        let bits = spread(values, w) + tail;
        let first = bits_of(values.first(), w);
        let rest = spread(values.drop_first(), w) + tail;
        lemma_spread_front(values, w);
        lemma_bits_round_trip(values.first(), w);
        assert(bits =~= first + rest);
        assert(bits.take(w as int) =~= first);
        assert(bits.skip(w as int) =~= rest);
        assert forall|i: int| 0 <= i < values.drop_first().len() implies #[trigger] values.drop_first()[i]
            < pow2(w) by {
            assert(values[i + 1] < pow2(w));
        }
        lemma_spread_groups(values.drop_first(), w, tail);
        assert(values[0] < pow2(w));
        assert(groups(bits, w) =~= values);
    }
}

proof fn lemma_groups_small(bits: Seq<bool>)
    ensures
        forall|i: int| 0 <= i < groups(bits, 5).len() ==> #[trigger] groups(bits, 5)[i] < 32,
    decreases bits.len(),
{
    if bits.len() >= 5 {
        lemma_groups_small(bits.skip(5));
        lemma_small_groups(bits.take(5), 5);
        assert forall|i: int| 0 <= i < groups(bits, 5).len() implies #[trigger] groups(bits, 5)[i]
            < 32 by {
            if i > 0 {
                assert(groups(bits, 5)[i] == groups(bits.skip(5), 5)[i - 1]);
            }
        }
    }
}

/// A symbol reads back as its value, and is an ASCII digit or capital other
/// than `I`, `L`, `O` and `U`.
pub proof fn lemma_symbol_round_trip(v: nat)
    requires
        v < 32,
    ensures
        symbol_value(symbol(v)) == Some(v),
        '0' <= symbol(v) <= '9' || 'A' <= symbol(v) <= 'Z',
        symbol(v) != 'I' && symbol(v) != 'L' && symbol(v) != 'O' && symbol(v) != 'U',
{
}

/// How long the text of a byte string is, and that it is all symbols.
pub proof fn lemma_crockford_shape(data: Seq<u8>)
    ensures
        crockford_of(data).len() == (data.len() * 8 + 4) / 5,
        all_symbols(crockford_of(data)),
        forall|i: int|
            0 <= i < crockford_of(data).len() ==> symbols_of(data)[i] < 32 && #[trigger] crockford_of(
                data,
            )[i] == symbol(symbols_of(data)[i]),
{
    let bits = spread(numbers(data), 8);
    let all = bits + zeros(padding(bits.len()));
    lemma_spread_len(numbers(data), 8);
    lemma_groups_small(all);
    lemma_groups_len(all, 5);
    assert(numbers(data).len() == data.len());
    assert(all.len() % 5 == 0);
    assert forall|i: int| 0 <= i < crockford_of(data).len() implies symbol_value(
        #[trigger] crockford_of(data)[i],
    ) is Some by {
        assert(symbols_of(data)[i] < 32);
        lemma_symbol_round_trip(symbols_of(data)[i]);
    }
}

pub(crate) proof fn lemma_groups_len(bits: Seq<bool>, w: nat)
    requires
        w > 0,
    ensures
        groups(bits, w).len() * w <= bits.len() < groups(bits, w).len() * w + w,
    decreases bits.len(),
{
    if bits.len() >= w {
        let n = groups(bits.skip(w as int), w).len();
        lemma_groups_len(bits.skip(w as int), w);
        assert((n + 1) * w == n * w + w) by (nonlinear_arith);
    }
}

/// How many bytes a text of symbols writes.
pub proof fn lemma_decoded_len(s: Seq<char>)
    ensures
        decoded(s).len() == s.len() * 5 / 8,
{
    lemma_spread_len(values_of(s), 5);
    lemma_groups_len(spread(values_of(s), 5), 8);
}

/// What was encoded is what is decoded.
pub proof fn law_crockford_round_trip(data: Seq<u8>)
    ensures
        all_symbols(crockford_of(data)),
        decoded(crockford_of(data)) == data,
{
    let bits = spread(numbers(data), 8);
    let pad = zeros(padding(bits.len()));
    let all = bits + pad;
    lemma_crockford_shape(data);
    let text = crockford_of(data);
    assert forall|i: int| 0 <= i < text.len() implies #[trigger] values_of(text)[i] == symbols_of(
        data,
    )[i] by {
        assert(text[i] == symbol(symbols_of(data)[i]));
        lemma_symbol_round_trip(symbols_of(data)[i]);
    }
    assert(values_of(text) =~= symbols_of(data));
    lemma_groups_spread(all, 5);
    lemma2_to64();
    assert forall|i: int| 0 <= i < numbers(data).len() implies #[trigger] numbers(data)[i] < pow2(
        8,
    ) by {}
    lemma_spread_groups(numbers(data), 8, pad);
    assert(decoded(text) =~= data);
}

proof fn lemma_bit_at(v: nat, w: nat, j: int)
    requires
        0 <= j < w,
    ensures
        bits_of(v, w).len() == w,
        bits_of(v, w)[j] == ((v / pow2((w - 1 - j) as nat)) % 2 == 1),
    decreases w,
{
    lemma_bits_len(v, w);
    lemma2_to64();
    if j < w - 1 {
        let m = (w - 1) as nat;
        lemma_bits_len(v / 2, m);
        lemma_bit_at(v / 2, m, j);
        let e = (m - 1 - j) as nat;
        lemma_pow2_unfold((e + 1) as nat);
        vstd::arithmetic::power2::lemma_pow2_pos(e);
        vstd::arithmetic::div_mod::lemma_div_denominator(v as int, 2, pow2(e) as int);
        assert((w - 1 - j) as nat == e + 1);
        assert(v / pow2((e + 1) as nat) == v / 2 / pow2(e));
        assert(bits_of(v, w)[j] == bits_of(v / 2, m)[j]);
    } else {
        assert((w - 1 - j) as nat == 0);
        assert(pow2(0) == 1);
        assert(v / 1 == v);
        lemma_bits_len(v / 2, (w - 1) as nat);
    }
}

proof fn lemma_bits_len(v: nat, w: nat)
    ensures
        bits_of(v, w).len() == w,
    decreases w,
{
    if w > 0 {
        lemma_bits_len(v / 2, (w - 1) as nat);
    }
}

proof fn lemma_spread_at(values: Seq<nat>, w: nat, k: int)
    requires
        w > 0,
        0 <= k < values.len() * w,
    ensures
        spread(values, w).len() == values.len() * w,
        0 <= k / (w as int) < values.len(),
        spread(values, w)[k] == bits_of(values[k / (w as int)], w)[k % (w as int)],
    decreases values.len(),
{
    lemma_spread_len(values, w);
    let n = values.len() - 1;
    let front = values.drop_last();
    assert(values.len() * w == n * w + w) by (nonlinear_arith)
        requires
            values.len() == n + 1,
    ;
    lemma_spread_len(front, w);
    lemma_bits_len(values.last(), w);
    if k < n * w {
        lemma_spread_at(front, w, k);
        assert(front[k / (w as int)] == values[k / (w as int)]);
    } else {
        vstd::arithmetic::div_mod::lemma_fundamental_div_mod_converse(
            k,
            w as int,
            n,
            k - n * w,
        );
    }
}

proof fn lemma_group_at(bits: Seq<bool>, w: nat, g: int)
    requires
        w > 0,
        0 <= g < groups(bits, w).len(),
    ensures
        0 <= g * w,
        g * w + w <= bits.len(),
        groups(bits, w)[g] == value_of(bits.subrange(g * w, g * w + w)),
    decreases bits.len(),
{
    if bits.len() >= w {
        let rest = bits.skip(w as int);
        if g == 0 {
            assert(bits.subrange(0, w as int) =~= bits.take(w as int));
            assert(g * w == 0) by (nonlinear_arith)
                requires
                    g == 0,
            ;
        } else {
            lemma_group_at(rest, w, g - 1);
            assert(g * w == (g - 1) * w + w) by (nonlinear_arith);
            let a = (g - 1) * w;
            assert(rest.subrange(a, a + w) =~= bits.subrange(a + w, a + w + w));
        }
    }
}

/// The symbols of the alphabet, by value.
pub open spec fn alphabet() -> Seq<char> {
    "0123456789ABCDEFGHJKMNPQRSTVWXYZ"@
}

/// The symbol of a value is the one at its place in the alphabet, which has
/// the digits and the letters without I, L, O and U.
pub proof fn law_symbols_are_in_the_alphabet(v: u8, r: char)
    requires
        v < 32,
        call_ensures(symbol_char, (v,), r),
    ensures
        alphabet().len() == 32,
        r == alphabet()[v as int],
{
    lemma_alphabet(v as nat);
}

pub(crate) proof fn lemma_alphabet(v: nat)
    requires
        v < 32,
    ensures
        alphabet().len() == 32,
        symbol(v) == alphabet()[v as int],
{
    reveal_strlit("0123456789ABCDEFGHJKMNPQRSTVWXYZ");
}

/// The bits of the bytes are those of the symbols, five to each, in order,
/// most significant first; the last symbol is filled with zeros.
pub proof fn law_symbols_carry_the_bits(data: &[u8], r: String, k: int)
    requires
        call_ensures(encode_crockford, (data,), r),
        0 <= k < 5 * r@.len(),
    ensures
        8 * data@.len() <= 5 * r@.len() < 8 * data@.len() + 5,
        exists|v: int|
            0 <= v < 32 && r@[k / 5] == #[trigger] alphabet()[v] && (v / pow2(
                (4 - k % 5) as nat,
            ) as int) % 2 == (if k < 8 * data@.len() {
                (data@[k / 8] as int / pow2((7 - k % 8) as nat) as int) % 2
            } else {
                0
            }),
{
    let bits = spread(numbers(data@), 8);
    let all = bits + zeros(padding(bits.len()));
    lemma_spread_len(numbers(data@), 8);
    lemma_crockford_shape(data@);
    let g = k / 5;
    let j = k % 5;
    lemma_group_at(all, 5, g);
    let five = all.subrange(g * 5, g * 5 + 5);
    let v = symbols_of(data@)[g];
    assert(v == value_of(five));
    lemma_value_round_trip(five);
    lemma_bit_at(v, 5, j);
    assert(five[j] == all[k]);
    if k < 8 * data@.len() {
        lemma_spread_at(numbers(data@), 8, k);
        lemma_bit_at(data@[k / 8] as nat, 8, k % 8);
        assert(numbers(data@)[k / 8] == data@[k / 8] as nat);
    }
    assert(crockford_of(data@)[g] == symbol(v));
    lemma_alphabet(v);
    assert(r@[g] == alphabet()[v as int]);
}

/// A text is read exactly where every character, in upper case, is in the
/// alphabet; of its bits the whole bytes are taken.
pub proof fn law_only_symbols_are_read(v: Vec<char>, to: usize, r: Option<Vec<u8>>)
    requires
        to <= v@.len(),
        call_ensures(decode_crockford, (&v, to), r),
    ensures
        r is Some <==> forall|i: int|
            0 <= i < to ==> exists|k: int|
                0 <= k < 32 && #[trigger] alphabet()[k] == upper(#[trigger] v@[i]),
        r matches Some(b) ==> b@.len() == to * 5 / 8,
{
    let s = v@.take(to as int);
    assert forall|i: int| 0 <= i < to implies (symbol_value(#[trigger] v@[i]) is Some <==> exists|
        k: int,
    | 0 <= k < 32 && #[trigger] alphabet()[k] == upper(v@[i])) by {
        let c = v@[i];
        if let Some(x) = symbol_value(c) {
            lemma_alphabet(x);
            assert(alphabet()[x as int] == upper(c));
        }
        if exists|k: int| 0 <= k < 32 && #[trigger] alphabet()[k] == upper(c) {
            let k = choose|k: int| 0 <= k < 32 && #[trigger] alphabet()[k] == upper(c);
            lemma_alphabet(k as nat);
            lemma_symbol_round_trip(k as nat);
        }
    }
    if r is Some {
        assert forall|i: int| 0 <= i < to implies exists|k: int|
            0 <= k < 32 && #[trigger] alphabet()[k] == upper(#[trigger] v@[i]) by {
            assert(symbol_value(s[i]) is Some);
        }
    } else {
        let i = choose|i: int| 0 <= i < s.len() && symbol_value(#[trigger] s[i]) is None;
        assert(v@[i] == s[i]);
    }
}

} // verus!
