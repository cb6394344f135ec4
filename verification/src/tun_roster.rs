//! Who is in the mesh: roster messages, their wire form, and which of two
//! peers dials the other.

use vstd::prelude::*;
use crate::bytes::{be32, be32_at, push_all, push_be32, read_be32};
use crate::endpoint::{endpoint_id_from_bytes, is_endpoint_id, EndpointId};
use crate::i18n::{looked_up, lookup, said, say1, Catalog};
use crate::net::Ipv4Addr;
use crate::text::{decimal, decimal_of};

verus! {

/// The longest roster message, in bytes.
pub const MAX_ROSTER_LEN: u32 = 4_194_304;

/// Bytes of one entry on the wire: the address, then the id.
pub const ENTRY_LEN: usize = 36;

/// A member of the mesh.
#[derive(Clone, Copy, Debug)]
pub struct RosterEntry {
    pub vip: Ipv4Addr,
    pub id: EndpointId,
}

impl View for RosterEntry {
    type V = (Ipv4Addr, Seq<u8>);

    open spec fn view(&self) -> (Ipv4Addr, Seq<u8>) {
        (self.vip, self.id@)
    }
}

/// What the hub tells a spoke.
#[derive(Debug)]
pub enum RosterMsg {
    /// Everyone who is in the mesh.
    Snapshot(Vec<RosterEntry>),
    Joined(RosterEntry),
    Left(RosterEntry),
}

/// The members that a list names.
pub open spec fn members(v: Seq<RosterEntry>) -> Seq<(Ipv4Addr, Seq<u8>)> {
    v.map_values(|e: RosterEntry| e@)
}

impl View for RosterMsg {
    type V = (u8, Seq<(Ipv4Addr, Seq<u8>)>);

    open spec fn view(&self) -> (u8, Seq<(Ipv4Addr, Seq<u8>)>) {
        match *self {
            RosterMsg::Snapshot(v) => (1u8, members(v@)),
            RosterMsg::Joined(e) => (2u8, seq![e@]),
            RosterMsg::Left(e) => (3u8, seq![e@]),
        }
    }
}

/// An entry on the wire.
pub open spec fn entry_bytes(e: (Ipv4Addr, Seq<u8>)) -> Seq<u8> {
    e.0.octets() + e.1
}

/// Entries on the wire, one behind the other.
pub open spec fn entries_bytes(v: Seq<(Ipv4Addr, Seq<u8>)>) -> Seq<u8>
    decreases v.len(),
{
    if v.len() == 0 {
        Seq::empty()
    } else {
        entries_bytes(v.drop_last()) + entry_bytes(v.last())
    }
}

/// A message on the wire.
pub open spec fn message_bytes(m: (u8, Seq<(Ipv4Addr, Seq<u8>)>)) -> Seq<u8> {
    seq![m.0] + entries_bytes(m.1)
}

fn push_entry(out: &mut Vec<u8>, e: &RosterEntry)
    ensures
        final(out)@ == old(out)@ + entry_bytes(e@),
{
    let ghost before = out@;
    out.push(e.vip.a);
    out.push(e.vip.b);
    out.push(e.vip.c);
    out.push(e.vip.d);
    push_all(out, e.id.bytes.as_slice());
    proof {
        assert(out@ =~= before + entry_bytes(e@));
    }
}

/// The message that lists everyone.
pub fn encode_snapshot(entries: &Vec<RosterEntry>) -> (r: Vec<u8>)
    ensures
        r@ == message_bytes((1u8, members(entries@))),
{
    let mut out: Vec<u8> = Vec::new();
    out.push(1);
    let mut i: usize = 0;
    proof {
        assert(members(entries@).take(0) =~= Seq::empty());
        assert(out@ =~= seq![1u8] + entries_bytes(Seq::empty()));
    }
    while i < entries.len()
        invariant
            i <= entries@.len(),
            out@ == seq![1u8] + entries_bytes(members(entries@).take(i as int)),
        decreases entries@.len() - i,
    {
        let ghost before = out@;
        push_entry(&mut out, &entries[i]);
        proof {
            let next = members(entries@).take(i + 1);
            assert(next.drop_last() =~= members(entries@).take(i as int));
            assert(next.last() == entries@[i as int]@);
            assert(out@ =~= seq![1u8] + entries_bytes(next));
        }
        i = i + 1;
    }
    proof {
        assert(members(entries@).take(entries@.len() as int) =~= members(entries@));
    }
    out
}

fn encode_one(kind: u8, e: &RosterEntry) -> (r: Vec<u8>)
    ensures
        r@ == message_bytes((kind, seq![e@])),
{
    let mut out: Vec<u8> = Vec::new();
    out.push(kind);
    push_entry(&mut out, e);
    proof {
        reveal_with_fuel(entries_bytes, 2);
        assert(seq![e@].drop_last() =~= Seq::empty());
        assert(out@ =~= message_bytes((kind, seq![e@])));
    }
    out
}

/// The message that someone joined.
pub fn encode_joined(e: &RosterEntry) -> (r: Vec<u8>)
    ensures
        r@ == message_bytes((2u8, seq![e@])),
{
    encode_one(2, e)
}

/// The message that someone left.
pub fn encode_left(e: &RosterEntry) -> (r: Vec<u8>)
    ensures
        r@ == message_bytes((3u8, seq![e@])),
{
    encode_one(3, e)
}

/// The message behind its length, as it goes onto the control stream. `None`
/// where it is too long.
pub fn write_msg(body: &Vec<u8>) -> (r: Option<Vec<u8>>)
    ensures
        match r {
            Some(f) => body@.len() <= MAX_ROSTER_LEN && f@ == be32(body@.len() as u32) + body@,
            None => body@.len() > MAX_ROSTER_LEN,
        },
{
    if body.len() > MAX_ROSTER_LEN as usize {
        return None;
    }
    let mut out: Vec<u8> = Vec::new();
    push_be32(&mut out, body.len() as u32);
    push_all(&mut out, body.as_slice());
    proof {
        assert(out@ =~= be32(body@.len() as u32) + body@);
    }
    Some(out)
}

/// Why a message cannot be read.
#[derive(Clone, Copy, Debug, PartialEq, Eq, Structural)]
pub enum RosterError {
    TooLong(u32),
    Empty,
    UnknownKind(u8),
    /// The entries do not fill the message.
    BadLength,
    /// This entry's id is no public key.
    BadId(usize),
}

impl RosterError {
    /// What is reported.
    pub open spec fn says(self, catalog: Map<Seq<char>, Seq<char>>) -> Seq<char> {
        match self {
            RosterError::TooLong(n) => said(
                catalog,
                "roster message too long: {0} bytes"@,
                seq![decimal_of(n as nat)],
            ),
            RosterError::Empty => looked_up(catalog, "empty roster message"@),
            RosterError::UnknownKind(k) => said(
                catalog,
                "unknown roster message {0}"@,
                seq![decimal_of(k as nat)],
            ),
            RosterError::BadLength => looked_up(catalog, "roster message of an odd length"@),
            RosterError::BadId(i) => said(
                catalog,
                "roster entry {0} has an invalid EndpointId"@,
                seq![decimal_of(i as nat)],
            ),
        }
    }

    /// What is reported.
    pub fn message(&self, catalog: &Catalog) -> (r: String)
        ensures
            r@ == self.says(catalog@),
    {
        match self {
            RosterError::TooLong(n) => say1(
                catalog,
                "roster message too long: {0} bytes",
                decimal(*n as u64),
            ),
            RosterError::Empty => lookup(catalog, "empty roster message"),
            RosterError::UnknownKind(k) => say1(
                catalog,
                "unknown roster message {0}",
                decimal(*k as u64),
            ),
            RosterError::BadLength => lookup(catalog, "roster message of an odd length"),
            RosterError::BadId(i) => say1(
                catalog,
                "roster entry {0} has an invalid EndpointId",
                decimal(*i as u64),
            ),
        }
    }
}

/// The length that the four bytes before a message announce.
pub fn read_header(header: &[u8; 4]) -> (r: Result<usize, RosterError>)
    ensures
        ({
            let n = be32_at(header@, 0);
            if n > MAX_ROSTER_LEN {
                r == Err::<usize, RosterError>(RosterError::TooLong(n as u32))
            } else {
                r is Ok && r->Ok_0 == n
            }
        }),
{
    let n: u32 = read_be32(header.as_slice(), 0);
    if n > MAX_ROSTER_LEN {
        Err(RosterError::TooLong(n))
    } else {
        Ok(n as usize)
    }
}

/// The id of the entry at `i` in a message.
pub open spec fn id_at(body: Seq<u8>, i: int) -> Seq<u8> {
    body.subrange(1 + ENTRY_LEN * i + 4, 1 + ENTRY_LEN * i + ENTRY_LEN)
}

/// Whether the length of a message fits its kind.
pub open spec fn length_fits(body: Seq<u8>) -> bool {
    (body.len() - 1) % ENTRY_LEN as int == 0 && (body[0] == 1 || body.len() == 1 + ENTRY_LEN)
}

/// How many entries a message holds.
pub open spec fn entry_count(body: Seq<u8>) -> int {
    (body.len() - 1) / ENTRY_LEN as int
}

fn read_entry(body: &[u8], off: usize) -> (r: Option<RosterEntry>)
    requires
        off + ENTRY_LEN <= body@.len(),
    ensures
        match r {
            Some(e) => entry_bytes(e@) == body@.subrange(off as int, off + ENTRY_LEN)
                && is_endpoint_id(e.id@) && e.id@ == body@.subrange(off + 4, off + ENTRY_LEN),
            None => !is_endpoint_id(body@.subrange(off + 4, off + ENTRY_LEN)),
        },
{
    let vip = Ipv4Addr { a: body[off], b: body[off + 1], c: body[off + 2], d: body[off + 3] };
    let len: usize = body.len();
    let mut bytes: [u8; 32] = [0; 32];
    let mut k: usize = 0;
    while k < 32
        invariant
            k <= 32,
            off + ENTRY_LEN <= len == body@.len(),
            forall|j: int| 0 <= j < k ==> bytes@[j] == body@[off + 4 + j],
        decreases 32 - k,
    {
        bytes[k] = body[off + 4 + k];
        k = k + 1;
    }
    proof {
        assert(bytes@ =~= body@.subrange(off + 4, off + ENTRY_LEN));
    }
    match endpoint_id_from_bytes(bytes) {
        Ok(id) => {
            let e = RosterEntry { vip, id };
            proof {
                assert(entry_bytes(e@) =~= body@.subrange(off as int, off + ENTRY_LEN));
            }
            Some(e)
        },
        Err(_) => None,
    }
}

/// Reads a message. It is refused where it is empty, of no known kind, not
/// filled by its entries, or names an id that is no public key; the first
/// reason counts.
pub fn read_msg(body: &[u8]) -> (r: Result<RosterMsg, RosterError>)
    ensures
        match r {
            Ok(m) => message_bytes(m@) == body@ && forall|i: int|
                0 <= i < m@.1.len() ==> is_endpoint_id((#[trigger] m@.1[i]).1),
            Err(RosterError::TooLong(_)) => false,
            Err(RosterError::Empty) => body@.len() == 0,
            Err(RosterError::UnknownKind(k)) => body@.len() > 0 && k == body@[0] && !(1 <= k <= 3),
            Err(RosterError::BadLength) => body@.len() > 0 && 1 <= body@[0] <= 3 && !length_fits(
                body@,
            ),
            Err(RosterError::BadId(i)) => body@.len() > 0 && 1 <= body@[0] <= 3 && length_fits(
                body@,
            ) && i < entry_count(body@) && !is_endpoint_id(id_at(body@, i as int)) && forall|j: int|
                0 <= j < i ==> is_endpoint_id(#[trigger] id_at(body@, j)),
        },
{
    let len: usize = body.len();
    if len == 0 {
        return Err(RosterError::Empty);
    }
    let kind: u8 = body[0];
    if !(1 <= kind && kind <= 3) {
        return Err(RosterError::UnknownKind(kind));
    }
    if (len - 1) % ENTRY_LEN != 0 || (kind != 1 && len != 1 + ENTRY_LEN) {
        return Err(RosterError::BadLength);
    }
    let n: usize = (len - 1) / ENTRY_LEN;
    let mut out: Vec<RosterEntry> = Vec::new();
    let mut i: usize = 0;
    proof {
        assert(members(out@) =~= Seq::empty());
        assert(body@.subrange(1, 1) =~= Seq::empty());
    }
    while i < n
        invariant
            i <= n,
            n * ENTRY_LEN + 1 == len == body@.len(),
            n == entry_count(body@),
            1 <= body@[0] <= 3,
            length_fits(body@),
            out@.len() == i,
            entries_bytes(members(out@)) == body@.subrange(1, 1 + ENTRY_LEN * i),
            forall|j: int| 0 <= j < i ==> is_endpoint_id((#[trigger] members(out@)[j]).1),
            forall|j: int| 0 <= j < i ==> is_endpoint_id(#[trigger] id_at(body@, j)),
        decreases n - i,
    {
        let off: usize = 1 + ENTRY_LEN * i;
        match read_entry(body, off) {
            Some(e) => {
                let ghost before = members(out@);
                out.push(e);
                proof {
                    assert(members(out@) =~= before.push(e@));
                    assert(members(out@).drop_last() =~= before);
                    assert(id_at(body@, i as int) =~= e.id@);
                    assert(body@.subrange(1, 1 + ENTRY_LEN * i) + body@.subrange(
                        off as int,
                        off + ENTRY_LEN,
                    ) =~= body@.subrange(1, 1 + ENTRY_LEN * (i + 1)));
                }
            },
            None => {
                return Err(RosterError::BadId(i));
            },
        }
        i = i + 1;
    }
    proof {
        assert(seq![body@[0]] + body@.subrange(1, len as int) =~= body@);
    }
    if kind == 1 {
        return Ok(RosterMsg::Snapshot(out));
    }
    let e = out[0];
    proof {
        assert(members(out@) =~= seq![e@]);
        assert(members(out@)[0] == e@);
    }
    if kind == 2 {
        Ok(RosterMsg::Joined(e))
    } else {
        Ok(RosterMsg::Left(e))
    }
}

proof fn lemma_entries_len(v: Seq<(Ipv4Addr, Seq<u8>)>)
    requires
        forall|i: int| 0 <= i < v.len() ==> (#[trigger] v[i]).1.len() == 32,
    ensures
        entries_bytes(v).len() == ENTRY_LEN * v.len(),
    decreases v.len(),
{
    if v.len() > 0 {
        lemma_entries_len(v.drop_last());
    }
}

proof fn lemma_entry_at(v: Seq<(Ipv4Addr, Seq<u8>)>, i: int)
    requires
        forall|j: int| 0 <= j < v.len() ==> (#[trigger] v[j]).1.len() == 32,
        0 <= i < v.len(),
    ensures
        entries_bytes(v).len() == ENTRY_LEN * v.len(),
        entries_bytes(v).subrange(ENTRY_LEN * i, ENTRY_LEN * i + ENTRY_LEN) == entry_bytes(v[i]),
    decreases v.len(),
{
    lemma_entries_len(v);
    let front = v.drop_last();
    lemma_entries_len(front);
    if i < front.len() {
        lemma_entry_at(front, i);
        assert(entries_bytes(v).subrange(ENTRY_LEN * i, ENTRY_LEN * i + ENTRY_LEN)
            =~= entries_bytes(front).subrange(ENTRY_LEN * i, ENTRY_LEN * i + ENTRY_LEN));
    } else {
        assert(entries_bytes(v).subrange(ENTRY_LEN * i, ENTRY_LEN * i + ENTRY_LEN) =~= entry_bytes(
            v[i],
        ));
    }
}

/// What a written message may be read as: nothing but itself.
pub proof fn law_messages_are_unambiguous(
    a: (u8, Seq<(Ipv4Addr, Seq<u8>)>),
    b: (u8, Seq<(Ipv4Addr, Seq<u8>)>),
)
    requires
        message_bytes(a) == message_bytes(b),
        forall|i: int| 0 <= i < a.1.len() ==> (#[trigger] a.1[i]).1.len() == 32,
        forall|i: int| 0 <= i < b.1.len() ==> (#[trigger] b.1[i]).1.len() == 32,
    ensures
        a == b,
{
    assert(message_bytes(a)[0] == a.0);
    assert(message_bytes(b)[0] == b.0);
    assert(entries_bytes(a.1) =~= message_bytes(a).skip(1));
    assert(entries_bytes(b.1) =~= message_bytes(b).skip(1));
    lemma_entries_len(a.1);
    lemma_entries_len(b.1);
    assert(a.1.len() == b.1.len());
    assert forall|i: int| 0 <= i < a.1.len() implies a.1[i] == b.1[i] by {
        lemma_entry_at(a.1, i);
        lemma_entry_at(b.1, i);
        let x = entry_bytes(a.1[i]);
        let y = entry_bytes(b.1[i]);
        assert(x == y);
        assert(a.1[i].1 =~= x.skip(4));
        assert(b.1[i].1 =~= y.skip(4));
        assert(x[0] == y[0] && x[1] == y[1] && x[2] == y[2] && x[3] == y[3]);
        assert(x[0] == a.1[i].0.a && x[1] == a.1[i].0.b && x[2] == a.1[i].0.c && x[3]
            == a.1[i].0.d);
        assert(y[0] == b.1[i].0.a && y[1] == b.1[i].0.b && y[2] == b.1[i].0.c && y[3]
            == b.1[i].0.d);
    }
    assert(a.1 =~= b.1);
}

proof fn lemma_id_at(m: (u8, Seq<(Ipv4Addr, Seq<u8>)>), i: int)
    requires
        forall|j: int| 0 <= j < m.1.len() ==> (#[trigger] m.1[j]).1.len() == 32,
        0 <= i < m.1.len(),
    ensures
        id_at(message_bytes(m), i) == m.1[i].1,
{
    let body = message_bytes(m);
    let tail = entries_bytes(m.1);
    let e = entry_bytes(m.1[i]);
    let at = ENTRY_LEN * i;
    lemma_entry_at(m.1, i);
    assert(m.1[i].1.len() == 32);
    assert(e.len() == ENTRY_LEN);
    assert(body.len() == 1 + ENTRY_LEN * m.1.len());
    let id = id_at(body, i);
    assert(id.len() == 32);
    assert forall|k: int| 0 <= k < 32 implies id[k] == m.1[i].1[k] by {
        assert(id[k] == body[1 + at + 4 + k]);
        assert(body[1 + at + 4 + k] == tail[at + 4 + k]);
        assert(tail.subrange(at, at + ENTRY_LEN)[4 + k] == tail[at + 4 + k]);
        assert(e[4 + k] == m.1[i].1[k]);
    }
    assert(id =~= m.1[i].1);
}

proof fn lemma_ids_have_their_length(m: RosterMsg)
    ensures
        forall|i: int| 0 <= i < m@.1.len() ==> (#[trigger] m@.1[i]).1.len() == 32,
{
    assert forall|i: int| 0 <= i < m@.1.len() implies (#[trigger] m@.1[i]).1.len() == 32 by {
        match m {
            RosterMsg::Snapshot(s) => {
                assert(m@.1[i] == s@[i]@);
            },
            RosterMsg::Joined(e) => {},
            RosterMsg::Left(e) => {},
        }
    }
}

/// A written message whose ids are public keys is refused for none of the
/// reasons for which messages are.
pub proof fn law_written_messages_are_read(m: RosterMsg)
    ensures
        ({
            let body = message_bytes(m@);
            &&& body.len() > 0
            &&& 1 <= body[0] <= 3
            &&& length_fits(body)
            &&& entry_count(body) == m@.1.len()
            &&& forall|i: int|
                0 <= i < m@.1.len() ==> #[trigger] id_at(body, i) == m@.1[i].1
        }),
{
    let body = message_bytes(m@);
    lemma_ids_have_their_length(m);
    lemma_entries_len(m@.1);
    assert(body.len() == 1 + ENTRY_LEN * m@.1.len());
    assert(body[0] == m@.0);
    assert(m !is Snapshot ==> m@.1.len() == 1);
    assert forall|i: int| 0 <= i < m@.1.len() implies #[trigger] id_at(body, i) == m@.1[i].1 by {
        lemma_id_at(m@, i);
    }
}

/// Whether the byte string `a` comes after `b` in lexicographic order.
pub open spec fn bytes_after(a: Seq<u8>, b: Seq<u8>) -> bool
    decreases a.len(),
{
    if a.len() == 0 {
        false
    } else if b.len() == 0 {
        true
    } else if a[0] != b[0] {
        a[0] > b[0]
    } else {
        bytes_after(a.drop_first(), b.drop_first())
    }
}

/// Whether this node dials the peer: of two, the one with the higher id does.
pub fn should_dial(own: &EndpointId, peer: &EndpointId) -> (r: bool)
    ensures
        r == bytes_after(own@, peer@),
{
    let mut i: usize = 0;
    proof {
        assert(own@.skip(0) =~= own@);
        assert(peer@.skip(0) =~= peer@);
    }
    while i < 32
        invariant
            i <= 32,
            bytes_after(own@, peer@) == bytes_after(own@.skip(i as int), peer@.skip(i as int)),
        decreases 32 - i,
    {
        proof {
            assert(own@.skip(i as int).drop_first() =~= own@.skip(i + 1));
            assert(peer@.skip(i as int).drop_first() =~= peer@.skip(i + 1));
            assert(own@.skip(i as int)[0] == own@[i as int]);
            assert(peer@.skip(i as int)[0] == peer@[i as int]);
        }
        if own.bytes[i] != peer.bytes[i] {
            return own.bytes[i] > peer.bytes[i];
        }
        i = i + 1;
    }
    false
}

/// Of two different peers exactly one dials the other.
pub proof fn law_exactly_one_dials(a: Seq<u8>, b: Seq<u8>)
    requires
        a.len() == b.len(),
        a != b,
    ensures
        bytes_after(a, b) != bytes_after(b, a),
    decreases a.len(),
{
    if a.len() == 0 {
        assert(a =~= b);
    } else if a[0] == b[0] {
        if a.drop_first() == b.drop_first() {
            assert(a =~= seq![a[0]] + a.drop_first());
            assert(b =~= seq![b[0]] + b.drop_first());
        }
        law_exactly_one_dials(a.drop_first(), b.drop_first());
    }
}

proof fn lemma_first_difference(a: Seq<u8>, b: Seq<u8>, k: int)
    requires
        0 <= k < a.len(),
        a.len() == b.len(),
        a.take(k) == b.take(k),
        a[k] != b[k],
    ensures
        bytes_after(a, b) == (a[k] > b[k]),
    decreases k,
{
    if k > 0 {
        assert(a.take(k)[0] == a[0] && b.take(k)[0] == b[0]);
        assert(a.drop_first()[k - 1] == a[k] && b.drop_first()[k - 1] == b[k]);
        assert(a.drop_first().take(k - 1) =~= a.take(k).drop_first());
        assert(b.drop_first().take(k - 1) =~= b.take(k).drop_first());
        lemma_first_difference(a.drop_first(), b.drop_first(), k - 1);
    }
}

/// Of two ids the one whose byte is greater at the first place where they
/// differ dials; nobody dials itself.
pub proof fn law_higher_id_dials(own: EndpointId, peer: EndpointId, k: int, r: bool)
    requires
        call_ensures(should_dial, (&own, &peer), r),
    ensures
        0 <= k < 32 && own@.take(k) == peer@.take(k) && own@[k] != peer@[k] ==> r == (own@[k]
            > peer@[k]),
        own@ == peer@ ==> !r,
{
    if 0 <= k < 32 && own@.take(k) == peer@.take(k) && own@[k] != peer@[k] {
        lemma_first_difference(own@, peer@, k);
    }
    if own@ == peer@ {
        lemma_not_after_itself(own@);
    }
}

proof fn lemma_not_after_itself(a: Seq<u8>)
    ensures
        !bytes_after(a, a),
    decreases a.len(),
{
    if a.len() > 0 {
        lemma_not_after_itself(a.drop_first());
    }
}

} // verus!
