//! The two sides of a mesh: the hub's table of spokes and how it forwards
//! packets, and a spoke's table of paths.

use vstd::prelude::*;
use crate::endpoint::EndpointId;
use crate::exit::{says, Error};
use crate::i18n::{looked_up, lookup, said, say1, Catalog};
use crate::net::Ipv4Addr;
use crate::packet::{dst_of, ipv4_dst, ipv4_src, src_of};
use crate::runtime::{holds_id, id_views, CloseReason};
use crate::tun_roster::{
    bytes_after, encode_joined, encode_left, encode_snapshot, members, message_bytes, should_dial,
    RosterEntry, RosterMsg,
};

verus! {

/// Whether an address is in the mesh's range, 172.24.0.0/16.
pub open spec fn in_mesh(ip: Ipv4Addr) -> bool {
    ip.a == 172 && ip.b == 24
}

/// Whether an address is in the mesh's range, 172.24.0.0/16.
pub fn vip_in_mesh(ip: Ipv4Addr) -> (r: bool)
    ensures
        r == in_mesh(ip),
{
    ip.a == 172 && ip.b == 24
}

/// Whether an address can belong to one peer: it is not unspecified,
/// broadcast or multicast.
pub open spec fn is_host(ip: Ipv4Addr) -> bool {
    &&& !(ip.a == 0 && ip.b == 0 && ip.c == 0 && ip.d == 0)
    &&& !(ip.a == 255 && ip.b == 255 && ip.c == 255 && ip.d == 255)
    &&& !(224 <= ip.a <= 239)
}

/// What is said of an address that a peer cannot have.
pub open spec fn unusable(catalog: Map<Seq<char>, Seq<char>>, ip: Ipv4Addr) -> Seq<char> {
    said(catalog, "peer announced an unusable virtual IP {0}"@, seq![ip.shown()])
}

/// Checks the address that a peer announced.
pub fn check_peer_vip(catalog: &Catalog, vip: Ipv4Addr) -> (r: Result<(), Error>)
    ensures
        match r {
            Ok(_) => is_host(vip),
            Err(e) => !is_host(vip) && says(e, unusable(catalog@, vip), None),
        },
{
    if (vip.a == 0 && vip.b == 0 && vip.c == 0 && vip.d == 0) || (vip.a == 255 && vip.b == 255
        && vip.c == 255 && vip.d == 255) || (224 <= vip.a && vip.a <= 239) {
        return Err(
            Error::msg(
                say1(catalog, "peer announced an unusable virtual IP {0}", vip.to_text()),
            ),
        );
    }
    Ok(())
}

/// Whether the allow list lets a peer in; without a list everyone may.
pub open spec fn is_allowed(allow: Option<Vec<EndpointId>>, peer: Seq<u8>) -> bool {
    match allow {
        Some(ids) => id_views(ids@).contains(peer),
        None => true,
    }
}

/// Checks a peer against the allow list.
pub fn check_allow(catalog: &Catalog, allow: &Option<Vec<EndpointId>>, peer: &EndpointId) -> (r:
    Result<(), Error>)
    ensures
        match r {
            Ok(_) => is_allowed(*allow, peer@),
            Err(e) => !is_allowed(*allow, peer@) && says(
                e,
                looked_up(catalog@, "rejecting connection: peer is not in the --allow list"@),
                None,
            ),
        },
{
    match allow {
        Some(ids) => {
            if holds_id(ids, peer) {
                Ok(())
            } else {
                Err(
                    Error::msg(
                        lookup(catalog, "rejecting connection: peer is not in the --allow list"),
                    ),
                )
            }
        },
        None => Ok(()),
    }
}

/// The members without the one at an address.
pub open spec fn without_vip(s: Seq<(Ipv4Addr, Seq<u8>)>, vip: Ipv4Addr) -> Seq<
    (Ipv4Addr, Seq<u8>),
>
    decreases s.len(),
{
    if s.len() == 0 {
        Seq::empty()
    } else if s.last().0 == vip {
        without_vip(s.drop_last(), vip)
    } else {
        without_vip(s.drop_last(), vip).push(s.last())
    }
}

/// The members without the one with an id.
pub open spec fn without_id(s: Seq<(Ipv4Addr, Seq<u8>)>, id: Seq<u8>) -> Seq<
    (Ipv4Addr, Seq<u8>),
>
    decreases s.len(),
{
    if s.len() == 0 {
        Seq::empty()
    } else if s.last().1 == id {
        without_id(s.drop_last(), id)
    } else {
        without_id(s.drop_last(), id).push(s.last())
    }
}

/// Who is at which address.
pub open spec fn by_vip(s: Seq<(Ipv4Addr, Seq<u8>)>) -> Map<Ipv4Addr, Seq<u8>>
    decreases s.len(),
{
    if s.len() == 0 {
        Map::empty()
    } else {
        by_vip(s.drop_last()).insert(s.last().0, s.last().1)
    }
}

/// Where each peer is.
pub open spec fn by_id(s: Seq<(Ipv4Addr, Seq<u8>)>) -> Map<Seq<u8>, Ipv4Addr>
    decreases s.len(),
{
    if s.len() == 0 {
        Map::empty()
    } else {
        by_id(s.drop_last()).insert(s.last().1, s.last().0)
    }
}

proof fn lemma_without_vip(s: Seq<(Ipv4Addr, Seq<u8>)>, vip: Ipv4Addr)
    ensures
        by_vip(without_vip(s, vip)) == by_vip(s).remove(vip),
    decreases s.len(),
{
    if s.len() > 0 {
        lemma_without_vip(s.drop_last(), vip);
        let rest = without_vip(s.drop_last(), vip);
        if s.last().0 == vip {
            assert(by_vip(s).remove(vip) =~= by_vip(s.drop_last()).remove(vip));
        } else {
            assert(rest.push(s.last()).drop_last() =~= rest);
            assert(by_vip(s).remove(vip) =~= by_vip(s.drop_last()).remove(vip).insert(
                s.last().0,
                s.last().1,
            ));
        }
    } else {
        assert(by_vip(s).remove(vip) =~= by_vip(s));
    }
}

proof fn lemma_without_id(s: Seq<(Ipv4Addr, Seq<u8>)>, id: Seq<u8>)
    ensures
        by_id(without_id(s, id)) == by_id(s).remove(id),
    decreases s.len(),
{
    if s.len() > 0 {
        lemma_without_id(s.drop_last(), id);
        let rest = without_id(s.drop_last(), id);
        if s.last().1 == id {
            assert(by_id(s).remove(id) =~= by_id(s.drop_last()).remove(id));
        } else {
            assert(rest.push(s.last()).drop_last() =~= rest);
            assert(by_id(s).remove(id) =~= by_id(s.drop_last()).remove(id).insert(
                s.last().1,
                s.last().0,
            ));
        }
    } else {
        assert(by_id(s).remove(id) =~= by_id(s));
    }
}

proof fn lemma_no_vip(s: Seq<(Ipv4Addr, Seq<u8>)>, vip: Ipv4Addr)
    ensures
        by_vip(s).contains_key(vip) <==> exists|i: int| 0 <= i < s.len() && (#[trigger] s[i]).0
            == vip,
    decreases s.len(),
{
    if s.len() > 0 {
        let front = s.drop_last();
        lemma_no_vip(front, vip);
        if by_vip(s).contains_key(vip) {
            if s.last().0 == vip {
                assert(s[s.len() - 1].0 == vip);
            } else {
                let i = choose|i: int| 0 <= i < front.len() && (#[trigger] front[i]).0 == vip;
                assert(s[i].0 == vip);
            }
        }
        if exists|i: int| 0 <= i < s.len() && (#[trigger] s[i]).0 == vip {
            let i = choose|i: int| 0 <= i < s.len() && (#[trigger] s[i]).0 == vip;
            if i < front.len() {
                assert(front[i].0 == vip);
            }
        }
    }
}

proof fn lemma_members_push(v: Seq<RosterEntry>, e: RosterEntry)
    ensures
        members(v.push(e)) == members(v).push(e@),
{
    assert(members(v.push(e)) =~= members(v).push(e@));
}

fn drop_vip(v: &Vec<RosterEntry>, vip: Ipv4Addr) -> (r: Vec<RosterEntry>)
    ensures
        members(r@) == without_vip(members(v@), vip),
{
    let mut out: Vec<RosterEntry> = Vec::new();
    let mut i: usize = 0;
    proof {
        assert(members(out@) =~= without_vip(members(v@).take(0), vip));
    }
    while i < v.len()
        invariant
            i <= v@.len(),
            members(out@) == without_vip(members(v@).take(i as int), vip),
        decreases v@.len() - i,
    {
        let e = v[i];
        proof {
            let next = members(v@).take(i + 1);
            assert(next.drop_last() =~= members(v@).take(i as int));
            assert(next.last() == e@);
            lemma_members_push(out@, e);
        }
        if e.vip != vip {
            out.push(e);
        }
        i = i + 1;
    }
    proof {
        assert(members(v@).take(v@.len() as int) =~= members(v@));
    }
    out
}

fn drop_id(v: &Vec<RosterEntry>, id: &EndpointId) -> (r: Vec<RosterEntry>)
    ensures
        members(r@) == without_id(members(v@), id@),
{
    let mut out: Vec<RosterEntry> = Vec::new();
    let mut i: usize = 0;
    proof {
        assert(members(out@) =~= without_id(members(v@).take(0), id@));
    }
    while i < v.len()
        invariant
            i <= v@.len(),
            members(out@) == without_id(members(v@).take(i as int), id@),
        decreases v@.len() - i,
    {
        let e = v[i];
        proof {
            let next = members(v@).take(i + 1);
            assert(next.drop_last() =~= members(v@).take(i as int));
            assert(next.last() == e@);
            lemma_members_push(out@, e);
        }
        if !e.id.same(id) {
            out.push(e);
        }
        i = i + 1;
    }
    proof {
        assert(members(v@).take(v@.len() as int) =~= members(v@));
    }
    out
}

fn holds_vip(v: &Vec<RosterEntry>, vip: Ipv4Addr) -> (r: bool)
    ensures
        r == by_vip(members(v@)).contains_key(vip),
{
    proof {
        lemma_no_vip(members(v@), vip);
    }
    let mut i: usize = 0;
    while i < v.len()
        invariant
            i <= v@.len(),
            forall|j: int| 0 <= j < i ==> (#[trigger] v@[j]).vip != vip,
            by_vip(members(v@)).contains_key(vip) <==> exists|j: int|
                0 <= j < members(v@).len() && (#[trigger] members(v@)[j]).0 == vip,
        decreases v@.len() - i,
    {
        if v[i].vip == vip {
            proof {
                assert(members(v@)[i as int].0 == vip);
            }
            return true;
        }
        i = i + 1;
    }
    proof {
        assert forall|j: int| 0 <= j < members(v@).len() implies (#[trigger] members(v@)[j]).0
            != vip by {
            assert(v@[j].vip != vip);
        }
    }
    false
}

fn copy_entries(v: &Vec<RosterEntry>) -> (r: Vec<RosterEntry>)
    ensures
        members(r@) == members(v@),
{
    let mut out: Vec<RosterEntry> = Vec::new();
    let mut i: usize = 0;
    while i < v.len()
        invariant
            i <= v@.len(),
            out@.len() == i,
            forall|j: int| 0 <= j < i ==> (#[trigger] out@[j])@ == v@[j]@,
        decreases v@.len() - i,
    {
        out.push(v[i]);
        i = i + 1;
    }
    proof {
        assert(members(out@) =~= members(v@));
    }
    out
}

fn copy_ids(v: &Vec<EndpointId>) -> (r: Vec<EndpointId>)
    ensures
        id_views(r@) == id_views(v@),
{
    let mut out: Vec<EndpointId> = Vec::new();
    let mut i: usize = 0;
    while i < v.len()
        invariant
            i <= v@.len(),
            out@.len() == i,
            forall|j: int| 0 <= j < i ==> (#[trigger] out@[j])@ == v@[j]@,
        decreases v@.len() - i,
    {
        out.push(v[i]);
        i = i + 1;
    }
    proof {
        assert(id_views(out@) =~= id_views(v@));
    }
    out
}

/// Where a packet goes.
#[derive(Clone, Copy, Debug, PartialEq, Eq, Structural)]
pub enum Route {
    /// Nowhere.
    Drop,
    /// Into the local interface.
    Local,
    /// To the spoke at this address.
    Spoke(Ipv4Addr),
}

/// The spokes of a hub. No two are at one address.
#[derive(Debug)]
pub struct HubTable {
    peers: Vec<RosterEntry>,
    fans: Vec<EndpointId>,
}

/// The ids without one of them.
pub open spec fn other_ids(s: Seq<Seq<u8>>, id: Seq<u8>) -> Seq<Seq<u8>>
    decreases s.len(),
{
    if s.len() == 0 {
        Seq::empty()
    } else if s.last() == id {
        other_ids(s.drop_last(), id)
    } else {
        other_ids(s.drop_last(), id).push(s.last())
    }
}

/// What a hub sends when a spoke has joined.
#[derive(Debug)]
pub struct Welcome {
    /// To the new spoke.
    pub snapshot: Vec<u8>,
    /// To everyone in `to`.
    pub joined: Vec<u8>,
    pub to: Vec<EndpointId>,
}

/// What a hub sends when a spoke has left.
#[derive(Debug)]
pub struct Farewell {
    pub left: Vec<u8>,
    pub to: Vec<EndpointId>,
}

impl HubTable {
    /// The spokes, in the order in which they joined.
    pub closed spec fn entries(&self) -> Seq<(Ipv4Addr, Seq<u8>)> {
        members(self.peers@)
    }

    /// Those who are told of changes.
    pub closed spec fn listeners(&self) -> Seq<Seq<u8>> {
        id_views(self.fans@)
    }

    /// Who is at which address.
    pub open spec fn at(&self) -> Map<Ipv4Addr, Seq<u8>> {
        by_vip(self.entries())
    }

    /// No two spokes are at one address.
    pub open spec fn wf(&self) -> bool {
        forall|i: int, j: int|
            0 <= i < j < self.entries().len() ==> (#[trigger] self.entries()[i]).0 != (
            #[trigger] self.entries()[j]).0
    }

    /// A hub without spokes.
    pub fn new() -> (r: HubTable)
        ensures
            r.wf(),
            r.entries() == Seq::<(Ipv4Addr, Seq<u8>)>::empty(),
            r.listeners() == Seq::<Seq<u8>>::empty(),
    {
        let r = HubTable { peers: Vec::new(), fans: Vec::new() };
        proof {
            assert(r.entries() =~= Seq::<(Ipv4Addr, Seq<u8>)>::empty());
            assert(r.listeners() =~= Seq::<Seq<u8>>::empty());
        }
        r
    }

    /// The spokes, in the order in which they joined.
    pub fn list(&self) -> (r: Vec<RosterEntry>)
        ensures
            members(r@) == self.entries(),
    {
        copy_entries(&self.peers)
    }

    /// Checks the address that a spoke announced: one of the mesh, and not
    /// the hub's own.
    pub fn check_spoke_vip(catalog: &Catalog, own_vip: Ipv4Addr, vip: Ipv4Addr) -> (r: Result<
        (),
        Error,
    >)
        ensures
            match r {
                Ok(_) => in_mesh(vip) && vip != own_vip,
                Err(e) => !(in_mesh(vip) && vip != own_vip) && says(
                    e,
                    unusable(catalog@, vip),
                    None,
                ),
            },
    {
        if vip == own_vip || !vip_in_mesh(vip) {
            return Err(
                Error::msg(
                    say1(catalog, "peer announced an unusable virtual IP {0}", vip.to_text()),
                ),
            );
        }
        Ok(())
    }

    /// Gives a spoke the address that it announced, unless it is taken.
    pub fn claim(&mut self, catalog: &Catalog, spoke: RosterEntry) -> (r: Result<(), Error>)
        requires
            old(self).wf(),
        ensures
            final(self).wf(),
            match r {
                Ok(_) => {
                    &&& !old(self).at().contains_key(spoke.vip)
                    &&& final(self).entries() == old(self).entries().push(spoke@)
                    &&& final(self).at() == old(self).at().insert(spoke.vip, spoke.id@)
                    &&& final(self).listeners() == (if old(self).listeners().contains(
                        spoke.id@,
                    ) {
                        old(self).listeners()
                    } else {
                        old(self).listeners().push(spoke.id@)
                    })
                },
                Err(e) => {
                    &&& old(self).at().contains_key(spoke.vip)
                    &&& final(self).entries() == old(self).entries()
                    &&& final(self).listeners() == old(self).listeners()
                    &&& says(
                        e,
                        said(
                            catalog@,
                            "virtual IP {0} is already claimed by another peer"@,
                            seq![spoke.vip.shown()],
                        ),
                        None,
                    )
                },
            },
    {
        if holds_vip(&self.peers, spoke.vip) {
            return Err(
                Error::msg(
                    say1(
                        catalog,
                        "virtual IP {0} is already claimed by another peer",
                        spoke.vip.to_text(),
                    ),
                ),
            );
        }
        let ghost before = self.entries();
        let ghost told = self.listeners();
        proof {
            lemma_no_vip(before, spoke.vip);
            lemma_members_push(self.peers@, spoke);
        }
        self.peers.push(spoke);
        proof {
            assert(before.push(spoke@).drop_last() =~= before);
        }
        if !holds_id(&self.fans, &spoke.id) {
            self.fans.push(spoke.id);
            proof {
                assert(self.listeners() =~= told.push(spoke.id@));
            }
        }
        Ok(())
    }

    /// What is sent once a spoke that holds its address has its route: the
    /// whole roster, the hub first, to the spoke, and word of it to all.
    pub fn welcome(&self, own: RosterEntry, spoke: RosterEntry) -> (r: Welcome)
        ensures
            r.snapshot@ == message_bytes((1u8, seq![own@] + self.entries())),
            r.joined@ == message_bytes((2u8, seq![spoke@])),
            id_views(r.to@) == self.listeners(),
    {
        let mut all: Vec<RosterEntry> = Vec::new();
        all.push(own);
        let mut i: usize = 0;
        while i < self.peers.len()
            invariant
                i <= self.peers@.len(),
                all@.len() == i + 1,
                all@[0]@ == own@,
                forall|j: int| 0 <= j < i ==> (#[trigger] all@[j + 1])@ == self.peers@[j]@,
            decreases self.peers@.len() - i,
        {
            all.push(self.peers[i]);
            i = i + 1;
        }
        proof {
            let want = seq![own@] + self.entries();
            assert forall|j: int| 0 <= j < want.len() implies members(all@)[j] == want[j] by {
                if j > 0 {
                    assert(all@[(j - 1) + 1]@ == self.peers@[j - 1]@);
                }
            }
            assert(members(all@) =~= want);
        }
        Welcome {
            snapshot: encode_snapshot(&all),
            joined: encode_joined(&spoke),
            to: copy_ids(&self.fans),
        }
    }

    /// Takes a spoke out again.
    pub fn release(&mut self, spoke: RosterEntry) -> (r: Farewell)
        requires
            old(self).wf(),
        ensures
            final(self).wf(),
            final(self).entries() == without_vip(old(self).entries(), spoke.vip),
            final(self).at() == old(self).at().remove(spoke.vip),
            final(self).listeners() == other_ids(old(self).listeners(), spoke.id@),
            r.left@ == message_bytes((3u8, seq![spoke@])),
            id_views(r.to@) == final(self).listeners(),
    {
        let ghost before = self.entries();
        proof {
            lemma_without_vip(before, spoke.vip);
            lemma_without_keeps_distinct(before, spoke.vip);
        }
        self.peers = drop_vip(&self.peers, spoke.vip);
        self.fans = drop_listener(&self.fans, &spoke.id);
        Farewell { left: encode_left(&spoke), to: copy_ids(&self.fans) }
    }

    /// Where a packet from the hub's own interface goes: to the spoke that it
    /// is for.
    pub fn from_tun(&self, own_vip: Ipv4Addr, pkt: &[u8]) -> (r: Route)
        ensures
            r == (match dst_of(pkt@) {
                Some(dst) => if dst != own_vip && in_mesh(dst) && self.at().contains_key(dst) {
                    Route::Spoke(dst)
                } else {
                    Route::Drop
                },
                None => Route::Drop,
            }),
    {
        match ipv4_dst(pkt) {
            Some(dst) => {
                if dst == own_vip || !vip_in_mesh(dst) || !holds_vip(&self.peers, dst) {
                    Route::Drop
                } else {
                    Route::Spoke(dst)
                }
            },
            None => Route::Drop,
        }
    }

    /// Where a packet from the spoke at `from` goes. One whose source is not
    /// that address is dropped.
    pub fn from_spoke(&self, own_vip: Ipv4Addr, from: Ipv4Addr, pkt: &[u8]) -> (r: Route)
        ensures
            r == hub_route(self.at(), own_vip, from, pkt@),
    {
        match ipv4_src(pkt) {
            Some(src) => {
                if src != from {
                    return Route::Drop;
                }
            },
            None => {
                return Route::Drop;
            },
        }
        match ipv4_dst(pkt) {
            Some(dst) => {
                if dst == own_vip {
                    Route::Local
                } else if !vip_in_mesh(dst) || dst == from || !holds_vip(&self.peers, dst) {
                    Route::Drop
                } else {
                    Route::Spoke(dst)
                }
            },
            None => Route::Drop,
        }
    }
}

/// Where a hub sends a packet that came from the spoke at `from`.
pub open spec fn hub_route(
    at: Map<Ipv4Addr, Seq<u8>>,
    own_vip: Ipv4Addr,
    from: Ipv4Addr,
    pkt: Seq<u8>,
) -> Route {
    if src_of(pkt) != Some(from) {
        Route::Drop
    } else {
        match dst_of(pkt) {
            Some(dst) => if dst == own_vip {
                Route::Local
            } else if in_mesh(dst) && dst != from && at.contains_key(dst) {
                Route::Spoke(dst)
            } else {
                Route::Drop
            },
            None => Route::Drop,
        }
    }
}

fn drop_listener(v: &Vec<EndpointId>, id: &EndpointId) -> (r: Vec<EndpointId>)
    ensures
        id_views(r@) == other_ids(id_views(v@), id@),
{
    let mut out: Vec<EndpointId> = Vec::new();
    let mut i: usize = 0;
    proof {
        assert(id_views(out@) =~= other_ids(id_views(v@).take(0), id@));
    }
    while i < v.len()
        invariant
            i <= v@.len(),
            id_views(out@) == other_ids(id_views(v@).take(i as int), id@),
        decreases v@.len() - i,
    {
        let e = v[i];
        let ghost before = id_views(out@);
        proof {
            let next = id_views(v@).take(i + 1);
            assert(next.drop_last() =~= id_views(v@).take(i as int));
            assert(next.last() == e@);
        }
        if !e.same(id) {
            out.push(e);
            proof {
                assert(id_views(out@) =~= before.push(e@));
            }
        }
        i = i + 1;
    }
    proof {
        assert(id_views(v@).take(v@.len() as int) =~= id_views(v@));
    }
    out
}

/// No two members are at one address.
pub open spec fn distinct_vips(s: Seq<(Ipv4Addr, Seq<u8>)>) -> bool {
    forall|i: int, j: int| 0 <= i < j < s.len() ==> (#[trigger] s[i]).0 != (#[trigger] s[j]).0
}

proof fn lemma_without_is_part(s: Seq<(Ipv4Addr, Seq<u8>)>, vip: Ipv4Addr, i: int)
    requires
        0 <= i < without_vip(s, vip).len(),
    ensures
        exists|j: int| 0 <= j < s.len() && #[trigger] s[j] == without_vip(s, vip)[i],
    decreases s.len(),
{
    let front = s.drop_last();
    let rest = without_vip(front, vip);
    if i < rest.len() {
        lemma_without_is_part(front, vip, i);
        let j = choose|j: int| 0 <= j < front.len() && #[trigger] front[j] == rest[i];
        assert(s[j] == without_vip(s, vip)[i]);
    } else {
        assert(s[s.len() - 1] == without_vip(s, vip)[i]);
    }
}

proof fn lemma_without_keeps_distinct(s: Seq<(Ipv4Addr, Seq<u8>)>, vip: Ipv4Addr)
    requires
        distinct_vips(s),
    ensures
        distinct_vips(without_vip(s, vip)),
    decreases s.len(),
{
    if s.len() > 0 {
        let front = s.drop_last();
        assert(distinct_vips(front)) by {
            assert forall|i: int, j: int| 0 <= i < j < front.len() implies (#[trigger] front[i]).0
                != (#[trigger] front[j]).0 by {
                assert(s[i].0 != s[j].0);
            }
        }
        lemma_without_keeps_distinct(front, vip);
        let rest = without_vip(front, vip);
        let out = without_vip(s, vip);
        assert forall|i: int, j: int| 0 <= i < j < out.len() implies (#[trigger] out[i]).0 != (
        #[trigger] out[j]).0 by {
            if j < rest.len() {
                assert(rest[i].0 != rest[j].0);
            } else {
                lemma_without_is_part(front, vip, i);
                let k = choose|k: int| 0 <= k < front.len() && #[trigger] front[k] == rest[i];
                assert(s[k].0 != s[s.len() - 1].0);
            }
        }
    }
}

proof fn lemma_without_absent(s: Seq<(Ipv4Addr, Seq<u8>)>, vip: Ipv4Addr)
    requires
        !by_vip(s).contains_key(vip),
    ensures
        without_vip(s, vip) == s,
    decreases s.len(),
{
    if s.len() > 0 {
        lemma_without_absent(s.drop_last(), vip);
        assert(s =~= s.drop_last().push(s.last()));
    }
}

/// Leaving undoes joining: the hub's spokes are again those of before.
pub proof fn law_leaving_undoes_joining(s: Seq<(Ipv4Addr, Seq<u8>)>, spoke: (Ipv4Addr, Seq<u8>))
    requires
        !by_vip(s).contains_key(spoke.0),
    ensures
        without_vip(s.push(spoke), spoke.0) == s,
{
    lemma_without_absent(s, spoke.0);
    assert(s.push(spoke).drop_last() =~= s);
}

/// A hub takes no packet from a spoke under an address that is not its own,
/// whatever it is for.
pub proof fn law_spoofed_packets_are_dropped(
    at: Map<Ipv4Addr, Seq<u8>>,
    own_vip: Ipv4Addr,
    from: Ipv4Addr,
    pkt: Seq<u8>,
)
    ensures
        src_of(pkt) != Some(from) ==> hub_route(at, own_vip, from, pkt) == Route::Drop,
{
}

/// A hub forwards a packet to the address that it is for and to no other, and
/// never back to where it came from.
pub proof fn law_packets_reach_their_destination(
    at: Map<Ipv4Addr, Seq<u8>>,
    own_vip: Ipv4Addr,
    from: Ipv4Addr,
    pkt: Seq<u8>,
)
    ensures
        hub_route(at, own_vip, from, pkt) matches Route::Spoke(v) ==> dst_of(pkt) == Some(v) && v
            != from && at.contains_key(v),
        hub_route(at, own_vip, from, pkt) == Route::Local ==> dst_of(pkt) == Some(own_vip),
{
}

/// Which way a spoke sends a packet.
#[derive(Clone, Copy, Debug, PartialEq, Eq, Structural)]
pub enum Out {
    Drop,
    /// Over the direct link to this address.
    Direct(Ipv4Addr),
    Hub,
}

/// Whether to dial a member of the roster.
#[derive(Clone, Copy, Debug, PartialEq, Eq, Structural)]
pub enum Dial {
    /// It is this node, it dials us, or there is a link already.
    Skip,
    /// The allow list does not name it.
    NotAllowed,
    Go,
}

/// What to do with a peer that dialed this spoke.
#[derive(Clone, Copy, Debug, PartialEq, Eq, Structural)]
pub enum Inbound {
    /// The allow list does not name it: the connection is closed.
    Denied,
    /// This node dials that peer: the connection is closed.
    TieBreak,
    Take,
}

impl Inbound {
    /// Why the peer's connection is closed, where it is.
    pub fn close_reason(self) -> (r: Option<CloseReason>)
        ensures
            r == (match self {
                Inbound::Denied => Some(CloseReason::Denied),
                Inbound::TieBreak => Some(CloseReason::TieBreak),
                Inbound::Take => None,
            }),
    {
        match self {
            Inbound::Denied => Some(CloseReason::Denied),
            Inbound::TieBreak => Some(CloseReason::TieBreak),
            Inbound::Take => None,
        }
    }
}

/// Whether a dialed peer is the one that the roster names: it announced the
/// address of its entry.
pub fn is_at_its_vip(entry: &RosterEntry, announced: Ipv4Addr) -> (r: bool)
    ensures
        r == (announced == entry@.0),
{
    announced == entry.vip
}

/// A spoke's table: the hub, direct links, and who else there is.
#[derive(Debug)]
pub struct SpokeMesh {
    own: RosterEntry,
    hub: Option<Ipv4Addr>,
    direct: Vec<Ipv4Addr>,
    roster: Vec<RosterEntry>,
}

/// The addresses without one of them.
pub open spec fn other_vips(s: Seq<Ipv4Addr>, vip: Ipv4Addr) -> Seq<Ipv4Addr>
    decreases s.len(),
{
    if s.len() == 0 {
        Seq::empty()
    } else if s.last() == vip {
        other_vips(s.drop_last(), vip)
    } else {
        other_vips(s.drop_last(), vip).push(s.last())
    }
}

proof fn lemma_other_vips(s: Seq<Ipv4Addr>, vip: Ipv4Addr)
    ensures
        other_vips(s, vip).to_set() == s.to_set().remove(vip),
    decreases s.len(),
{
    broadcast use vstd::seq_lib::group_seq_properties;

    if s.len() > 0 {
        let front = s.drop_last();
        lemma_other_vips(front, vip);
        assert(s =~= front.push(s.last()));
        assert(s.to_set() =~= front.to_set().insert(s.last())) by {
            lemma_push_to_set(front, s.last());
        }
        if s.last() == vip {
            assert(s.to_set().remove(vip) =~= front.to_set().remove(vip));
        } else {
            lemma_push_to_set(other_vips(front, vip), s.last());
            assert(s.to_set().remove(vip) =~= front.to_set().remove(vip).insert(s.last()));
        }
    } else {
        assert(s.to_set().remove(vip) =~= other_vips(s, vip).to_set());
    }
}

proof fn lemma_push_to_set(s: Seq<Ipv4Addr>, x: Ipv4Addr)
    ensures
        s.push(x).to_set() == s.to_set().insert(x),
{
    let t = s.push(x);
    assert forall|y: Ipv4Addr| t.to_set().contains(y) == s.to_set().insert(x).contains(y) by {
        if s.contains(y) {
            let i = choose|i: int| 0 <= i < s.len() && s[i] == y;
            assert(t[i] == y);
        }
        if t.contains(y) {
            let i = choose|i: int| 0 <= i < t.len() && t[i] == y;
            if i < s.len() {
                assert(s[i] == y);
            }
        }
        assert(t[s.len() as int] == x);
    }
    assert(t.to_set() =~= s.to_set().insert(x));
}

fn has_vip(v: &Vec<Ipv4Addr>, vip: Ipv4Addr) -> (r: bool)
    ensures
        r == v@.contains(vip),
{
    let mut i: usize = 0;
    while i < v.len()
        invariant
            i <= v@.len(),
            forall|j: int| 0 <= j < i ==> v@[j] != vip,
        decreases v@.len() - i,
    {
        if v[i] == vip {
            return true;
        }
        i = i + 1;
    }
    false
}

impl SpokeMesh {
    /// This node.
    pub closed spec fn me(&self) -> (Ipv4Addr, Seq<u8>) {
        self.own@
    }

    /// The hub's address, while there is a session with it.
    pub closed spec fn hub_at(&self) -> Option<Ipv4Addr> {
        self.hub
    }

    /// The addresses with a direct link.
    pub closed spec fn links(&self) -> Set<Ipv4Addr> {
        self.direct@.to_set()
    }

    /// Where the known members are.
    pub closed spec fn known(&self) -> Map<Seq<u8>, Ipv4Addr> {
        by_id(members(self.roster@))
    }

    /// A spoke that knows nobody yet.
    pub fn new(own: RosterEntry) -> (r: SpokeMesh)
        ensures
            r.me() == own@,
            r.hub_at() is None,
            r.links() == Set::<Ipv4Addr>::empty(),
            r.known() == Map::<Seq<u8>, Ipv4Addr>::empty(),
    {
        let r = SpokeMesh { own, hub: None, direct: Vec::new(), roster: Vec::new() };
        proof {
            assert(r.links() =~= Set::<Ipv4Addr>::empty());
            assert(members(r.roster@) =~= Seq::empty());
        }
        r
    }

    /// The session with the hub stands.
    pub fn set_hub(&mut self, hub: RosterEntry)
        ensures
            final(self).me() == old(self).me(),
            final(self).hub_at() == Some(hub.vip),
            final(self).links() == old(self).links(),
            final(self).known() == old(self).known().insert(hub.id@, hub.vip),
    {
        self.hub = Some(hub.vip);
        self.learn(hub);
    }

    /// The session with the hub is over. Direct links stay.
    pub fn clear_hub(&mut self)
        ensures
            final(self).me() == old(self).me(),
            final(self).hub_at() is None,
            final(self).links() == old(self).links(),
            final(self).known() == old(self).known(),
    {
        self.hub = None;
    }

    /// Notes where a member is.
    fn learn(&mut self, e: RosterEntry)
        ensures
            final(self).own == old(self).own,
            final(self).hub == old(self).hub,
            final(self).direct == old(self).direct,
            final(self).known() == old(self).known().insert(e.id@, e.vip),
    {
        proof {
            lemma_without_id(members(self.roster@), e.id@);
        }
        let mut rest = drop_id(&self.roster, &e.id);
        proof {
            lemma_members_push(rest@, e);
            assert(members(rest@).push(e@).drop_last() =~= members(rest@));
            assert(by_id(members(self.roster@)).remove(e.id@).insert(e.id@, e.vip) =~= by_id(
                members(self.roster@),
            ).insert(e.id@, e.vip));
        }
        rest.push(e);
        self.roster = rest;
    }

    /// A direct link to a peer stands. One that gives this node's own address
    /// is not used.
    pub fn install_direct(&mut self, peer: RosterEntry) -> (r: bool)
        ensures
            r == (peer.vip != old(self).me().0),
            final(self).me() == old(self).me(),
            final(self).hub_at() == old(self).hub_at(),
            r ==> final(self).links() == old(self).links().insert(peer.vip),
            r ==> final(self).known() == old(self).known().insert(peer.id@, peer.vip),
            !r ==> final(self).links() == old(self).links(),
            !r ==> final(self).known() == old(self).known(),
    {
        if peer.vip == self.own.vip {
            return false;
        }
        self.learn(peer);
        if !has_vip(&self.direct, peer.vip) {
            proof {
                lemma_push_to_set(self.direct@, peer.vip);
            }
            self.direct.push(peer.vip);
        } else {
            proof {
                assert(self.direct@.to_set().insert(peer.vip) =~= self.direct@.to_set());
            }
        }
        true
    }

    /// The direct link to an address is gone.
    pub fn drop_direct(&mut self, vip: Ipv4Addr)
        ensures
            final(self).me() == old(self).me(),
            final(self).hub_at() == old(self).hub_at(),
            final(self).links() == old(self).links().remove(vip),
            final(self).known() == old(self).known(),
    {
        proof {
            lemma_other_vips(self.direct@, vip);
        }
        let mut out: Vec<Ipv4Addr> = Vec::new();
        let mut i: usize = 0;
        proof {
            assert(out@ =~= other_vips(self.direct@.take(0), vip));
        }
        while i < self.direct.len()
            invariant
                i <= self.direct@.len(),
                out@ == other_vips(self.direct@.take(i as int), vip),
            decreases self.direct@.len() - i,
        {
            proof {
                let next = self.direct@.take(i + 1);
                assert(next.drop_last() =~= self.direct@.take(i as int));
                assert(next.last() == self.direct@[i as int]);
            }
            if self.direct[i] != vip {
                out.push(self.direct[i]);
            }
            i = i + 1;
        }
        proof {
            assert(self.direct@.take(self.direct@.len() as int) =~= self.direct@);
        }
        self.direct = out;
    }

    /// The members that are known.
    pub fn list(&self) -> (r: Vec<RosterEntry>)
        ensures
            by_id(members(r@)) == self.known(),
    {
        copy_entries(&self.roster)
    }

    /// Which way packets for an address go: over the direct link where there
    /// is one, else by the hub.
    pub fn lookup_out(&self, dst: Ipv4Addr) -> (r: Out)
        ensures
            r == spoke_route(self.links(), self.hub_at(), dst),
    {
        if has_vip(&self.direct, dst) {
            return Out::Direct(dst);
        }
        match self.hub {
            Some(h) => {
                if h == dst || vip_in_mesh(dst) {
                    Out::Hub
                } else {
                    Out::Drop
                }
            },
            None => Out::Drop,
        }
    }

    /// Which way a packet from the local interface goes.
    pub fn from_tun(&self, pkt: &[u8]) -> (r: Out)
        ensures
            r == (match dst_of(pkt@) {
                Some(dst) => if dst == self.me().0 {
                    Out::Drop
                } else {
                    spoke_route(self.links(), self.hub_at(), dst)
                },
                None => Out::Drop,
            }),
    {
        match ipv4_dst(pkt) {
            Some(dst) => {
                if dst == self.own.vip {
                    Out::Drop
                } else {
                    self.lookup_out(dst)
                }
            },
            None => Out::Drop,
        }
    }

    /// Takes a roster message in: the members to try a direct link to, in its
    /// order. This node itself is passed over.
    pub fn apply(&mut self, msg: &RosterMsg) -> (r: Vec<RosterEntry>)
        ensures
            final(self).me() == old(self).me(),
            final(self).hub_at() == old(self).hub_at(),
            match *msg {
                RosterMsg::Snapshot(v) => {
                    &&& members(r@) == without_id(members(v@), old(self).me().1)
                    &&& final(self).known() == learned(old(self).known(), members(r@))
                    &&& final(self).links() == old(self).links()
                },
                RosterMsg::Joined(e) => {
                    &&& members(r@) == without_id(seq![e@], old(self).me().1)
                    &&& final(self).known() == learned(old(self).known(), members(r@))
                    &&& final(self).links() == old(self).links()
                },
                RosterMsg::Left(e) => {
                    &&& r@.len() == 0
                    &&& final(self).known() == old(self).known().remove(e.id@)
                    &&& final(self).links() == old(self).links().remove(e.vip)
                },
            },
    {
        match msg {
            RosterMsg::Snapshot(v) => {
                let others = drop_id(v, &self.own.id);
                self.learn_all(&others);
                others
            },
            RosterMsg::Joined(e) => {
                let mut one: Vec<RosterEntry> = Vec::new();
                one.push(*e);
                proof {
                    assert(members(one@) =~= seq![e@]);
                }
                let others = drop_id(&one, &self.own.id);
                self.learn_all(&others);
                others
            },
            RosterMsg::Left(e) => {
                proof {
                    lemma_without_id(members(self.roster@), e.id@);
                }
                self.roster = drop_id(&self.roster, &e.id);
                self.drop_direct(e.vip);
                Vec::new()
            },
        }
    }

    fn learn_all(&mut self, v: &Vec<RosterEntry>)
        ensures
            final(self).own == old(self).own,
            final(self).hub == old(self).hub,
            final(self).direct == old(self).direct,
            final(self).known() == learned(old(self).known(), members(v@)),
    {
        let ghost start = self.known();
        let mut i: usize = 0;
        proof {
            assert(members(v@).take(0) =~= Seq::empty());
        }
        while i < v.len()
            invariant
                i <= v@.len(),
                self.own == old(self).own,
                self.hub == old(self).hub,
                self.direct == old(self).direct,
                self.known() == learned(start, members(v@).take(i as int)),
            decreases v@.len() - i,
        {
            self.learn(v[i]);
            proof {
                let next = members(v@).take(i + 1);
                assert(next.drop_last() =~= members(v@).take(i as int));
                assert(next.last() == v@[i as int]@);
            }
            i = i + 1;
        }
        proof {
            assert(members(v@).take(v@.len() as int) =~= members(v@));
        }
    }

    /// Whether to dial a member. Of two spokes the one with the higher id
    /// dials.
    pub fn dial_decision(&self, catalog: &Catalog, allow: &Option<Vec<EndpointId>>, e: &RosterEntry)
        -> (r: Dial)
        ensures
            r == (if e.id@ == self.me().1 || e.vip == self.me().0 {
                Dial::Skip
            } else if !is_allowed(*allow, e.id@) {
                Dial::NotAllowed
            } else if bytes_after(self.me().1, e.id@) && !self.links().contains(e.vip) {
                Dial::Go
            } else {
                Dial::Skip
            }),
    {
        if e.id.same(&self.own.id) || e.vip == self.own.vip {
            return Dial::Skip;
        }
        if check_allow(catalog, allow, &e.id).is_err() {
            return Dial::NotAllowed;
        }
        if !should_dial(&self.own.id, &e.id) || has_vip(&self.direct, e.vip) {
            return Dial::Skip;
        }
        Dial::Go
    }

    /// What to do with a peer that dialed this spoke.
    pub fn accept_decision(
        &self,
        catalog: &Catalog,
        allow: &Option<Vec<EndpointId>>,
        peer: &EndpointId,
    ) -> (r: Inbound)
        ensures
            r == (if !is_allowed(*allow, peer@) {
                Inbound::Denied
            } else if bytes_after(self.me().1, peer@) {
                Inbound::TieBreak
            } else {
                Inbound::Take
            }),
    {
        if check_allow(catalog, allow, peer).is_err() {
            return Inbound::Denied;
        }
        if should_dial(&self.own.id, peer) {
            return Inbound::TieBreak;
        }
        Inbound::Take
    }
}

/// A roster after the members of a list were noted in order.
pub open spec fn learned(
    known: Map<Seq<u8>, Ipv4Addr>,
    s: Seq<(Ipv4Addr, Seq<u8>)>,
) -> Map<Seq<u8>, Ipv4Addr>
    decreases s.len(),
{
    if s.len() == 0 {
        known
    } else {
        learned(known, s.drop_last()).insert(s.last().1, s.last().0)
    }
}

/// Which way a spoke sends packets for an address.
pub open spec fn spoke_route(links: Set<Ipv4Addr>, hub: Option<Ipv4Addr>, dst: Ipv4Addr) -> Out {
    if links.contains(dst) {
        Out::Direct(dst)
    } else if hub is Some && (hub == Some(dst) || in_mesh(dst)) {
        Out::Hub
    } else {
        Out::Drop
    }
}

/// While there is a session with the hub, packets for every address of the
/// mesh go somewhere: over a direct link where there is one, by the hub
/// elsewhere.
pub proof fn law_mesh_falls_back_to_the_hub(links: Set<Ipv4Addr>, hub: Ipv4Addr, dst: Ipv4Addr)
    requires
        in_mesh(dst),
    ensures
        spoke_route(links, Some(hub), dst) == (if links.contains(dst) {
            Out::Direct(dst)
        } else {
            Out::Hub
        }),
{
}

/// Whether a packet from the hub is delivered: it comes from the mesh, or
/// from the hub itself.
pub fn takes_from_hub(hub_vip: Ipv4Addr, pkt: &[u8]) -> (r: bool)
    ensures
        r == (match src_of(pkt@) {
            Some(src) => in_mesh(src) || src == hub_vip,
            None => false,
        }),
{
    match ipv4_src(pkt) {
        Some(src) => vip_in_mesh(src) || src == hub_vip,
        None => false,
    }
}

/// Whether a packet from a direct link is delivered: only from the address
/// that the link is for.
pub fn takes_from_direct(peer_vip: Ipv4Addr, pkt: &[u8]) -> (r: bool)
    ensures
        r == (src_of(pkt@) == Some(peer_vip)),
{
    match ipv4_src(pkt) {
        Some(src) => src == peer_vip,
        None => false,
    }
}

/// Whether bytes are an IPv4 packet from one address to another, by its
/// header.
pub open spec fn travels(pkt: Seq<u8>, src: Ipv4Addr, dst: Ipv4Addr) -> bool {
    &&& pkt.len() >= 20
    &&& 0x40 <= pkt[0] <= 0x4f
    &&& pkt.subrange(12, 16) == src.octets()
    &&& pkt.subrange(16, 20) == dst.octets()
}

proof fn lemma_travels(pkt: Seq<u8>, src: Ipv4Addr, dst: Ipv4Addr)
    requires
        travels(pkt, src, dst),
    ensures
        src_of(pkt) == Some(src),
        dst_of(pkt) == Some(dst),
{
    let s = pkt.subrange(12, 16);
    let d = pkt.subrange(16, 20);
    assert(s[0] == pkt[12] && s[1] == pkt[13] && s[2] == pkt[14] && s[3] == pkt[15]);
    assert(d[0] == pkt[16] && d[1] == pkt[17] && d[2] == pkt[18] && d[3] == pkt[19]);
    assert(src.octets()[0] == src.a && src.octets()[1] == src.b);
    assert(src.octets()[2] == src.c && src.octets()[3] == src.d);
    assert(dst.octets()[0] == dst.a && dst.octets()[1] == dst.b);
    assert(dst.octets()[2] == dst.c && dst.octets()[3] == dst.d);
}

/// A hub delivers what a spoke sends under its own address: to itself what is
/// for itself, and to the spoke that is registered at an address of
/// 172.24.0.0/16 what is for that address, wherever in the range the two are.
/// Everything else it drops.
pub proof fn law_hub_delivers_between_spokes(
    table: HubTable,
    own_vip: Ipv4Addr,
    from: Ipv4Addr,
    src: Ipv4Addr,
    dst: Ipv4Addr,
    pkt: &[u8],
    r: Route,
)
    requires
        call_ensures(HubTable::from_spoke, (&table, own_vip, from, pkt), r),
        travels(pkt@, src, dst),
    ensures
        ({
            let registered = exists|k: int|
                0 <= k < table.entries().len() && (#[trigger] table.entries()[k]).0 == dst;
            &&& src != from ==> r == Route::Drop
            &&& src == from && dst == own_vip ==> r == Route::Local
            &&& src == from && dst != own_vip && dst != from && dst.a == 172 && dst.b == 24
                && registered ==> r == Route::Spoke(dst)
            &&& dst != own_vip && (dst == from || dst.a != 172 || dst.b != 24 || !registered) ==> r
                == Route::Drop
        }),
{
    lemma_travels(pkt@, src, dst);
    lemma_no_vip(table.entries(), dst);
}

/// A hub sends what its own interface gives it to the spoke that is registered
/// at the address of 172.24.0.0/16 that it is for, and drops the rest.
pub proof fn law_hub_delivers_its_own_packets(
    table: HubTable,
    own_vip: Ipv4Addr,
    src: Ipv4Addr,
    dst: Ipv4Addr,
    pkt: &[u8],
    r: Route,
)
    requires
        call_ensures(HubTable::from_tun, (&table, own_vip, pkt), r),
        travels(pkt@, src, dst),
    ensures
        ({
            let registered = exists|k: int|
                0 <= k < table.entries().len() && (#[trigger] table.entries()[k]).0 == dst;
            &&& dst != own_vip && dst.a == 172 && dst.b == 24 && registered ==> r == Route::Spoke(
                dst,
            )
            &&& dst == own_vip || dst.a != 172 || dst.b != 24 || !registered ==> r == Route::Drop
        }),
{
    lemma_travels(pkt@, src, dst);
    lemma_no_vip(table.entries(), dst);
}

/// A spoke sends a packet for another address over the direct link to it,
/// where there is one; else by the hub, while there is a session with it, what
/// is for the hub or for 172.24.0.0/16; and drops the rest and what is for
/// itself.
pub proof fn law_spoke_sends_direct_or_by_the_hub(
    mesh: SpokeMesh,
    src: Ipv4Addr,
    dst: Ipv4Addr,
    pkt: &[u8],
    r: Out,
)
    requires
        call_ensures(SpokeMesh::from_tun, (&mesh, pkt), r),
        travels(pkt@, src, dst),
    ensures
        dst == mesh.me().0 ==> r == Out::Drop,
        dst != mesh.me().0 && mesh.links().contains(dst) ==> r == Out::Direct(dst),
        dst != mesh.me().0 && !mesh.links().contains(dst) ==> match mesh.hub_at() {
            None => r == Out::Drop,
            Some(hub) => r == (if dst == hub || (dst.a == 172 && dst.b == 24) {
                Out::Hub
            } else {
                Out::Drop
            }),
        },
{
    lemma_travels(pkt@, src, dst);
}

/// What a hub forwards to a spoke, the spoke delivers: a packet from any
/// address of 172.24.0.0/16, or from the hub. Over a direct link it takes only
/// what its peer sends under its own address.
pub proof fn law_spoke_takes_what_the_mesh_sends(
    hub_vip: Ipv4Addr,
    peer_vip: Ipv4Addr,
    src: Ipv4Addr,
    dst: Ipv4Addr,
    pkt: &[u8],
    by_hub: bool,
    direct: bool,
)
    requires
        call_ensures(takes_from_hub, (hub_vip, pkt), by_hub),
        call_ensures(takes_from_direct, (peer_vip, pkt), direct),
        travels(pkt@, src, dst),
    ensures
        by_hub <==> src == hub_vip || (src.a == 172 && src.b == 24),
        direct <==> src == peer_vip,
{
    lemma_travels(pkt@, src, dst);
}

/// What is no IPv4 packet goes nowhere and is delivered nowhere.
pub proof fn law_other_packets_are_dropped(
    table: HubTable,
    mesh: SpokeMesh,
    own_vip: Ipv4Addr,
    from: Ipv4Addr,
    pkt: &[u8],
    by_hub: Route,
    by_spoke: Route,
    out: Out,
    taken: bool,
    taken_direct: bool,
)
    requires
        pkt@.len() < 20 || pkt@[0] < 0x40 || pkt@[0] > 0x4f,
        call_ensures(HubTable::from_tun, (&table, own_vip, pkt), by_hub),
        call_ensures(HubTable::from_spoke, (&table, own_vip, from, pkt), by_spoke),
        call_ensures(SpokeMesh::from_tun, (&mesh, pkt), out),
        call_ensures(takes_from_hub, (own_vip, pkt), taken),
        call_ensures(takes_from_direct, (from, pkt), taken_direct),
    ensures
        by_hub == Route::Drop,
        by_spoke == Route::Drop,
        out == Out::Drop,
        !taken,
        !taken_direct,
{
}

/// The allow list lets in exactly the peers whose id it names, at whatever
/// place; without a list everyone is let in.
pub proof fn law_allow_list_names_who_is_let_in(
    catalog: Catalog,
    allow: Option<Vec<EndpointId>>,
    peer: EndpointId,
    r: Result<(), Error>,
)
    requires
        call_ensures(check_allow, (&catalog, &allow, &peer), r),
    ensures
        allow is None ==> r is Ok,
        allow matches Some(ids) ==> (r is Ok <==> exists|i: int|
            0 <= i < ids@.len() && (#[trigger] ids@[i])@ == peer@),
{
    if let Some(ids) = allow {
        let views = id_views(ids@);
        if views.contains(peer@) {
            let i = choose|i: int| 0 <= i < views.len() && views[i] == peer@;
            assert(ids@[i]@ == peer@);
        }
        if exists|i: int| 0 <= i < ids@.len() && (#[trigger] ids@[i])@ == peer@ {
            let i = choose|i: int| 0 <= i < ids@.len() && (#[trigger] ids@[i])@ == peer@;
            assert(views[i] == peer@);
        }
    }
}

/// Two spokes meet: where neither has a link to the other and both may, one
/// dials and the other takes the connection, and the one that dials refuses to
/// be dialed.
pub proof fn law_two_spokes_meet(
    catalog: Catalog,
    a: SpokeMesh,
    b: SpokeMesh,
    entry_a: RosterEntry,
    entry_b: RosterEntry,
    a_dials: Dial,
    b_dials: Dial,
    a_takes: Inbound,
    b_takes: Inbound,
)
    requires
        a.me() == entry_a@,
        b.me() == entry_b@,
        entry_a.id@ != entry_b.id@,
        entry_a.vip != entry_b.vip,
        !a.links().contains(entry_b.vip),
        !b.links().contains(entry_a.vip),
        call_ensures(SpokeMesh::dial_decision, (&a, &catalog, &None, &entry_b), a_dials),
        call_ensures(SpokeMesh::dial_decision, (&b, &catalog, &None, &entry_a), b_dials),
        call_ensures(SpokeMesh::accept_decision, (&a, &catalog, &None, &entry_b.id), a_takes),
        call_ensures(SpokeMesh::accept_decision, (&b, &catalog, &None, &entry_a.id), b_takes),
    ensures
        a_dials == Dial::Go <==> b_dials == Dial::Skip,
        b_dials == Dial::Go <==> a_dials == Dial::Skip,
        a_dials == Dial::Go ==> b_takes == Inbound::Take && a_takes == Inbound::TieBreak,
        b_dials == Dial::Go ==> a_takes == Inbound::Take && b_takes == Inbound::TieBreak,
        a_dials == Dial::Go || b_dials == Dial::Go,
{
    crate::tun_roster::law_exactly_one_dials(entry_a.id@, entry_b.id@);
}

/// A spoke neither dials nor takes a peer that the allow list does not name,
/// and does not dial itself, its own address, or a peer that it has a link to.
pub proof fn law_spoke_keeps_to_the_allow_list(
    catalog: Catalog,
    allow: Option<Vec<EndpointId>>,
    mesh: SpokeMesh,
    peer: RosterEntry,
    checked: Result<(), Error>,
    dials: Dial,
    takes: Inbound,
)
    requires
        call_ensures(check_allow, (&catalog, &allow, &peer.id), checked),
        call_ensures(SpokeMesh::dial_decision, (&mesh, &catalog, &allow, &peer), dials),
        call_ensures(SpokeMesh::accept_decision, (&mesh, &catalog, &allow, &peer.id), takes),
    ensures
        checked is Err ==> dials != Dial::Go && takes == Inbound::Denied,
        checked is Ok ==> dials != Dial::NotAllowed && takes != Inbound::Denied,
        peer.id@ == mesh.me().1 || peer.vip == mesh.me().0 || mesh.links().contains(peer.vip)
            ==> dials != Dial::Go,
{
}

/// An address that a peer may announce is any but 0.0.0.0, 255.255.255.255
/// and those of 224.0.0.0/4; a spoke's is in 172.24.0.0/16 and not the hub's.
pub proof fn law_usable_addresses(
    catalog: Catalog,
    own_vip: Ipv4Addr,
    vip: Ipv4Addr,
    peer: Result<(), Error>,
    spoke: Result<(), Error>,
    inside: bool,
)
    requires
        call_ensures(check_peer_vip, (&catalog, vip), peer),
        call_ensures(HubTable::check_spoke_vip, (&catalog, own_vip, vip), spoke),
        call_ensures(vip_in_mesh, (vip,), inside),
    ensures
        peer is Err <==> vip.octets() == seq![0u8, 0, 0, 0] || vip.octets() == seq![
            255u8,
            255,
            255,
            255,
        ] || vip.a / 16 == 14,
        inside <==> vip.a * 256 + vip.b == 0xac18,
        spoke is Ok <==> inside && vip != own_vip,
{
    let o = vip.octets();
    assert(o[0] == vip.a && o[1] == vip.b && o[2] == vip.c && o[3] == vip.d);
    if vip.a == 0 && vip.b == 0 && vip.c == 0 && vip.d == 0 {
        assert(o =~= seq![0u8, 0, 0, 0]);
    }
    if vip.a == 255 && vip.b == 255 && vip.c == 255 && vip.d == 255 {
        assert(o =~= seq![255u8, 255, 255, 255]);
    }
}

/// The members whose id is another.
pub open spec fn others_than(s: Seq<(Ipv4Addr, Seq<u8>)>, id: Seq<u8>) -> Seq<
    (Ipv4Addr, Seq<u8>),
> {
    s.filter(|e: (Ipv4Addr, Seq<u8>)| e.1 != id)
}

/// Who leaves a list by address or by id is who is at that address or has that
/// id; everyone else stays, in order.
pub proof fn law_only_the_named_leave(
    s: Seq<(Ipv4Addr, Seq<u8>)>,
    vip: Ipv4Addr,
    id: Seq<u8>,
    links: Seq<Ipv4Addr>,
    ids: Seq<Seq<u8>>,
)
    ensures
        without_vip(s, vip) == s.filter(|e: (Ipv4Addr, Seq<u8>)| e.0 != vip),
        without_id(s, id) == others_than(s, id),
        other_vips(links, vip) == links.filter(|v: Ipv4Addr| v != vip),
        other_ids(ids, id) == ids.filter(|i: Seq<u8>| i != id),
    decreases s.len() + links.len() + ids.len(),
{
    reveal(Seq::filter);
    if s.len() > 0 {
        law_only_the_named_leave(s.drop_last(), vip, id, links, ids);
    } else if links.len() > 0 {
        law_only_the_named_leave(s, vip, id, links.drop_last(), ids);
    } else if ids.len() > 0 {
        law_only_the_named_leave(s, vip, id, links, ids.drop_last());
    } else {
        assert(without_vip(s, vip) =~= s);
    }
}

/// After a list of members was noted, each of them is known at the address of
/// its last entry, and whoever the list does not name is known as before.
pub proof fn law_listed_members_are_known(
    known: Map<Seq<u8>, Ipv4Addr>,
    s: Seq<(Ipv4Addr, Seq<u8>)>,
    id: Seq<u8>,
    i: int,
)
    ensures
        0 <= i < s.len() && s[i].1 == id && (forall|j: int|
            i < j < s.len() ==> (#[trigger] s[j]).1 != id) ==> learned(known, s).contains_key(id)
            && learned(known, s)[id] == s[i].0,
        (forall|j: int| 0 <= j < s.len() ==> (#[trigger] s[j]).1 != id) ==> learned(
            known,
            s,
        ).contains_key(id) == known.contains_key(id) && learned(known, s)[id] == known[id],
    decreases s.len(),
{
    if s.len() > 0 {
        let front = s.drop_last();
        law_listed_members_are_known(known, front, id, i);
        assert(s[s.len() - 1] == s.last());
        if forall|j: int| 0 <= j < s.len() ==> (#[trigger] s[j]).1 != id {
            assert forall|j: int| 0 <= j < front.len() implies (#[trigger] front[j]).1 != id by {
                assert(s[j].1 != id);
            }
        }
        if 0 <= i < front.len() && forall|j: int| i < j < s.len() ==> (#[trigger] s[j]).1 != id {
            assert forall|j: int| i < j < front.len() implies (#[trigger] front[j]).1 != id by {
                assert(s[j].1 != id);
            }
        }
    }
}

/// A spoke gets the address that it announced exactly where no spoke has it,
/// whatever else the table holds; from then on packets for it are sent to it,
/// until it leaves. Nobody else is touched by either.
pub proof fn law_claimed_addresses_are_served(
    catalog: Catalog,
    table: &mut HubTable,
    later: &mut HubTable,
    spoke: RosterEntry,
    own_vip: Ipv4Addr,
    src: Ipv4Addr,
    pkt: &[u8],
    other: Ipv4Addr,
    r: Result<(), Error>,
    sent: Route,
    farewell: Farewell,
    after: Route,
)
    requires
        old(table).wf(),
        call_ensures(HubTable::claim, (table, &catalog, spoke), r),
        spoke.vip != own_vip,
        spoke.vip.a == 172 && spoke.vip.b == 24,
        travels(pkt@, src, spoke.vip),
        call_ensures(HubTable::from_tun, (&*final(table), own_vip, pkt), sent),
        *old(later) == *final(table),
        call_ensures(HubTable::release, (later, spoke), farewell),
        call_ensures(HubTable::from_tun, (&*final(later), own_vip, pkt), after),
    ensures
        r is Err <==> exists|k: int|
            0 <= k < old(table).entries().len() && (#[trigger] old(table).entries()[k]).0
                == spoke.vip,
        sent == Route::Spoke(spoke.vip),
        after == Route::Drop,
        other != spoke.vip ==> final(table).at().contains_key(other) == old(table).at().contains_key(
            other,
        ) && final(later).at().contains_key(other) == old(table).at().contains_key(other),
        r is Ok ==> final(later).entries() == old(table).entries(),
{
    lemma_travels(pkt@, src, spoke.vip);
    lemma_no_vip(old(table).entries(), spoke.vip);
    if r is Ok {
        law_leaving_undoes_joining(old(table).entries(), spoke@);
    }
}

/// A spoke that takes a roster in knows everyone that it lists but itself, at
/// the address listed last for them, and tries everyone that it lists but
/// itself, in order. Who has left is not known any more, and the link to its
/// address is gone.
pub proof fn law_rosters_are_taken_in(
    mesh: &mut SpokeMesh,
    gone: &mut SpokeMesh,
    v: Vec<RosterEntry>,
    e: RosterEntry,
    i: int,
    tried: Vec<RosterEntry>,
    none: Vec<RosterEntry>,
)
    requires
        call_ensures(SpokeMesh::apply, (mesh, &RosterMsg::Snapshot(v)), tried),
        call_ensures(SpokeMesh::apply, (gone, &RosterMsg::Left(e)), none),
    ensures
        members(tried@) == others_than(members(v@), old(mesh).me().1),
        0 <= i < tried@.len() && (forall|j: int|
            i < j < tried@.len() ==> (#[trigger] tried@[j]).id@ != tried@[i].id@) ==> final(
        mesh).known().contains_key(tried@[i].id@) && final(mesh).known()[tried@[i].id@]
            == tried@[i].vip,
        final(mesh).links() == old(mesh).links(),
        none@.len() == 0,
        !final(gone).known().contains_key(e.id@),
        !final(gone).links().contains(e.vip),
{
    let s = members(tried@);
    law_only_the_named_leave(members(v@), e.vip, old(mesh).me().1, Seq::empty(), Seq::empty());
    if 0 <= i < tried@.len() && (forall|j: int|
        i < j < tried@.len() ==> (#[trigger] tried@[j]).id@ != tried@[i].id@) {
        assert(s[i] == tried@[i]@);
        assert forall|j: int| i < j < s.len() implies (#[trigger] s[j]).1 != s[i].1 by {
            assert(tried@[j].id@ != tried@[i].id@);
            assert(s[j] == tried@[j]@);
        }
        law_listed_members_are_known(old(mesh).known(), s, s[i].1, i);
    }
}

/// A direct link carries the packets for its address from when it stands until
/// it is dropped; then they go by the hub again. Other addresses are reached as
/// before.
pub proof fn law_direct_links_carry_their_address(
    mesh: &mut SpokeMesh,
    later: &mut SpokeMesh,
    peer: RosterEntry,
    other: Ipv4Addr,
    installed: bool,
    up: Out,
    down: Out,
    other_before: Out,
    other_after: Out,
)
    requires
        old(mesh).hub_at() is Some,
        peer.vip.a == 172 && peer.vip.b == 24,
        peer.vip != old(mesh).me().0,
        other != peer.vip,
        call_ensures(SpokeMesh::install_direct, (mesh, peer), installed),
        call_ensures(SpokeMesh::lookup_out, (&*final(mesh), peer.vip), up),
        *old(later) == *final(mesh),
        call_ensures(SpokeMesh::drop_direct, (later, peer.vip), ()),
        call_ensures(SpokeMesh::lookup_out, (&*final(later), peer.vip), down),
        call_ensures(SpokeMesh::lookup_out, (&*old(mesh), other), other_before),
        call_ensures(SpokeMesh::lookup_out, (&*final(later), other), other_after),
    ensures
        installed,
        up == Out::Direct(peer.vip),
        down == Out::Hub,
        other_after == other_before,
{
}

/// A joining spoke is sent the hub and every spoke, in the order in which they
/// joined, and everyone is told of it: the bytes are those that reading gives
/// the same members for.
pub proof fn law_joining_spokes_learn_everyone(
    table: HubTable,
    own: RosterEntry,
    spoke: RosterEntry,
    w: Welcome,
    all: Vec<RosterEntry>,
    snapshot: Vec<u8>,
    joined: Vec<u8>,
)
    requires
        call_ensures(HubTable::welcome, (&table, own, spoke), w),
        members(all@) == seq![own@] + table.entries(),
        call_ensures(encode_snapshot, (&all,), snapshot),
        call_ensures(encode_joined, (&spoke,), joined),
    ensures
        w.snapshot@ == snapshot@,
        w.joined@ == joined@,
        id_views(w.to@) == table.listeners(),
{
}

} // verus!
