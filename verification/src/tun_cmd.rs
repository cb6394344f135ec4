//! The `tun` command line: which mesh to run, or what to ask its daemon.

use vstd::prelude::*;
use crate::endpoint::EndpointId;
use crate::exit;
use crate::exit::{says, says_because, usage, Error};
use crate::i18n::{looked_up, lookup, said, say1, Catalog};
use crate::net::{Ipv4Addr, Ipv6Addr, SocketAddr};
use crate::runtime::{
    allow_cause, allow_ids, allow_refusal, allowed, first_bad_id, id_views, merge_allow_list,
    parse_tun_allow, peer_choice, resolve_peer_to, PeerTo,
};
use crate::text::{hex_of, same_text, texts};
use crate::tun::{mtu_refusal, validate_mtu, MAX_MTU};

verus! {

/// The default of `--max-conns`, which the mesh does not use.
pub const DEFAULT_MAX_CONNS: usize = 1024;

/// What a node is in the mesh.
#[derive(Clone, Copy, Debug, PartialEq, Eq, Structural)]
pub enum Role {
    Hub,
    Spoke,
    Phone,
}

impl Role {
    /// The role's name on the command line.
    pub open spec fn word(self) -> Seq<char> {
        match self {
            Role::Hub => "hub"@,
            Role::Spoke => "spoke"@,
            Role::Phone => "phone"@,
        }
    }

    /// The role's name on the command line.
    pub fn as_str(self) -> (r: &'static str)
        ensures
            r@ == self.word(),
    {
        match self {
            Role::Hub => "hub",
            Role::Spoke => "spoke",
            Role::Phone => "phone",
        }
    }
}

/// The options of `tun up`.
#[derive(Debug)]
pub struct UpRequest {
    pub role: Option<Role>,
    pub to: Option<String>,
    pub foreground: bool,
    pub system: bool,
    pub tun_ip: Option<Ipv4Addr>,
    pub tun_ip6: Option<Ipv6Addr>,
    pub mtu: u16,
    pub allow: Vec<String>,
    pub to_addr: Vec<SocketAddr>,
    pub hidden: bool,
}

/// The options of `tun join`.
#[derive(Debug)]
pub struct JoinRequest {
    pub to: String,
    pub foreground: bool,
    pub system: bool,
    pub tun_ip: Option<Ipv4Addr>,
    pub tun_ip6: Option<Ipv6Addr>,
    pub mtu: u16,
    pub allow: Vec<String>,
    pub to_addr: Vec<SocketAddr>,
    pub hidden: bool,
}

/// `tun join` as the `tun up` that it stands for.
pub fn join_as_up(j: JoinRequest) -> (r: UpRequest)
    ensures
        r == (UpRequest {
            role: Some(Role::Spoke),
            to: Some(j.to),
            foreground: j.foreground,
            system: j.system,
            tun_ip: j.tun_ip,
            tun_ip6: j.tun_ip6,
            mtu: j.mtu,
            allow: j.allow,
            to_addr: j.to_addr,
            hidden: j.hidden,
        }),
{
    UpRequest {
        role: Some(Role::Spoke),
        to: Some(j.to),
        foreground: j.foreground,
        system: j.system,
        tun_ip: j.tun_ip,
        tun_ip6: j.tun_ip6,
        mtu: j.mtu,
        allow: j.allow,
        to_addr: j.to_addr,
        hidden: j.hidden,
    }
}

/// What the user is told where `--max-conns` was set, which the mesh does not
/// use.
pub fn max_conns_note(catalog: &Catalog, max_conns: usize) -> (r: Option<String>)
    ensures
        match r {
            Some(s) => max_conns != DEFAULT_MAX_CONNS && s@ == looked_up(
                catalog@,
                "note: --max-conns is not used by TUN mode (hub accepts peers until stopped)"@,
            ),
            None => max_conns == DEFAULT_MAX_CONNS,
        },
{
    if max_conns == DEFAULT_MAX_CONNS {
        return None;
    }
    Some(
        lookup(
            catalog,
            "note: --max-conns is not used by TUN mode (hub accepts peers until stopped)",
        ),
    )
}

/// The role of a node, or why the options do not go together: a spoke needs
/// a hub to dial, and no other role takes one. Without `--role` a node with a
/// hub to dial is a spoke, and any other a hub.
pub open spec fn up_role(
    catalog: Map<Seq<char>, Seq<char>>,
    role: Option<Role>,
    has_to: bool,
) -> Result<Role, Seq<char>> {
    match role {
        None => Ok(
            if has_to {
                Role::Spoke
            } else {
                Role::Hub
            },
        ),
        Some(Role::Spoke) => if has_to {
            Ok(Role::Spoke)
        } else {
            Err(looked_up(catalog, "`--role spoke` requires `--to <hub>`"@))
        },
        Some(r) => if has_to {
            Err(said(catalog, "do not pass `--role {0}` together with `--to`"@, seq![r.word()]))
        } else {
            Ok(r)
        },
    }
}

/// The role of a node.
pub fn resolve_up_role(catalog: &Catalog, role: Option<Role>, has_to: bool) -> (r: Result<
    Role,
    Error,
>)
    ensures
        match up_role(catalog@, role, has_to) {
            Ok(x) => r == Ok::<Role, Error>(x),
            Err(m) => r is Err && says(r->Err_0, m, Some(exit::USAGE)),
        },
{
    match role {
        None => {
            if has_to {
                Ok(Role::Spoke)
            } else {
                Ok(Role::Hub)
            }
        },
        Some(x) => {
            if x == Role::Spoke {
                if has_to {
                    Ok(x)
                } else {
                    Err(usage(lookup(catalog, "`--role spoke` requires `--to <hub>`")))
                }
            } else if has_to {
                Err(
                    usage(
                        say1(
                            catalog,
                            "do not pass `--role {0}` together with `--to`",
                            x.as_str().to_owned(),
                        ),
                    ),
                )
            } else {
                Ok(x)
            }
        },
    }
}

/// A checked `tun up`.
#[derive(Debug)]
pub struct UpPlan {
    pub role: Role,
    pub to: Option<String>,
    pub foreground: bool,
    pub system: bool,
    pub tun_ip: Option<Ipv4Addr>,
    pub tun_ip6: Option<Ipv6Addr>,
    pub mtu: u16,
    /// Who may join; `None` is everyone.
    pub allow: Option<Vec<EndpointId>>,
    pub to_addr: Vec<SocketAddr>,
    pub hidden: bool,
    /// The user is to be told to pin the identity.
    pub warn_identity: bool,
}

/// The allow list of a request.
pub open spec fn allow_of(req: UpRequest, env: Option<String>) -> Seq<Seq<char>> {
    allowed(
        texts(req.allow@),
        match env {
            Some(s) => Some(s@),
            None => None,
        },
    )
}

/// Why a `tun up` is refused, if it is: the error's chain of texts and exit
/// codes. The first reason counts.
pub open spec fn up_refusal(
    catalog: Map<Seq<char>, Seq<char>>,
    req: UpRequest,
    env: Option<String>,
) -> Option<Seq<(Seq<char>, Option<i32>)>> {
    let role = up_role(catalog, req.role, req.to is Some);
    let allow = allow_of(req, env);
    if req.mtu > MAX_MTU {
        Some(seq![(mtu_refusal(catalog, req.mtu), None::<i32>)])
    } else if role is Err {
        Some(seq![(role->Err_0, Some(exit::USAGE))])
    } else if first_bad_id(allow) is Some {
        Some(
            seq![
                (allow_refusal(catalog, allow), Some(exit::USAGE)),
                (allow_cause(allow), None::<i32>),
            ],
        )
    } else if req.hidden && role->Ok_0 != Role::Spoke {
        Some(
            seq![
                (
                    looked_up(catalog, "`--hidden` is only valid for spoke / `tun join`"@),
                    Some(exit::USAGE),
                ),
            ],
        )
    } else if req.system && !req.foreground {
        Some(
            seq![
                (
                    looked_up(
                        catalog,
                        "`tun up --system` requires `--foreground` (supervisor-managed services must not self-daemonize)"@,
                    ),
                    Some(exit::USAGE),
                ),
            ],
        )
    } else {
        None
    }
}

/// Checks a `tun up`. `pinned` is whether the identity is one that will stay:
/// named on the command line, or meant not to.
pub fn plan_up(catalog: &Catalog, req: UpRequest, env: &Option<String>, pinned: bool) -> (r: Result<
    UpPlan,
    Error,
>)
    ensures
        match up_refusal(catalog@, req, *env) {
            Some(chain) => r is Err && r->Err_0.wf() && r->Err_0@ == chain,
            None => {
                &&& r is Ok
                &&& r->Ok_0.role == up_role(catalog@, req.role, req.to is Some)->Ok_0
                &&& r->Ok_0.to == req.to
                &&& r->Ok_0.foreground == req.foreground
                &&& r->Ok_0.system == req.system
                &&& r->Ok_0.tun_ip == req.tun_ip
                &&& r->Ok_0.tun_ip6 == req.tun_ip6
                &&& r->Ok_0.mtu == req.mtu
                &&& match r->Ok_0.allow {
                    Some(ids) => allow_of(req, *env).len() > 0 && id_views(ids@) == allow_ids(
                        allow_of(req, *env),
                    ),
                    None => allow_of(req, *env).len() == 0,
                }
                &&& r->Ok_0.to_addr == req.to_addr
                &&& r->Ok_0.hidden == req.hidden
                &&& r->Ok_0.warn_identity == (req.system && !pinned)
            },
        },
{
    match validate_mtu(catalog, req.mtu) {
        Err(e) => {
            return Err(e);
        },
        Ok(_) => {},
    }
    let role = match resolve_up_role(catalog, req.role, req.to.is_some()) {
        Err(e) => {
            return Err(e);
        },
        Ok(x) => x,
    };
    let list = merge_allow_list(req.allow, env);
    proof {
        lemma_no_bad_id_in_none();
        if list@.len() == 0 {
            assert(texts(list@) =~= Seq::empty());
        }
    }
    let allow = match parse_tun_allow(catalog, &list) {
        Err(e) => {
            return Err(e);
        },
        Ok(x) => x,
    };
    if req.hidden && role != Role::Spoke {
        return Err(usage(lookup(catalog, "`--hidden` is only valid for spoke / `tun join`")));
    }
    if req.system && !req.foreground {
        return Err(
            usage(
                lookup(
                    catalog,
                    "`tun up --system` requires `--foreground` (supervisor-managed services must not self-daemonize)",
                ),
            ),
        );
    }
    Ok(
        UpPlan {
            role,
            to: req.to,
            foreground: req.foreground,
            system: req.system,
            tun_ip: req.tun_ip,
            tun_ip6: req.tun_ip6,
            mtu: req.mtu,
            allow,
            to_addr: req.to_addr,
            hidden: req.hidden,
            warn_identity: req.system && !pinned,
        },
    )
}

proof fn lemma_no_bad_id_in_none()
    ensures
        first_bad_id(Seq::empty()) is None,
{
}

/// What the user is told to do about the identity of a system service.
pub fn identity_note(catalog: &Catalog) -> (r: String)
    ensures
        r@ == looked_up(
            catalog@,
            "system mode: pin identity with --identity (e.g. /etc/link-p2p/identity.key); the service account config dir may otherwise get a new key"@,
        ),
{
    lookup(
        catalog,
        "system mode: pin identity with --identity (e.g. /etc/link-p2p/identity.key); the service account config dir may otherwise get a new key",
    )
}

/// The mesh to run in this process.
#[derive(Debug)]
pub struct MeshRun {
    pub role: Role,
    /// The hub, for a spoke.
    pub to: Option<PeerTo>,
    pub tun_ip: Option<Ipv4Addr>,
    pub tun_ip6: Option<Ipv6Addr>,
    pub mtu: u16,
    pub allow: Option<Vec<EndpointId>>,
    pub to_addr: Vec<SocketAddr>,
    pub hidden: bool,
    /// Under a supervisor, with the paths of a system service.
    pub supervised: bool,
}

/// What a checked `tun up` does.
#[derive(Debug)]
pub enum UpAction {
    Run(MeshRun),
    /// As a daemon; the allow list is as text again.
    Background {
        role: Role,
        to: Option<String>,
        tun_ip: Option<Ipv4Addr>,
        tun_ip6: Option<Ipv6Addr>,
        mtu: u16,
        allow: Vec<String>,
        hidden: bool,
    },
}

/// The texts of the allowed ids.
pub open spec fn allow_texts(allow: Option<Vec<EndpointId>>) -> Seq<Seq<char>> {
    match allow {
        Some(ids) => id_views(ids@).map_values(|b: Seq<u8>| hex_of(b)),
        None => Seq::empty(),
    }
}

fn id_texts(allow: &Option<Vec<EndpointId>>) -> (r: Vec<String>)
    ensures
        texts(r@) == allow_texts(*allow),
{
    let mut out: Vec<String> = Vec::new();
    match allow {
        Some(ids) => {
            let mut i: usize = 0;
            while i < ids.len()
                invariant
                    i <= ids@.len(),
                    out@.len() == i,
                    forall|j: int| 0 <= j < i ==> (#[trigger] out@[j])@ == hex_of(ids@[j]@),
                decreases ids@.len() - i,
            {
                out.push(ids[i].to_text());
                i = i + 1;
            }
            proof {
                assert(texts(out@) =~= allow_texts(*allow));
            }
        },
        None => {
            proof {
                assert(texts(out@) =~= allow_texts(*allow));
            }
        },
    }
    out
}

/// What a checked `tun up` does: in the foreground a spoke's hub is named or
/// read from stdin; otherwise a daemon is started.
pub fn up_action(catalog: &Catalog, plan: UpPlan, unix: bool) -> (r: Result<UpAction, Error>)
    ensures
        if !plan.foreground {
            &&& r matches Ok(UpAction::Background { role, to, tun_ip, tun_ip6, mtu, allow, hidden })
            &&& role == plan.role
            &&& to == plan.to
            &&& tun_ip == plan.tun_ip
            &&& tun_ip6 == plan.tun_ip6
            &&& mtu == plan.mtu
            &&& texts(allow@) == allow_texts(plan.allow)
            &&& hidden == plan.hidden
        } else if plan.role == Role::Spoke && peer_choice(catalog@, plan.to, false, unix) is Err {
            r is Err && says(
                r->Err_0,
                peer_choice(catalog@, plan.to, false, unix)->Err_0,
                Some(exit::USAGE),
            )
        } else {
            &&& r matches Ok(UpAction::Run(m))
            &&& m.role == plan.role
            &&& match m.to {
                Some(p) => plan.role == Role::Spoke && peer_choice(
                    catalog@,
                    plan.to,
                    false,
                    unix,
                ) == Ok::<Option<Seq<char>>, Seq<char>>(p.name()),
                None => plan.role != Role::Spoke,
            }
            &&& m.tun_ip == plan.tun_ip
            &&& m.tun_ip6 == plan.tun_ip6
            &&& m.mtu == plan.mtu
            &&& m.allow == plan.allow
            &&& m.to_addr == plan.to_addr
            &&& m.hidden == plan.hidden
            &&& m.supervised == plan.system
        },
{
    if !plan.foreground {
        let allow = id_texts(&plan.allow);
        return Ok(
            UpAction::Background {
                role: plan.role,
                to: plan.to,
                tun_ip: plan.tun_ip,
                tun_ip6: plan.tun_ip6,
                mtu: plan.mtu,
                allow,
                hidden: plan.hidden,
            },
        );
    }
    let to = if plan.role == Role::Spoke {
        match resolve_peer_to(catalog, plan.to, false, unix) {
            Ok(p) => Some(p),
            Err(e) => {
                return Err(e);
            },
        }
    } else {
        None
    };
    Ok(
        UpAction::Run(
            MeshRun {
                role: plan.role,
                to,
                tun_ip: plan.tun_ip,
                tun_ip6: plan.tun_ip6,
                mtu: plan.mtu,
                allow: plan.allow,
                to_addr: plan.to_addr,
                hidden: plan.hidden,
                supervised: plan.system,
            },
        ),
    )
}

/// `tun serve`: a hub in the foreground. Its options are checked as those of
/// `tun up` are, in the same order.
pub fn plan_serve(
    catalog: &Catalog,
    tun_ip: Option<Ipv4Addr>,
    tun_ip6: Option<Ipv6Addr>,
    mtu: u16,
    allow: Vec<String>,
    env: &Option<String>,
) -> (r: Result<MeshRun, Error>)
    ensures
        ({
            let list = allowed(
                texts(allow@),
                match *env {
                    Some(s) => Some(s@),
                    None => None,
                },
            );
            if mtu > MAX_MTU {
                r is Err && says(r->Err_0, mtu_refusal(catalog@, mtu), None)
            } else if first_bad_id(list) is Some {
                r is Err && says_because(
                    r->Err_0,
                    allow_refusal(catalog@, list),
                    Some(exit::USAGE),
                    allow_cause(list),
                )
            } else {
                &&& r matches Ok(m)
                &&& m.role == Role::Hub
                &&& m.to is None
                &&& m.tun_ip == tun_ip
                &&& m.tun_ip6 == tun_ip6
                &&& m.mtu == mtu
                &&& match m.allow {
                    Some(ids) => list.len() > 0 && id_views(ids@) == allow_ids(list),
                    None => list.len() == 0,
                }
                &&& m.to_addr@.len() == 0
                &&& !m.hidden
                &&& !m.supervised
            }
        }),
{
    match validate_mtu(catalog, mtu) {
        Err(e) => {
            return Err(e);
        },
        Ok(_) => {},
    }
    let list = merge_allow_list(allow, env);
    proof {
        lemma_no_bad_id_in_none();
        if list@.len() == 0 {
            assert(texts(list@) =~= Seq::empty());
        }
    }
    let allow = match parse_tun_allow(catalog, &list) {
        Err(e) => {
            return Err(e);
        },
        Ok(x) => x,
    };
    Ok(
        MeshRun {
            role: Role::Hub,
            to: None,
            tun_ip,
            tun_ip6,
            mtu,
            allow,
            to_addr: Vec::new(),
            hidden: false,
            supervised: false,
        },
    )
}

/// The options of `tun connect`.
#[derive(Debug)]
pub struct ConnectRequest {
    pub to: Option<String>,
    pub tun_ip: Option<Ipv4Addr>,
    pub tun_ip6: Option<Ipv6Addr>,
    pub mtu: u16,
    pub to_addr: Vec<SocketAddr>,
    pub allow: Vec<String>,
    pub hidden: bool,
}

/// `tun connect`: a spoke in the foreground. The hub's name is checked before
/// the allow list.
pub fn plan_connect(catalog: &Catalog, req: ConnectRequest, env: &Option<String>, unix: bool) -> (r:
    Result<MeshRun, Error>)
    ensures
        ({
            let list = allowed(
                texts(req.allow@),
                match *env {
                    Some(s) => Some(s@),
                    None => None,
                },
            );
            let hub = peer_choice(catalog@, req.to, false, unix);
            if req.mtu > MAX_MTU {
                r is Err && says(r->Err_0, mtu_refusal(catalog@, req.mtu), None)
            } else if hub is Err {
                r is Err && says(r->Err_0, hub->Err_0, Some(exit::USAGE))
            } else if first_bad_id(list) is Some {
                r is Err && says_because(
                    r->Err_0,
                    allow_refusal(catalog@, list),
                    Some(exit::USAGE),
                    allow_cause(list),
                )
            } else {
                &&& r matches Ok(m)
                &&& m.role == Role::Spoke
                &&& m.to is Some
                &&& m.to->0.name() == hub->Ok_0
                &&& m.tun_ip == req.tun_ip
                &&& m.tun_ip6 == req.tun_ip6
                &&& m.mtu == req.mtu
                &&& match m.allow {
                    Some(ids) => list.len() > 0 && id_views(ids@) == allow_ids(list),
                    None => list.len() == 0,
                }
                &&& m.to_addr == req.to_addr
                &&& m.hidden == req.hidden
                &&& !m.supervised
            }
        }),
{
    match validate_mtu(catalog, req.mtu) {
        Err(e) => {
            return Err(e);
        },
        Ok(_) => {},
    }
    let to = match resolve_peer_to(catalog, req.to, false, unix) {
        Err(e) => {
            return Err(e);
        },
        Ok(p) => p,
    };
    let list = merge_allow_list(req.allow, env);
    proof {
        lemma_no_bad_id_in_none();
        if list@.len() == 0 {
            assert(texts(list@) =~= Seq::empty());
        }
    }
    let allow = match parse_tun_allow(catalog, &list) {
        Err(e) => {
            return Err(e);
        },
        Ok(x) => x,
    };
    Ok(
        MeshRun {
            role: Role::Spoke,
            to: Some(to),
            tun_ip: req.tun_ip,
            tun_ip6: req.tun_ip6,
            mtu: req.mtu,
            allow,
            to_addr: req.to_addr,
            hidden: req.hidden,
            supervised: false,
        },
    )
}

/// What `tun call` asks of the daemon.
#[derive(Debug)]
pub enum TunCall {
    Accept(String),
    Reject(String),
    Dial(String),
}

/// Reads the words behind `tun call`: `accept` or `reject` and a peer, or a
/// peer to dial.
pub fn parse_tun_call(catalog: &Catalog, args: &Vec<String>) -> (r: Result<TunCall, Error>)
    ensures
        if args@.len() == 2 && args@[0]@ == "accept"@ {
            r matches Ok(TunCall::Accept(p)) && p@ == args@[1]@
        } else if args@.len() == 2 && args@[0]@ == "reject"@ {
            r matches Ok(TunCall::Reject(p)) && p@ == args@[1]@
        } else if args@.len() == 1 {
            r matches Ok(TunCall::Dial(p)) && p@ == args@[0]@
        } else {
            r is Err && says(
                r->Err_0,
                looked_up(
                    catalog@,
                    "usage: tun call <peer> | tun call accept <peer> | tun call reject <peer>"@,
                ),
                Some(exit::USAGE),
            )
        },
{
    if args.len() == 2 && same_text(args[0].as_str(), "accept") {
        return Ok(TunCall::Accept(args[1].clone()));
    }
    if args.len() == 2 && same_text(args[0].as_str(), "reject") {
        return Ok(TunCall::Reject(args[1].clone()));
    }
    if args.len() == 1 {
        return Ok(TunCall::Dial(args[0].clone()));
    }
    Err(
        usage(
            lookup(
                catalog,
                "usage: tun call <peer> | tun call accept <peer> | tun call reject <peer>",
            ),
        ),
    )
}

/// `tun serve` is `tun up --foreground --role hub`, and `tun join` a spoke of
/// its hub: they end in the same role as the `tun up` that they stand for.
pub proof fn law_aliases_have_their_role(catalog: Map<Seq<char>, Seq<char>>)
    ensures
        up_role(catalog, Some(Role::Hub), false) == Ok::<Role, Seq<char>>(Role::Hub),
        up_role(catalog, Some(Role::Spoke), true) == Ok::<Role, Seq<char>>(Role::Spoke),
        up_role(catalog, None, true) == up_role(catalog, Some(Role::Spoke), true),
        up_role(catalog, None, false) == up_role(catalog, Some(Role::Hub), false),
{
}

/// A node with a hub to join is a spoke, and one without is a hub, unless a
/// role is asked for; then only a spoke has a hub to join, and it must have one.
pub proof fn law_spokes_have_a_hub(
    catalog: Catalog,
    role: Option<Role>,
    has_to: bool,
    r: Result<Role, Error>,
)
    requires
        call_ensures(resolve_up_role, (&catalog, role, has_to), r),
    ensures
        role is None ==> r is Ok && (r->Ok_0 == Role::Spoke <==> has_to) && (r->Ok_0 == Role::Hub
            <==> !has_to),
        role matches Some(x) ==> (r is Ok <==> (x == Role::Spoke) == has_to),
        role is Some && r is Ok ==> r->Ok_0 == role->0,
{
}

/// A `tun up` that is accepted runs as it was asked: with a packet size of at
/// most 1280, hidden only as a spoke, and under a supervisor only in the
/// foreground; nothing of the request is changed.
pub proof fn law_accepted_requests_run_as_asked(
    catalog: Catalog,
    req: UpRequest,
    env: Option<String>,
    pinned: bool,
    r: Result<UpPlan, Error>,
)
    requires
        call_ensures(plan_up, (&catalog, req, &env, pinned), r),
    ensures
        req.mtu > 1280 ==> r is Err,
        req.role == Some(Role::Spoke) && req.to is None ==> r is Err,
        req.role is Some && req.role != Some(Role::Spoke) && req.to is Some ==> r is Err,
        req.hidden && req.to is None ==> r is Err,
        req.system && !req.foreground ==> r is Err,
        r matches Ok(p) ==> {
            &&& p.mtu == req.mtu && p.to == req.to && p.to_addr == req.to_addr
            &&& p.tun_ip == req.tun_ip && p.tun_ip6 == req.tun_ip6
            &&& p.foreground == req.foreground && p.system == req.system && p.hidden == req.hidden
            &&& req.role is None ==> (p.role == Role::Spoke <==> req.to is Some)
            &&& req.role is Some ==> p.role == req.role->0
            &&& p.warn_identity <==> req.system && !pinned
        },
{
}

/// `tun call` with one word dials it; with a verb and a word it answers or
/// refuses that; everything else is an error.
pub proof fn law_tun_call_names_one_peer(
    catalog: Catalog,
    args: Vec<String>,
    r: Result<TunCall, Error>,
)
    requires
        call_ensures(parse_tun_call, (&catalog, &args), r),
    ensures
        args@.len() == 1 ==> (r matches Ok(TunCall::Dial(p)) && p@ == args@[0]@),
        r matches Ok(TunCall::Accept(p)) ==> args@.len() == 2 && args@[0]@ == "accept"@ && p@
            == args@[1]@,
        r matches Ok(TunCall::Reject(p)) ==> args@.len() == 2 && args@[0]@ == "reject"@ && p@
            == args@[1]@,
        r is Ok <==> args@.len() == 1 || (args@.len() == 2 && (args@[0]@ == "accept"@
            || args@[0]@ == "reject"@)),
{
}

} // verus!
