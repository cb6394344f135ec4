//! Whether a connection runs directly or through a relay.

use vstd::prelude::*;
use crate::time::Duration;

verus! {

/// Which kind of path carries a connection.
#[derive(Clone, Copy, Debug, PartialEq, Eq, Structural)]
pub enum PathKind {
    /// The selected path is an IP address.
    Direct,
    /// The selected path is a relay, and no IP path is open.
    Relay,
    /// The selected path is a relay, and an IP path is open as well.
    RelayWithDirectCandidate,
    /// No path is open yet.
    Unknown,
}

impl PathKind {
    /// The stable token for logs and JSON.
    pub open spec fn token(self) -> Seq<char> {
        match self {
            PathKind::Direct => "direct"@,
            PathKind::Relay => "relay"@,
            PathKind::RelayWithDirectCandidate => "relay+direct-candidate"@,
            PathKind::Unknown => "unknown"@,
        }
    }

    /// The stable token for logs and JSON.
    pub fn as_str(self) -> (r: &'static str)
        ensures
            r@ == self.token(),
    {
        match self {
            PathKind::Direct => "direct",
            PathKind::Relay => "relay",
            PathKind::RelayWithDirectCandidate => "relay+direct-candidate",
            PathKind::Unknown => "unknown",
        }
    }

    /// Whether the selected path is direct.
    pub fn is_direct(self) -> (r: bool)
        ensures
            r == (self == PathKind::Direct),
    {
        match self {
            PathKind::Direct => true,
            _ => false,
        }
    }
}

/// One open path of a connection.
#[derive(Clone, Copy, Debug, PartialEq, Eq, Structural)]
pub struct PathInfo {
    pub is_ip: bool,
    pub is_relay: bool,
    pub is_selected: bool,
}

/// Whether the selected path is an IP path; of several, the last counts.
pub open spec fn selected_is_ip(paths: Seq<PathInfo>) -> Option<bool>
    decreases paths.len(),
{
    if paths.len() == 0 {
        None
    } else if paths.last().is_selected {
        Some(paths.last().is_ip)
    } else {
        selected_is_ip(paths.drop_last())
    }
}

/// Whether an IP path is open.
pub open spec fn has_ip(paths: Seq<PathInfo>) -> bool {
    exists|i: int| 0 <= i < paths.len() && (#[trigger] paths[i]).is_ip
}

/// Whether a relay path is open.
pub open spec fn has_relay(paths: Seq<PathInfo>) -> bool {
    exists|i: int| 0 <= i < paths.len() && (#[trigger] paths[i]).is_relay
}

/// The kind that a snapshot of paths shows. Without a selected path, what is
/// open decides.
pub open spec fn kind_of(paths: Seq<PathInfo>) -> PathKind {
    match selected_is_ip(paths) {
        Some(true) => PathKind::Direct,
        Some(false) => if has_ip(paths) {
            PathKind::RelayWithDirectCandidate
        } else {
            PathKind::Relay
        },
        None => if has_ip(paths) && has_relay(paths) {
            PathKind::RelayWithDirectCandidate
        } else if has_ip(paths) {
            PathKind::Direct
        } else if has_relay(paths) {
            PathKind::Relay
        } else {
            PathKind::Unknown
        },
    }
}

/// Classifies a snapshot of the open paths.
pub fn path_kind(paths: &Vec<PathInfo>) -> (r: PathKind)
    ensures
        r == kind_of(paths@),
{
    let mut ip: bool = false;
    let mut relay: bool = false;
    let mut selected: Option<bool> = None;
    let mut i: usize = 0;
    while i < paths.len()
        invariant
            i <= paths@.len(),
            selected == selected_is_ip(paths@.take(i as int)),
            ip == (exists|j: int| 0 <= j < i && (#[trigger] paths@[j]).is_ip),
            relay == (exists|j: int| 0 <= j < i && (#[trigger] paths@[j]).is_relay),
        decreases paths@.len() - i,
    {
        let p: PathInfo = paths[i];
        proof {
            assert(paths@.take(i + 1).drop_last() =~= paths@.take(i as int));
        }
        if p.is_ip {
            ip = true;
        }
        if p.is_relay {
            relay = true;
        }
        if p.is_selected {
            selected = Some(p.is_ip);
        }
        i = i + 1;
    }
    proof {
        assert(paths@.take(paths@.len() as int) =~= paths@);
    }
    match selected {
        Some(true) => PathKind::Direct,
        Some(false) => if ip {
            PathKind::RelayWithDirectCandidate
        } else {
            PathKind::Relay
        },
        None => if ip && relay {
            PathKind::RelayWithDirectCandidate
        } else if ip {
            PathKind::Direct
        } else if relay {
            PathKind::Relay
        } else {
            PathKind::Unknown
        },
    }
}

/// Whether waiting for an upgrade to a direct path ends: without a budget at
/// once, else with a direct path or when the budget is used up.
pub fn is_settled(kind: PathKind, waited: Duration, budget: Duration) -> (r: bool)
    ensures
        r == (budget.nanos == 0 || kind == PathKind::Direct || waited.nanos >= budget.nanos),
{
    budget.nanos == 0 || kind.is_direct() || waited.nanos >= budget.nanos
}

proof fn lemma_selected(paths: Seq<PathInfo>, i: int)
    requires
        0 <= i < paths.len(),
        paths[i].is_selected,
        forall|j: int| i < j < paths.len() ==> !(#[trigger] paths[j]).is_selected,
    ensures
        selected_is_ip(paths) == Some(paths[i].is_ip),
    decreases paths.len(),
{
    if i < paths.len() - 1 {
        assert(!paths[paths.len() - 1].is_selected);
        let front = paths.drop_last();
        assert forall|j: int| i < j < front.len() implies !(#[trigger] front[j]).is_selected by {
            assert(!paths[j].is_selected);
        }
        lemma_selected(front, i);
    }
}

/// The path that carries the connection decides, wherever it stands in the
/// list: the connection is direct exactly where the selected path, the last of
/// several, is an IP path. On another path it runs through a relay, and an IP
/// path beside it is noted.
pub proof fn law_selected_path_decides(paths: Vec<PathInfo>, i: int, r: PathKind)
    requires
        call_ensures(path_kind, (&paths,), r),
        0 <= i < paths@.len(),
        paths@[i].is_selected,
        forall|j: int| i < j < paths@.len() ==> !(#[trigger] paths@[j]).is_selected,
    ensures
        r == PathKind::Direct <==> paths@[i].is_ip,
        r == PathKind::RelayWithDirectCandidate <==> !paths@[i].is_ip && exists|j: int|
            0 <= j < paths@.len() && (#[trigger] paths@[j]).is_ip,
        r != PathKind::Unknown,
{
    lemma_selected(paths@, i);
    assert(paths@[i].is_ip ==> has_ip(paths@));
}

/// While no path is selected, what is open decides, in whatever order it is
/// listed: IP paths alone are direct, relays alone are a relay, both are a
/// relay with a candidate, and neither is unknown.
pub proof fn law_open_paths_decide_without_a_selection(paths: Vec<PathInfo>, r: PathKind)
    requires
        call_ensures(path_kind, (&paths,), r),
        forall|j: int| 0 <= j < paths@.len() ==> !(#[trigger] paths@[j]).is_selected,
    ensures
        (r == PathKind::Direct || r == PathKind::RelayWithDirectCandidate) <==> exists|j: int|
            0 <= j < paths@.len() && (#[trigger] paths@[j]).is_ip,
        (r == PathKind::Relay || r == PathKind::RelayWithDirectCandidate) <==> exists|j: int|
            0 <= j < paths@.len() && (#[trigger] paths@[j]).is_relay,
{
    lemma_unselected(paths@);
}

proof fn lemma_unselected(paths: Seq<PathInfo>)
    requires
        forall|j: int| 0 <= j < paths.len() ==> !(#[trigger] paths[j]).is_selected,
    ensures
        selected_is_ip(paths) is None,
    decreases paths.len(),
{
    if paths.len() > 0 {
        let front = paths.drop_last();
        assert(!paths[paths.len() - 1].is_selected);
        assert forall|j: int| 0 <= j < front.len() implies !(#[trigger] front[j]).is_selected by {
            assert(!paths[j].is_selected);
        }
        lemma_unselected(front);
    }
}

/// Waiting for a direct path never outlasts its budget, ends as soon as the
/// path is direct, and does not end before either.
pub proof fn law_settling_ends_direct_or_in_time(
    kind: PathKind,
    waited: Duration,
    budget: Duration,
    r: bool,
)
    requires
        call_ensures(is_settled, (kind, waited, budget), r),
    ensures
        waited.nanos >= budget.nanos ==> r,
        kind == PathKind::Direct ==> r,
        r && waited.nanos < budget.nanos ==> kind == PathKind::Direct,
{
}

} // verus!
