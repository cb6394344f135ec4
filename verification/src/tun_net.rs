//! The commands that set up the interface and its routes, and how their
//! output is read.

use vstd::prelude::*;
use crate::exit::{says, Error};
use crate::i18n::{listed, from_utf8_lossy, lossy_text, said, say1, say2, say3, Catalog};
use crate::net::Ipv4Addr;
use crate::text::{
    chars_of, decimal, decimal_of, join, join_of, lower_all, same_text, split, split_of, texts,
    to_lower, trim, trim_of,
};

verus! {

/// The mesh's range, which spokes route into the interface.
pub const VIP_PREFIX: &'static str = "172.24.0.0/16";

/// The systems that have a backend.
#[derive(Clone, Copy, Debug, PartialEq, Eq, Structural)]
pub enum Platform {
    Linux,
    MacOs,
    Windows,
}

/// A command and its arguments.
#[derive(Debug)]
pub struct Cmd {
    pub bin: String,
    pub args: Vec<String>,
}

impl View for Cmd {
    type V = (Seq<char>, Seq<Seq<char>>);

    open spec fn view(&self) -> (Seq<char>, Seq<Seq<char>>) {
        (self.bin@, texts(self.args@))
    }
}

impl Cmd {
    /// A command without arguments.
    pub fn new(bin: &str) -> (r: Cmd)
        ensures
            r@ == (bin@, Seq::<Seq<char>>::empty()),
    {
        let r = Cmd { bin: bin.to_owned(), args: Vec::new() };
        proof {
            assert(texts(r.args@) =~= Seq::<Seq<char>>::empty());
        }
        r
    }

    /// The command with one more argument.
    pub fn arg(self, a: &str) -> (r: Cmd)
        ensures
            r@ == (self@.0, self@.1.push(a@)),
    {
        let ghost before = texts(self.args@);
        let bin = self.bin;
        let mut args = self.args;
        args.push(a.to_owned());
        proof {
            assert(texts(args@) =~= before.push(a@));
        }
        Cmd { bin, args }
    }
}

/// A change of the routing table: `before` runs first and may fail; where
/// `main` fails and there is a `cleanup`, that runs, may fail, and `main` is
/// tried once more.
#[derive(Debug)]
pub struct RouteChange {
    pub before: Option<Cmd>,
    pub main: Cmd,
    pub cleanup: Option<Cmd>,
}

/// What comes after the main command of a route change.
#[derive(Clone, Copy, Debug, PartialEq, Eq, Structural)]
pub enum RouteNext {
    /// The route is changed.
    Done,
    /// Run the cleanup, whatever comes of it, and the main command again.
    CleanUpAndRetry,
    /// Report what the main command said.
    Fail,
}

/// What comes after the main command has run; `tried` is how often it has,
/// this time included. A failed one is tried once more where there is a
/// cleanup.
pub fn after_main(change: &RouteChange, worked: bool, tried: u8) -> (r: RouteNext)
    ensures
        r == (if worked {
            RouteNext::Done
        } else if change.cleanup is Some && tried <= 1 {
            RouteNext::CleanUpAndRetry
        } else {
            RouteNext::Fail
        }),
{
    if worked {
        RouteNext::Done
    } else if change.cleanup.is_some() && tried <= 1 {
        RouteNext::CleanUpAndRetry
    } else {
        RouteNext::Fail
    }
}

/// An address with its prefix length.
pub open spec fn host_route(vip: Ipv4Addr) -> Seq<char> {
    vip.shown() + "/32"@
}

fn host_text(vip: Ipv4Addr) -> (r: String)
    ensures
        r@ == host_route(vip),
{
    let mut out = vip.to_text();
    out.append("/32");
    out
}

/// What Linux runs once the interface is created: its address, its packet
/// size, and up. Elsewhere the interface is created with these.
pub fn device_setup(name: &str, vip: Ipv4Addr, mtu: u16) -> (r: (Cmd, Cmd, Cmd))
    ensures
        r.0@ == ("ip"@, seq!["addr"@, "add"@, host_route(vip), "dev"@, name@]),
        r.1@ == ("ip"@, seq!["link"@, "set"@, "dev"@, name@, "mtu"@, decimal_of(mtu as nat)]),
        r.2@ == ("ip"@, seq!["link"@, "set"@, "dev"@, name@, "up"@]),
{
    let addr = Cmd::new("ip").arg("addr").arg("add").arg(host_text(vip).as_str()).arg("dev").arg(
        name,
    );
    let size = Cmd::new("ip").arg("link").arg("set").arg("dev").arg(name).arg("mtu").arg(
        decimal(mtu as u64).as_str(),
    );
    let up = Cmd::new("ip").arg("link").arg("set").arg("dev").arg(name).arg("up");
    (addr, size, up)
}

/// The command that changes the interface's packet size.
pub fn set_tun_mtu(platform: Platform, name: &str, mtu: u16) -> (r: Cmd)
    ensures
        r@ == (match platform {
            Platform::Linux => (
                "ip"@,
                seq!["link"@, "set"@, "dev"@, name@, "mtu"@, decimal_of(mtu as nat)],
            ),
            Platform::MacOs => ("ifconfig"@, seq![name@, "mtu"@, decimal_of(mtu as nat)]),
            Platform::Windows => (
                "netsh"@,
                seq![
                    "interface"@,
                    "ipv4"@,
                    "set"@,
                    "subinterface"@,
                    name@,
                    "mtu="@ + decimal_of(mtu as nat),
                    "store=active"@,
                ],
            ),
        }),
{
    let size = decimal(mtu as u64);
    match platform {
        Platform::Linux => Cmd::new("ip").arg("link").arg("set").arg("dev").arg(name).arg(
            "mtu",
        ).arg(size.as_str()),
        Platform::MacOs => Cmd::new("ifconfig").arg(name).arg("mtu").arg(size.as_str()),
        Platform::Windows => {
            let mut setting = "mtu=".to_owned();
            setting.append(size.as_str());
            Cmd::new("netsh").arg("interface").arg("ipv4").arg("set").arg("subinterface").arg(
                name,
            ).arg(setting.as_str()).arg("store=active")
        },
    }
}

/// The command that routes an address into the interface.
pub open spec fn peer_route(platform: Platform, name: Seq<char>, vip: Ipv4Addr) -> (
    Seq<char>,
    Seq<Seq<char>>,
) {
    match platform {
        Platform::Linux => ("ip"@, seq!["route"@, "replace"@, host_route(vip), "dev"@, name]),
        Platform::MacOs => (
            "route"@,
            seq!["-n"@, "add"@, "-host"@, vip.shown(), "-interface"@, name],
        ),
        Platform::Windows => (
            "netsh"@,
            seq![
                "interface"@,
                "ipv4"@,
                "add"@,
                "route"@,
                host_route(vip),
                name,
                "store=active"@,
            ],
        ),
    }
}

/// The command that takes an address's route away again.
pub open spec fn peer_unroute(platform: Platform, name: Seq<char>, vip: Ipv4Addr) -> (
    Seq<char>,
    Seq<Seq<char>>,
) {
    match platform {
        Platform::Linux => ("ip"@, seq!["route"@, "del"@, host_route(vip), "dev"@, name]),
        Platform::MacOs => ("route"@, seq!["-n"@, "delete"@, "-host"@, vip.shown()]),
        Platform::Windows => (
            "netsh"@,
            seq!["interface"@, "ipv4"@, "delete"@, "route"@, host_route(vip), name],
        ),
    }
}

/// Routes a peer's address into the interface. On Linux an older route is
/// replaced; elsewhere it is deleted where adding fails.
pub fn add_peer_route(platform: Platform, name: &str, vip: Ipv4Addr) -> (r: RouteChange)
    ensures
        r.before is None,
        r.main@ == peer_route(platform, name@, vip),
        match r.cleanup {
            Some(c) => platform != Platform::Linux && c@ == peer_unroute(platform, name@, vip),
            None => platform == Platform::Linux,
        },
{
    let main = match platform {
        Platform::Linux => Cmd::new("ip").arg("route").arg("replace").arg(
            host_text(vip).as_str(),
        ).arg("dev").arg(name),
        Platform::MacOs => Cmd::new("route").arg("-n").arg("add").arg("-host").arg(
            vip.to_text().as_str(),
        ).arg("-interface").arg(name),
        Platform::Windows => Cmd::new("netsh").arg("interface").arg("ipv4").arg("add").arg(
            "route",
        ).arg(host_text(vip).as_str()).arg(name).arg("store=active"),
    };
    let cleanup = match platform {
        Platform::Linux => None,
        _ => Some(del_peer_route(platform, name, vip)),
    };
    RouteChange { before: None, main, cleanup }
}

/// The command that takes a peer's route away again.
pub fn del_peer_route(platform: Platform, name: &str, vip: Ipv4Addr) -> (r: Cmd)
    ensures
        r@ == peer_unroute(platform, name@, vip),
{
    match platform {
        Platform::Linux => Cmd::new("ip").arg("route").arg("del").arg(host_text(vip).as_str()).arg(
            "dev",
        ).arg(name),
        Platform::MacOs => Cmd::new("route").arg("-n").arg("delete").arg("-host").arg(
            vip.to_text().as_str(),
        ),
        Platform::Windows => Cmd::new("netsh").arg("interface").arg("ipv4").arg("delete").arg(
            "route",
        ).arg(host_text(vip).as_str()).arg(name),
    }
}

/// The command that takes the mesh's route away again.
pub open spec fn mesh_unroute(platform: Platform, name: Seq<char>) -> (Seq<char>, Seq<Seq<char>>) {
    match platform {
        Platform::Linux => ("ip"@, seq!["route"@, "del"@, VIP_PREFIX@, "dev"@, name]),
        Platform::MacOs => ("route"@, seq!["-n"@, "delete"@, "-net"@, VIP_PREFIX@]),
        Platform::Windows => (
            "netsh"@,
            seq!["interface"@, "ipv4"@, "delete"@, "route"@, VIP_PREFIX@, name],
        ),
    }
}

/// Routes the whole mesh into the interface, so that a spoke's packets for
/// any peer are seen.
pub fn add_mesh_route(platform: Platform, name: &str) -> (r: RouteChange)
    ensures
        r.main@ == (match platform {
            Platform::Linux => ("ip"@, seq!["route"@, "replace"@, VIP_PREFIX@, "dev"@, name@]),
            Platform::MacOs => (
                "route"@,
                seq!["-n"@, "add"@, "-net"@, VIP_PREFIX@, "-interface"@, name@],
            ),
            Platform::Windows => (
                "netsh"@,
                seq![
                    "interface"@,
                    "ipv4"@,
                    "add"@,
                    "route"@,
                    VIP_PREFIX@,
                    name@,
                    "store=active"@,
                ],
            ),
        }),
        match r.before {
            Some(c) => platform == Platform::MacOs && c@ == mesh_unroute(platform, name@),
            None => platform != Platform::MacOs,
        },
        match r.cleanup {
            Some(c) => platform == Platform::Windows && c@ == mesh_unroute(platform, name@),
            None => platform != Platform::Windows,
        },
{
    match platform {
        Platform::Linux => RouteChange {
            before: None,
            main: Cmd::new("ip").arg("route").arg("replace").arg(VIP_PREFIX).arg("dev").arg(name),
            cleanup: None,
        },
        Platform::MacOs => RouteChange {
            before: Some(del_mesh_route(platform, name)),
            main: Cmd::new("route").arg("-n").arg("add").arg("-net").arg(VIP_PREFIX).arg(
                "-interface",
            ).arg(name),
            cleanup: None,
        },
        Platform::Windows => RouteChange {
            before: None,
            main: Cmd::new("netsh").arg("interface").arg("ipv4").arg("add").arg("route").arg(
                VIP_PREFIX,
            ).arg(name).arg("store=active"),
            cleanup: Some(del_mesh_route(platform, name)),
        },
    }
}

/// The command that takes the mesh's route away again.
pub fn del_mesh_route(platform: Platform, name: &str) -> (r: Cmd)
    ensures
        r@ == mesh_unroute(platform, name@),
{
    match platform {
        Platform::Linux => Cmd::new("ip").arg("route").arg("del").arg(VIP_PREFIX).arg("dev").arg(
            name,
        ),
        Platform::MacOs => Cmd::new("route").arg("-n").arg("delete").arg("-net").arg(VIP_PREFIX),
        Platform::Windows => Cmd::new("netsh").arg("interface").arg("ipv4").arg("delete").arg(
            "route",
        ).arg(VIP_PREFIX).arg(name),
    }
}

/// What is said where a command could not be started.
pub fn running_message(catalog: &Catalog, platform: Platform, cmd: &Cmd) -> (r: String)
    ensures
        r@ == (if platform == Platform::Linux {
            said(catalog@, "running `ip {0}`"@, seq![join_of(cmd@.1, " "@)])
        } else {
            said(catalog@, "running `{0} {1}`"@, seq![cmd@.0, join_of(cmd@.1, " "@)])
        }),
{
    let args = join(&cmd.args, " ");
    match platform {
        Platform::Linux => say1(catalog, "running `ip {0}`", args),
        _ => say2(catalog, "running `{0} {1}`", cmd.bin.clone(), args),
    }
}

/// What a failed command printed: its standard error, on Linux in any case,
/// elsewhere its standard output where that is empty.
pub open spec fn complaint(platform: Platform, stdout: Seq<u8>, stderr: Seq<u8>) -> Seq<char> {
    if platform != Platform::Linux && stderr.len() == 0 {
        trim_of(lossy_text(stdout))
    } else {
        trim_of(lossy_text(stderr))
    }
}

/// The error of a command that failed.
pub fn command_failed(
    catalog: &Catalog,
    platform: Platform,
    cmd: &Cmd,
    stdout: &[u8],
    stderr: &[u8],
) -> (r: Error)
    ensures
        says(
            r,
            if platform == Platform::Linux {
                said(
                    catalog@,
                    "command `ip {0}` failed: {1}"@,
                    seq![join_of(cmd@.1, " "@), complaint(platform, stdout@, stderr@)],
                )
            } else {
                said(
                    catalog@,
                    "command `{0} {1}` failed: {2}"@,
                    seq![cmd@.0, join_of(cmd@.1, " "@), complaint(platform, stdout@, stderr@)],
                )
            },
            None,
        ),
{
    let args = join(&cmd.args, " ");
    match platform {
        Platform::Linux => {
            let said = from_utf8_lossy(stderr);
            let why = trim(said.as_str());
            Error::msg(say2(catalog, "command `ip {0}` failed: {1}", args, why))
        },
        _ => {
            let said = if stderr.len() == 0 {
                from_utf8_lossy(stdout)
            } else {
                from_utf8_lossy(stderr)
            };
            let why = trim(said.as_str());
            Error::msg(
                say3(catalog, "command `{0} {1}` failed: {2}", cmd.bin.clone(), args, why),
            )
        },
    }
}

/// Whether `p` occurs in `s`.
pub open spec fn occurs(s: Seq<char>, p: Seq<char>) -> bool {
    exists|i: int| #[trigger] occurs_at(s, p, i)
}

/// Whether `p` occurs in `s` at `i`.
pub open spec fn occurs_at(s: Seq<char>, p: Seq<char>, i: int) -> bool {
    0 <= i && i + p.len() <= s.len() && s.subrange(i, i + p.len()) == p
}

fn matches_at(s: &Vec<char>, p: &Vec<char>, i: usize) -> (r: bool)
    requires
        i + p@.len() <= s@.len(),
    ensures
        r == occurs_at(s@, p@, i as int),
{
    let n: usize = p.len();
    let total: usize = s.len();
    let mut k: usize = 0;
    while k < n
        invariant
            k <= n == p@.len(),
            i + n <= total == s@.len(),
            forall|j: int| 0 <= j < k ==> s@[i + j] == p@[j],
        decreases n - k,
    {
        if s[i + k] != p[k] {
            proof {
                assert(s@.subrange(i as int, i + n)[k as int] != p@[k as int]);
            }
            return false;
        }
        k = k + 1;
    }
    proof {
        assert(s@.subrange(i as int, i + n) =~= p@);
    }
    true
}

/// Whether `p` occurs in `s`.
pub fn contains(s: &Vec<char>, p: &Vec<char>) -> (r: bool)
    ensures
        r == occurs(s@, p@),
{
    let n: usize = s.len();
    let m: usize = p.len();
    if m > n {
        return false;
    }
    let mut i: usize = 0;
    while i < n - m
        invariant
            i <= n - m,
            m <= n == s@.len(),
            m == p@.len(),
            forall|j: int| 0 <= j < i ==> !occurs_at(s@, p@, j),
        decreases n - m - i,
    {
        if matches_at(s, p, i) {
            return true;
        }
        i = i + 1;
    }
    matches_at(s, p, n - m)
}

/// The command that lists the addresses of this machine.
pub fn list_addresses(platform: Platform) -> (r: Cmd)
    ensures
        r@ == (match platform {
            Platform::Linux => ("ip"@, seq!["-o"@, "-4"@, "addr"@, "show"@]),
            Platform::MacOs => ("ifconfig"@, seq!["-a"@]),
            Platform::Windows => (
                "netsh"@,
                seq!["interface"@, "ipv4"@, "show"@, "addresses"@],
            ),
        }),
{
    match platform {
        Platform::Linux => Cmd::new("ip").arg("-o").arg("-4").arg("addr").arg("show"),
        Platform::MacOs => Cmd::new("ifconfig").arg("-a"),
        Platform::Windows => Cmd::new("netsh").arg("interface").arg("ipv4").arg("show").arg(
            "addresses",
        ),
    }
}

/// Whether a line of `netsh` gives this address: it names an IP address, and
/// what is behind its last colon is the address.
pub open spec fn netsh_line_gives(line: Seq<char>, vip: Seq<char>) -> bool {
    occurs(lower_all(line), "ip address"@) && trim_of(split_of(line, ':').last()) == vip
}

/// Whether the listing of this machine's addresses holds an address. The
/// needle is padded, so that 172.24.0.2 does not match 172.24.0.20.
pub open spec fn listing_holds(platform: Platform, text: Seq<char>, vip: Seq<char>) -> bool {
    match platform {
        Platform::Linux => occurs(text, " inet "@ + vip + "/"@),
        Platform::MacOs => occurs(text, "inet "@ + vip + " "@),
        Platform::Windows => exists|i: int|
            0 <= i < split_of(text, '\n').len() && netsh_line_gives(
                #[trigger] split_of(text, '\n')[i],
                vip,
            ),
    }
}

/// Whether the listing of this machine's addresses holds an address.
pub fn vip_is_listed(platform: Platform, text: &str, vip: Ipv4Addr) -> (r: bool)
    ensures
        r == listing_holds(platform, text@, vip.shown()),
{
    let shown = vip.to_text();
    match platform {
        Platform::Linux => {
            let mut needle = " inet ".to_owned();
            needle.append(shown.as_str());
            needle.append("/");
            contains(&chars_of(text), &chars_of(needle.as_str()))
        },
        Platform::MacOs => {
            let mut needle = "inet ".to_owned();
            needle.append(shown.as_str());
            needle.append(" ");
            contains(&chars_of(text), &chars_of(needle.as_str()))
        },
        Platform::Windows => {
            let lines = split(text, '\n');
            let ghost all = split_of(text@, '\n');
            let mut i: usize = 0;
            while i < lines.len()
                invariant
                    i <= lines@.len(),
                    platform == Platform::Windows,
                    texts(lines@) == all,
                    all == split_of(text@, '\n'),
                    shown@ == vip.shown(),
                    forall|j: int| 0 <= j < i ==> !netsh_line_gives(#[trigger] all[j], shown@),
                decreases lines@.len() - i,
            {
                proof {
                    assert(all[i as int] == lines@[i as int]@);
                }
                if netsh_gives(lines[i].as_str(), shown.as_str()) {
                    proof {
                        assert(netsh_line_gives(split_of(text@, '\n')[i as int], vip.shown()));
                    }
                    return true;
                }
                i = i + 1;
            }
            false
        },
    }
}

fn netsh_gives(line: &str, vip: &str) -> (r: bool)
    ensures
        r == netsh_line_gives(line@, vip@),
{
    if !contains(&to_lower(line), &chars_of("ip address")) {
        return false;
    }
    let parts = split(line, ':');
    proof {
        crate::text::lemma_split_nonempty(line@, ':');
        assert(texts(parts@).last() == parts@.last()@);
    }
    let value = trim(parts[parts.len() - 1].as_str());
    same_text(value.as_str(), vip)
}

/// What the list of addresses of `Get-NetIPAddress`, one in a line, says of
/// an address; nothing where the command failed or listed none.
pub fn powershell_lists(success: bool, text: &str, vip: Ipv4Addr) -> (r: Option<bool>)
    ensures
        r == (if !success || listed(split_of(text@, '\n')).len() == 0 {
            None
        } else {
            Some(listed(split_of(text@, '\n')).contains(vip.shown()))
        }),
{
    if !success {
        return None;
    }
    let shown = vip.to_text();
    let lines = split(text, '\n');
    let mut any = false;
    let mut found = false;
    let mut i: usize = 0;
    let ghost all = texts(lines@);
    proof {
        assert(all.take(0) =~= Seq::empty());
    }
    while i < lines.len()
        invariant
            i <= lines@.len(),
            all == texts(lines@),
            shown@ == vip.shown(),
            any == (listed(all.take(i as int)).len() > 0),
            found == listed(all.take(i as int)).contains(shown@),
        decreases lines@.len() - i,
    {
        let l = trim(lines[i].as_str());
        proof {
            let next = all.take(i + 1);
            assert(next.drop_last() =~= all.take(i as int));
            assert(next.last() == lines@[i as int]@);
            let before = listed(all.take(i as int));
            if l@.len() > 0 {
                assert(listed(next) == before.push(l@));
                assert(before.push(l@).contains(shown@) == (before.contains(shown@) || l@
                    == shown@)) by {
                    if before.contains(shown@) {
                        let k = choose|k: int| 0 <= k < before.len() && before[k] == shown@;
                        assert(before.push(l@)[k] == shown@);
                    }
                    assert(before.push(l@)[before.len() as int] == l@);
                    if before.push(l@).contains(shown@) && l@ != shown@ {
                        let k = choose|k: int|
                            0 <= k < before.push(l@).len() && before.push(l@)[k] == shown@;
                        assert(before[k] == shown@);
                    }
                }
            }
        }
        if l.as_str().unicode_len() > 0 {
            any = true;
            if same_text(l.as_str(), shown.as_str()) {
                found = true;
            }
        }
        i = i + 1;
    }
    proof {
        assert(all.take(all.len() as int) =~= all);
    }
    if any {
        Some(found)
    } else {
        None
    }
}

/// What is said of an address that this machine has already.
pub fn vip_already_taken(catalog: &Catalog, vip: Ipv4Addr) -> (r: Error)
    ensures
        says(
            r,
            said(
                catalog@,
                "virtual IP {0} is already assigned to a local interface.\nPick a different one with --tun-ip."@,
                seq![vip.shown()],
            ),
            None,
        ),
{
    Error::msg(
        say1(
            catalog,
            "virtual IP {0} is already assigned to a local interface.\nPick a different one with --tun-ip.",
            vip.to_text(),
        ),
    )
}

/// Refuses an address that the listing of this machine's addresses holds.
pub fn ensure_vip_free(
    catalog: &Catalog,
    platform: Platform,
    listing: &[u8],
    vip: Ipv4Addr,
) -> (r: Result<(), Error>)
    ensures
        ({
            let held = listing_holds(platform, lossy_text(listing@), vip.shown());
            match r {
                Ok(_) => !held,
                Err(e) => held && says(
                    e,
                    said(
                        catalog@,
                        "virtual IP {0} is already assigned to a local interface.\nPick a different one with --tun-ip."@,
                        seq![vip.shown()],
                    ),
                    None,
                ),
            }
        }),
{
    let text = from_utf8_lossy(listing);
    if vip_is_listed(platform, text.as_str(), vip) {
        Err(vip_already_taken(catalog, vip))
    } else {
        Ok(())
    }
}

/// A text occurs in another exactly where that is it with something before and
/// something behind.
pub proof fn law_occurrence(s: Vec<char>, p: Vec<char>, r: bool)
    requires
        call_ensures(contains, (&s, &p), r),
    ensures
        r <==> exists|a: Seq<char>, b: Seq<char>| s@ == #[trigger] (a + p@ + b),
{
    lemma_occurs(s@, p@);
}

proof fn lemma_occurs(s: Seq<char>, p: Seq<char>)
    ensures
        occurs(s, p) <==> exists|a: Seq<char>, b: Seq<char>| s == #[trigger] (a + p + b),
{
    if occurs(s, p) {
        let i = choose|i: int| #[trigger] occurs_at(s, p, i);
        let a = s.take(i);
        let b = s.skip(i + p.len());
        assert(s =~= a + p + b);
    }
    if exists|a: Seq<char>, b: Seq<char>| s == #[trigger] (a + p + b) {
        let (a, b) = choose|a: Seq<char>, b: Seq<char>| s == #[trigger] (a + p + b);
        let n = a.len() as int;
        assert(s.subrange(n, n + p.len()) =~= p);
        assert(occurs_at(s, p, n));
    }
}

/// An address that a listing of `ip` or `ifconfig` shows on an interface is
/// taken, whatever stands around it; one that begins like another is not taken
/// for it, since what follows it is part of what is looked for.
pub proof fn law_listed_addresses_are_taken(
    text: &str,
    vip: Ipv4Addr,
    shown: String,
    before: Seq<char>,
    after: Seq<char>,
    linux: bool,
    mac: bool,
)
    requires
        call_ensures(Ipv4Addr::to_text, (&vip,), shown),
        call_ensures(vip_is_listed, (Platform::Linux, text, vip), linux),
        call_ensures(vip_is_listed, (Platform::MacOs, text, vip), mac),
    ensures
        text@ == before + (" inet "@ + shown@ + "/"@) + after ==> linux,
        text@ == before + ("inet "@ + shown@ + " "@) + after ==> mac,
        linux ==> exists|a: Seq<char>, b: Seq<char>|
            text@ == #[trigger] (a + (" inet "@ + shown@ + "/"@) + b),
        mac ==> exists|a: Seq<char>, b: Seq<char>|
            text@ == #[trigger] (a + ("inet "@ + shown@ + " "@) + b),
{
    lemma_occurs(text@, " inet "@ + shown@ + "/"@);
    lemma_occurs(text@, "inet "@ + shown@ + " "@);
}

/// What PowerShell lists settles whether an address is taken where it ran and
/// listed any: it is exactly where a line is the address, white space aside.
pub proof fn law_powershell_settles_it(
    success: bool,
    text: &str,
    vip: Ipv4Addr,
    shown: String,
    lines: Vec<String>,
    r: Option<bool>,
)
    requires
        call_ensures(Ipv4Addr::to_text, (&vip,), shown),
        call_ensures(split, (text, '\n'), lines),
        call_ensures(powershell_lists, (success, text, vip), r),
    ensures
        r is Some <==> success && exists|i: int|
            0 <= i < lines@.len() && trim_of((#[trigger] lines@[i])@).len() > 0,
        shown@.len() > 0 && r is Some ==> (r->0 <==> exists|i: int|
            0 <= i < lines@.len() && trim_of((#[trigger] lines@[i])@) == shown@),
{
    let t = texts(lines@);
    lemma_listed_has(t, shown@);
    if listed(t).len() > 0 {
        lemma_listed_has(t, listed(t)[0]);
        assert(listed(t).contains(listed(t)[0]));
        lemma_listed_nonempty(t, listed(t)[0]);
        let i = choose|i: int| 0 <= i < t.len() && trim_of(#[trigger] t[i]) == listed(t)[0];
        assert(t[i] == lines@[i]@);
        assert(trim_of(lines@[i]@).len() > 0);
    }
    if exists|i: int| 0 <= i < lines@.len() && trim_of((#[trigger] lines@[i])@).len() > 0 {
        let i = choose|i: int| 0 <= i < lines@.len() && trim_of((#[trigger] lines@[i])@).len() > 0;
        assert(t[i] == lines@[i]@);
        lemma_listed_has(t, trim_of(t[i]));
    }
    if listed(t).contains(shown@) {
        let i = choose|i: int| 0 <= i < t.len() && trim_of(#[trigger] t[i]) == shown@;
        assert(t[i] == lines@[i]@);
        assert(trim_of(lines@[i]@) == shown@);
    }
    if exists|i: int| 0 <= i < lines@.len() && trim_of((#[trigger] lines@[i])@) == shown@ {
        let i = choose|i: int| 0 <= i < lines@.len() && trim_of((#[trigger] lines@[i])@) == shown@;
        assert(t[i] == lines@[i]@);
    }
}

proof fn lemma_listed_nonempty(parts: Seq<Seq<char>>, x: Seq<char>)
    requires
        listed(parts).contains(x),
    ensures
        x.len() > 0,
    decreases parts.len(),
{
    if parts.len() > 0 {
        let before = listed(parts.drop_last());
        let now = listed(parts);
        let k = choose|k: int| 0 <= k < now.len() && now[k] == x;
        if k < before.len() {
            assert(before[k] == x);
            lemma_listed_nonempty(parts.drop_last(), x);
        }
    }
}

proof fn lemma_listed_has(parts: Seq<Seq<char>>, x: Seq<char>)
    ensures
        x.len() > 0 ==> (listed(parts).contains(x) <==> exists|i: int|
            0 <= i < parts.len() && trim_of(#[trigger] parts[i]) == x),
    decreases parts.len(),
{
    if parts.len() > 0 && x.len() > 0 {
        let front = parts.drop_last();
        lemma_listed_has(front, x);
        let before = listed(front);
        let now = listed(parts);
        assert(parts[parts.len() - 1] == parts.last());
        if now.contains(x) {
            let k = choose|k: int| 0 <= k < now.len() && now[k] == x;
            if k < before.len() {
                assert(before[k] == x);
                let i = choose|i: int| 0 <= i < front.len() && trim_of(#[trigger] front[i]) == x;
                assert(parts[i] == front[i]);
            }
        }
        if exists|i: int| 0 <= i < parts.len() && trim_of(#[trigger] parts[i]) == x {
            let i = choose|i: int| 0 <= i < parts.len() && trim_of(#[trigger] parts[i]) == x;
            if i < front.len() {
                assert(front[i] == parts[i]);
                let k = choose|k: int| 0 <= k < before.len() && before[k] == x;
                assert(now[k] == x);
            } else {
                assert(now[before.len() as int] == x);
            }
        }
    }
}

/// A change of routes that worked is done, however often it was tried; one that
/// failed is tried a second time after its cleanup, and never a third.
pub proof fn law_routes_are_tried_twice(
    change: RouteChange,
    worked: RouteNext,
    first: RouteNext,
    again: RouteNext,
    tried: u8,
)
    requires
        tried >= 2,
        call_ensures(after_main, (&change, true, tried), worked),
        call_ensures(after_main, (&change, false, 1), first),
        call_ensures(after_main, (&change, false, tried), again),
    ensures
        worked == RouteNext::Done,
        first == RouteNext::CleanUpAndRetry <==> change.cleanup is Some,
        first == RouteNext::Fail <==> change.cleanup is None,
        again == RouteNext::Fail,
{
}

/// On Windows an address is taken where a line names an IP address, in whatever
/// case, and has the address behind its last colon, white space aside.
pub proof fn law_netsh_lines_give_addresses(
    text: &str,
    vip: Ipv4Addr,
    shown: String,
    lines: Vec<String>,
    i: int,
    label: Seq<char>,
    value: Seq<char>,
    r: bool,
)
    requires
        call_ensures(Ipv4Addr::to_text, (&vip,), shown),
        call_ensures(split, (text, '\n'), lines),
        call_ensures(vip_is_listed, (Platform::Windows, text, vip), r),
    ensures
        0 <= i < lines@.len() && lines@[i]@ == label + seq![':'] + value && !value.contains(':')
            && trim_of(value) == shown@ && (exists|a: Seq<char>, b: Seq<char>|
            lower_all(lines@[i]@) == #[trigger] (a + "ip address"@ + b)) ==> r,
        (forall|j: int| 0 <= j < lines@.len() ==> trim_of(
            split_of((#[trigger] lines@[j])@, ':').last(),
        ) != shown@) ==> !r,
{
    let t = split_of(text@, '\n');
    assert(texts(lines@) == t);
    if 0 <= i < lines@.len() && lines@[i]@ == label + seq![':'] + value && !value.contains(':')
        && trim_of(value) == shown@ && (exists|a: Seq<char>, b: Seq<char>|
        lower_all(lines@[i]@) == #[trigger] (a + "ip address"@ + b)) {
        crate::text::lemma_split_behind(label, ':', value);
        lemma_occurs(lower_all(lines@[i]@), "ip address"@);
        assert(t[i] == lines@[i]@);
        assert(netsh_line_gives(t[i], shown@));
    }
    if forall|j: int| 0 <= j < lines@.len() ==> trim_of(
        split_of((#[trigger] lines@[j])@, ':').last(),
    ) != shown@ {
        assert forall|j: int| 0 <= j < t.len() implies !netsh_line_gives(#[trigger] t[j], shown@) by {
            assert(t[j] == lines@[j]@);
        }
    }
}

} // verus!
