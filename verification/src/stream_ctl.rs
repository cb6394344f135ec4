//! The control protocol between the command line and the call daemon.
//!
//! A frame is `SPC1`, a version byte, the length of the body in four bytes,
//! most significant first, and the body.

use vstd::prelude::*;
use crate::bytes::{
    be32, be32_at, copy_range, lemma_be32_round_trip, push_all, push_be32, read_be32,
};
use crate::config::{config_dir, config_dir_parts, config_file};
use crate::exit;
use crate::exit::Error;
use crate::i18n::{looked_up, lookup, said, say1, say2, Catalog};
use crate::net::SocketAddr;
use crate::paths::Location;
use crate::text::{decimal, decimal_of};

verus! {

/// The protocol version of this program.
pub const CTL_VERSION: u8 = 1;

/// The longest body, in bytes.
pub const CTL_MAX_BODY: u32 = 1_048_576;

/// How long connecting to the daemon may take, in milliseconds.
pub const PROBE_CONNECT_TIMEOUT_MS: u64 = 200;

/// How long the daemon may take to answer, in milliseconds.
pub const CTL_READ_TIMEOUT_MS: u64 = 500;

/// How long a starting daemon may take to get ready, in seconds.
pub const READY_TIMEOUT_SECS: u64 = 30;

/// `SPC1`.
pub open spec fn magic() -> Seq<u8> {
    seq![0x53u8, 0x50, 0x43, 0x31]
}

/// The directory of the daemon's files.
pub fn runtime_dir(xdg_set: bool, home_set: bool) -> (r: Location)
    ensures
        (r.base, r.names()) == config_dir_parts(xdg_set, home_set),
{
    config_dir(xdg_set, home_set)
}

/// The daemon's control socket.
pub fn socket_path(xdg_set: bool, home_set: bool) -> (r: Location)
    ensures
        r.base == config_dir_parts(xdg_set, home_set).0,
        r.names() == config_dir_parts(xdg_set, home_set).1.push("call.sock"@),
{
    config_file(xdg_set, home_set, "call.sock")
}

/// The file that names the running daemon.
pub fn pid_path(xdg_set: bool, home_set: bool) -> (r: Location)
    ensures
        r.base == config_dir_parts(xdg_set, home_set).0,
        r.names() == config_dir_parts(xdg_set, home_set).1.push("call.pid"@),
{
    config_file(xdg_set, home_set, "call.pid")
}

/// The lock that one daemon holds.
pub fn lock_path(xdg_set: bool, home_set: bool) -> (r: Location)
    ensures
        r.base == config_dir_parts(xdg_set, home_set).0,
        r.names() == config_dir_parts(xdg_set, home_set).1.push("call.lock"@),
{
    config_file(xdg_set, home_set, "call.lock")
}

/// The daemon's log.
pub fn log_path(xdg_set: bool, home_set: bool) -> (r: Location)
    ensures
        r.base == config_dir_parts(xdg_set, home_set).0,
        r.names() == config_dir_parts(xdg_set, home_set).1.push("call.log"@),
{
    config_file(xdg_set, home_set, "call.log")
}

/// A call that rings or is being dialed.
#[derive(Debug)]
pub struct PendingCall {
    pub peer: String,
    pub since_unix_ms: u64,
    pub direction: String,
}

/// A peer with a connected session.
#[derive(Debug)]
pub struct StreamPeer {
    pub id: String,
}

/// What the command line asks of the daemon.
#[derive(Debug)]
pub enum CtlRequest {
    Status,
    Peers,
    Shutdown,
    Call {
        to: String,
        listen: Option<SocketAddr>,
        forward: Option<SocketAddr>,
        to_addr: Vec<SocketAddr>,
    },
    Accept { peer: String },
    Reject { peer: String },
}

/// What the daemon answers.
#[derive(Debug)]
pub enum CtlResponse {
    Status {
        role: String,
        uptime_secs: u64,
        session: String,
        phase: String,
        listen: Option<SocketAddr>,
        forward: Option<SocketAddr>,
        pending_calls: Vec<PendingCall>,
    },
    Peers { peers: Vec<StreamPeer> },
    Success,
    Failure { code: i32, message: String },
}

/// Why a frame was not written or read.
#[derive(Clone, Copy, Debug, PartialEq, Eq, Structural)]
pub enum FrameError {
    /// The body has a length that four bytes cannot hold.
    BodyTooLarge,
    /// The body is over [`CTL_MAX_BODY`].
    BodyOverMax,
    /// Not a frame.
    BadMagic,
    /// The frame goes on: this many bytes are needed in all.
    Truncated(usize),
}

impl FrameError {
    /// The message.
    pub open spec fn says(self, catalog: Map<Seq<char>, Seq<char>>) -> Seq<char> {
        match self {
            FrameError::BodyTooLarge => looked_up(catalog, "control body too large"@),
            FrameError::BodyOverMax => said(
                catalog,
                "control body exceeds max ({0} bytes)"@,
                seq![decimal_of(CTL_MAX_BODY as nat)],
            ),
            FrameError::BadMagic => looked_up(catalog, "bad control magic (expected SPC1)"@),
            FrameError::Truncated(n) => looked_up(
                catalog,
                if n <= 9 {
                    "read control header"@
                } else {
                    "read control body"@
                },
            ),
        }
    }

    /// The message.
    pub fn message(&self, catalog: &Catalog) -> (r: String)
        ensures
            r@ == self.says(catalog@),
    {
        match self {
            FrameError::BodyTooLarge => lookup(catalog, "control body too large"),
            FrameError::BodyOverMax => say1(
                catalog,
                "control body exceeds max ({0} bytes)",
                decimal(CTL_MAX_BODY as u64),
            ),
            FrameError::BadMagic => lookup(catalog, "bad control magic (expected SPC1)"),
            FrameError::Truncated(n) => {
                if *n <= 9 {
                    lookup(catalog, "read control header")
                } else {
                    lookup(catalog, "read control body")
                }
            },
        }
    }

    /// What is reported: a length that does not fit and a frame that ends are
    /// reported with their cause.
    pub open spec fn report(self, catalog: Map<Seq<char>, Seq<char>>) -> Seq<
        (Seq<char>, Option<i32>),
    > {
        match self {
            FrameError::BodyTooLarge => seq![
                (self.says(catalog), None::<i32>),
                ("out of range integral type conversion attempted"@, None::<i32>),
            ],
            FrameError::Truncated(_) => seq![
                (self.says(catalog), None::<i32>),
                ("early eof"@, None::<i32>),
            ],
            _ => seq![(self.says(catalog), None::<i32>)],
        }
    }

    /// What is reported.
    pub fn error(&self, catalog: &Catalog) -> (r: Error)
        ensures
            r.wf(),
            r@ == self.report(catalog@),
    {
        let message = self.message(catalog);
        match self {
            FrameError::BodyTooLarge => exit::because(
                message,
                "out of range integral type conversion attempted".to_owned(),
            ),
            FrameError::Truncated(_) => exit::because(message, "early eof".to_owned()),
            _ => Error::msg(message),
        }
    }
}

/// The frame around a body.
pub open spec fn frame_bytes(version: u8, body: Seq<u8>) -> Seq<u8> {
    magic() + seq![version] + be32(body.len() as u32) + body
}

/// Frames `body`; one over the limit is refused.
pub fn encode_frame(version: u8, body: &[u8]) -> (r: Result<Vec<u8>, FrameError>)
    ensures
        match r {
            Ok(out) => body@.len() <= CTL_MAX_BODY && out@ == frame_bytes(version, body@),
            Err(e) => body@.len() > CTL_MAX_BODY && e == (if body@.len() > u32::MAX {
                FrameError::BodyTooLarge
            } else {
                FrameError::BodyOverMax
            }),
        },
{
    let len: usize = body.len();
    if len as u64 > u32::MAX as u64 {
        return Err(FrameError::BodyTooLarge);
    }
    if len as u32 > CTL_MAX_BODY {
        return Err(FrameError::BodyOverMax);
    }
    let mut out: Vec<u8> = Vec::new();
    out.push(0x53);
    out.push(0x50);
    out.push(0x43);
    out.push(0x31);
    out.push(version);
    push_be32(&mut out, len as u32);
    push_all(&mut out, body);
    proof {
        assert(out@ =~= frame_bytes(version, body@));
    }
    Ok(out)
}

/// What a nine-byte header says: version and length of the body.
pub open spec fn header_in(hdr: Seq<u8>) -> Result<(u8, u32), FrameError> {
    if hdr.take(4) != magic() {
        Err(FrameError::BadMagic)
    } else if be32_at(hdr, 5) > CTL_MAX_BODY {
        Err(FrameError::BodyOverMax)
    } else {
        Ok((hdr[4], be32_at(hdr, 5) as u32))
    }
}

/// Reads a header.
pub fn parse_header(hdr: &[u8]) -> (r: Result<(u8, u32), FrameError>)
    requires
        hdr@.len() >= 9,
    ensures
        r == header_in(hdr@),
{
    proof {
        let m = magic();
        let h = hdr@.take(4);
        assert(h[0] == hdr@[0] && h[1] == hdr@[1] && h[2] == hdr@[2] && h[3] == hdr@[3]);
        assert((h[0] == m[0] && h[1] == m[1] && h[2] == m[2] && h[3] == m[3]) ==> h =~= m);
    }
    if hdr[0] != 0x53 || hdr[1] != 0x50 || hdr[2] != 0x43 || hdr[3] != 0x31 {
        return Err(FrameError::BadMagic);
    }
    let len: u32 = read_be32(hdr, 5);
    if len > CTL_MAX_BODY {
        return Err(FrameError::BodyOverMax);
    }
    Ok((hdr[4], len))
}

/// The frame at the front of `b`: version, body, and the bytes it took.
pub open spec fn frame_in(b: Seq<u8>) -> Result<(u8, Seq<u8>, nat), FrameError> {
    if b.len() < 9 {
        Err(FrameError::Truncated(9))
    } else {
        match header_in(b) {
            Err(e) => Err(e),
            Ok((version, len)) => if b.len() < 9 + len {
                Err(FrameError::Truncated((9 + len) as usize))
            } else {
                Ok((version, b.subrange(9, 9 + len), (9 + len) as nat))
            },
        }
    }
}

/// Reads the frame at the front of `input`.
///
/// `Truncated(n)` asks for `n` bytes in all.
pub fn read_frame(input: &[u8]) -> (r: Result<(u8, Vec<u8>, usize), FrameError>)
    ensures
        match r {
            Ok((version, body, n)) => frame_in(input@) == Ok::<(u8, Seq<u8>, nat), FrameError>(
                (version, body@, n as nat),
            ),
            Err(e) => frame_in(input@) == Err::<(u8, Seq<u8>, nat), FrameError>(e),
        },
{
    if input.len() < 9 {
        return Err(FrameError::Truncated(9));
    }
    match parse_header(input) {
        Err(e) => Err(e),
        Ok((version, len)) => {
            let end: usize = 9 + len as usize;
            if input.len() < end {
                return Err(FrameError::Truncated(end));
            }
            Ok((version, copy_range(input, 9, end), end))
        },
    }
}

/// What was framed is what is read, whatever follows it.
pub proof fn law_frame_round_trip(version: u8, body: Seq<u8>, after: Seq<u8>)
    requires
        body.len() <= CTL_MAX_BODY,
    ensures
        frame_in(frame_bytes(version, body) + after) == Ok::<(u8, Seq<u8>, nat), FrameError>(
            (version, body, (9 + body.len()) as nat),
        ),
{
    let b = frame_bytes(version, body) + after;
    let front = magic() + seq![version];
    lemma_be32_round_trip(body.len() as u32, front, body + after);
    assert(b =~= front + be32(body.len() as u32) + (body + after));
    assert(b.take(4) =~= magic());
    assert(b[4] == version);
    assert(b.subrange(9, 9 + body.len() as int) =~= body);
}

/// What is reported of a frame of another protocol version: a usage error
/// that names both.
pub open spec fn version_report(catalog: Map<Seq<char>, Seq<char>>, version: u8) -> Seq<
    (Seq<char>, Option<i32>),
> {
    seq![
        (
            said(
                catalog,
                "stream call daemon protocol mismatch (daemon v{0}, CLI v{1})"@,
                seq![decimal_of(version as nat), decimal_of(CTL_VERSION as nat)],
            ),
            Some(exit::USAGE),
        ),
    ]
}

/// Refuses a frame of another protocol version, as a usage error.
pub fn check_version(catalog: &Catalog, version: u8) -> (r: Result<(), Error>)
    ensures
        match r {
            Ok(()) => version == CTL_VERSION,
            Err(e) => version != CTL_VERSION && e.wf() && e@ == version_report(catalog@, version),
        },
{
    if version == CTL_VERSION {
        return Ok(());
    }
    let text = say2(
        catalog,
        "stream call daemon protocol mismatch (daemon v{0}, CLI v{1})",
        decimal(version as u64),
        decimal(CTL_VERSION as u64),
    );
    let ghost t = text@;
    let e = exit::coded(exit::USAGE, Error::msg(text));
    proof {
        assert(e@ =~= seq![(t, Some(exit::USAGE))]);
    }
    Err(e)
}

/// The body of a complete frame of this protocol version, for decoding.
pub fn read_body(catalog: &Catalog, input: &[u8]) -> (r: Result<Vec<u8>, Error>)
    ensures
        match frame_in(input@) {
            Ok((version, body, _)) => if version == CTL_VERSION {
                r is Ok && r->Ok_0@ == body
            } else {
                r is Err && r->Err_0.wf() && r->Err_0@ == version_report(catalog@, version)
            },
            Err(e) => r is Err && r->Err_0.wf() && r->Err_0@ == e.report(catalog@),
        },
{
    match read_frame(input) {
        Err(e) => Err(e.error(catalog)),
        Ok((version, body, _)) => match check_version(catalog, version) {
            Ok(()) => Ok(body),
            Err(e) => Err(e),
        },
    }
}

/// The error of asking a daemon that is not there.
pub fn not_running(catalog: &Catalog) -> (r: Error)
    ensures
        r.wf(),
        r@ == seq![
            (
                looked_up(catalog@, "stream call daemon is not running (try: link-p2p call up)"@),
                Some(exit::DAEMON_NOT_RUNNING),
            ),
        ],
{
    let text = lookup(catalog, "stream call daemon is not running (try: link-p2p call up)");
    let ghost t = text@;
    let e = exit::coded(exit::DAEMON_NOT_RUNNING, Error::msg(text));
    proof {
        assert(e@ =~= seq![(t, Some(exit::DAEMON_NOT_RUNNING))]);
    }
    e
}

/// A frame is `SPC1`, the version, the length of the body, high byte first,
/// and the body; one over a mebibyte is refused. What is read of it is the
/// version, the body and how long it was, whatever follows.
pub proof fn law_frame_layout(
    version: u8,
    body: &[u8],
    input: &[u8],
    after: Seq<u8>,
    out: Result<Vec<u8>, FrameError>,
    back: Result<(u8, Vec<u8>, usize), FrameError>,
)
    requires
        call_ensures(encode_frame, (version, body), out),
        out is Ok ==> input@ == out->Ok_0@ + after,
        call_ensures(read_frame, (input,), back),
    ensures
        out is Ok <==> body@.len() <= 1024 * 1024,
        out is Ok ==> {
            let f = out->Ok_0@;
            &&& f.len() == 9 + body@.len()
            &&& f[0] == 0x53 && f[1] == 0x50 && f[2] == 0x43 && f[3] == 0x31
            &&& f[4] == version
            &&& f[5] * 0x100_0000 + f[6] * 0x1_0000 + f[7] * 0x100 + f[8] == body@.len()
            &&& f.skip(9) == body@
            &&& back is Ok
            &&& ({
                let (v, b, used) = back->Ok_0;
                v == version && b@ == body@ && used == f.len()
            })
        },
{
    if let Ok(o) = out {
        law_frame_round_trip(version, body@, after);
        let head = magic() + seq![version];
        let size = be32(body@.len() as u32);
        assert(size.len() == 4);
        assert(o@ =~= head + size + body@);
        assert(o@.skip(9) =~= body@);
        assert(o@[0] == magic()[0] && o@[1] == magic()[1] && o@[2] == magic()[2] && o@[3]
            == magic()[3]);
        assert(o@[5] == size[0] && o@[6] == size[1] && o@[7] == size[2] && o@[8] == size[3]);
    }
}

/// Nothing is read of what does not begin with `SPC1`, of what announces more
/// than a mebibyte, and of what ends before it says.
pub proof fn law_bad_frames_are_refused(input: &[u8], r: Result<(u8, Vec<u8>, usize), FrameError>)
    requires
        call_ensures(read_frame, (input,), r),
    ensures
        ({
            let b = input@;
            let len = b[5] * 0x100_0000 + b[6] * 0x1_0000 + b[7] * 0x100 + b[8];
            r is Ok <==> b.len() >= 9 && b[0] == 0x53 && b[1] == 0x50 && b[2] == 0x43 && b[3]
                == 0x31 && len <= 1024 * 1024 && b.len() >= 9 + len
        }),
{
    let b = input@;
    if b.len() >= 9 {
        let four = b.take(4);
        assert(four[0] == b[0] && four[1] == b[1] && four[2] == b[2] && four[3] == b[3]);
        assert(magic()[0] == 0x53 && magic()[1] == 0x50 && magic()[2] == 0x43 && magic()[3]
            == 0x31);
        if b[0] == 0x53 && b[1] == 0x50 && b[2] == 0x43 && b[3] == 0x31 {
            assert(four =~= magic());
        }
    }
}

} // verus!
