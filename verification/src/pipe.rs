//! Bidirectional pipes: the opening bytes of a stream, and how a pipe ends.
//!
//! A stream is invisible to the far side until its first byte arrives, so the
//! side that opens one writes [`STREAM_HELLO`] at once.

use vstd::prelude::*;
use crate::bytes::same_bytes;
use crate::exit::{because, Error};
use crate::i18n::{looked_up, lookup, said, say1, Catalog};
use crate::text::{hex, hex_of};

verus! {

/// How long shutting down waits for pipes to flush, in seconds.
pub const DRAIN_TIMEOUT_SECS: u64 = 5;

/// The code with which a stream is aborted.
pub const STREAM_ABORT_CODE: u32 = 1;

/// The first bytes of a forwarded stream: `LPF1`.
pub open spec fn stream_hello_bytes() -> Seq<u8> {
    seq![0x4cu8, 0x50, 0x46, 0x31]
}

/// The first bytes of a forwarded stream: `LPF1`.
pub fn stream_hello() -> (r: Vec<u8>)
    ensures
        r@ == stream_hello_bytes(),
{
    let mut out: Vec<u8> = Vec::new();
    out.push(0x4c);
    out.push(0x50);
    out.push(0x46);
    out.push(0x31);
    proof {
        assert(out@ =~= stream_hello_bytes());
    }
    out
}

/// Why a stream was not accepted.
#[derive(Debug)]
pub enum HelloError {
    /// It ended before its fourth byte.
    Short,
    /// It begins with these bytes.
    Bad(Vec<u8>),
}

impl HelloError {
    /// The message.
    pub open spec fn says(&self, catalog: Map<Seq<char>, Seq<char>>) -> Seq<char> {
        match self {
            HelloError::Short => looked_up(catalog, "reading stream hello"@),
            HelloError::Bad(got) => said(
                catalog,
                "bad stream hello (expected LPF1, got {0})"@,
                seq![hex_of(got@)],
            ),
        }
    }

    /// The message.
    pub fn message(&self, catalog: &Catalog) -> (r: String)
        ensures
            r@ == self.says(catalog@),
    {
        match self {
            HelloError::Short => lookup(catalog, "reading stream hello"),
            HelloError::Bad(got) => say1(
                catalog,
                "bad stream hello (expected LPF1, got {0})",
                hex(got.as_slice()),
            ),
        }
    }

    /// What is reported: of a stream that ended, what the reader says too.
    pub open spec fn report(&self, catalog: Map<Seq<char>, Seq<char>>) -> Seq<
        (Seq<char>, Option<i32>),
    > {
        match self {
            HelloError::Short => seq![
                (self.says(catalog), None::<i32>),
                ("early eof"@, None::<i32>),
            ],
            HelloError::Bad(_) => seq![(self.says(catalog), None::<i32>)],
        }
    }

    /// What is reported.
    pub fn error(&self, catalog: &Catalog) -> (r: Error)
        ensures
            r.wf(),
            r@ == self.report(catalog@),
    {
        let message = self.message(catalog);
        match self {
            HelloError::Short => because(message, "early eof".to_owned()),
            HelloError::Bad(_) => Error::msg(message),
        }
    }
}

/// Checks the first four bytes of a stream; `input` is what arrived of them.
pub fn read_stream_hello(input: &[u8]) -> (r: Result<(), HelloError>)
    ensures
        match r {
            Ok(()) => input@.len() >= 4 && input@.take(4) == stream_hello_bytes(),
            Err(HelloError::Short) => input@.len() < 4,
            Err(HelloError::Bad(got)) => input@.len() >= 4 && got@ == input@.take(4) && got@
                != stream_hello_bytes(),
        },
{
    if input.len() < 4 {
        return Err(HelloError::Short);
    }
    let got = crate::bytes::copy_range(input, 0, 4);
    let want = stream_hello();
    proof {
        assert(input@.subrange(0, 4) =~= input@.take(4));
    }
    if same_bytes(got.as_slice(), want.as_slice()) {
        Ok(())
    } else {
        Err(HelloError::Bad(got))
    }
}

/// How a pipe ends.
#[derive(Debug)]
pub struct PipeEnd {
    /// Tell the far side to stop sending.
    pub stop_receiving: bool,
    /// Abort our own sending.
    pub reset_sending: bool,
    /// Bytes sent and received, or the error.
    pub result: Result<(u64, u64), Error>,
}

/// Whether a pipe goes on copying after one direction has finished: until
/// both have, unless one failed.
pub fn keeps_piping(client: &Option<Result<u64, Error>>, remote: &Option<Result<u64, Error>>) -> (r:
    bool)
    ensures
        r == (!(*client matches Some(Err(_))) && !(*remote matches Some(Err(_))) && (*client is None
            || *remote is None)),
{
    match (client, remote) {
        (Some(Err(_)), _) => false,
        (_, Some(Err(_))) => false,
        (Some(_), Some(_)) => false,
        _ => true,
    }
}

/// The end of a pipe, given what came of its two directions; `None` is one
/// that was still copying. A direction that was cut off is aborted.
pub fn pipe_outcome(
    client: Option<Result<u64, Error>>,
    remote: Option<Result<u64, Error>>,
) -> (r: PipeEnd)
    ensures
        r.stop_receiving == (client is Some && remote is None),
        r.reset_sending == (client is None && remote is Some),
        match (client, remote) {
            (Some(Ok(a)), Some(Ok(b))) => r.result == Ok::<(u64, u64), Error>((a, b)),
            (Some(Ok(a)), None) => r.result == Ok::<(u64, u64), Error>((a, 0)),
            (None, Some(Ok(b))) => r.result == Ok::<(u64, u64), Error>((0, b)),
            (None, None) => r.result == Ok::<(u64, u64), Error>((0, 0)),
            (Some(Err(e)), _) => r.result == Err::<(u64, u64), Error>(e),
            (_, Some(Err(e))) => r.result == Err::<(u64, u64), Error>(e),
        },
{
    match (client, remote) {
        (Some(a), Some(b)) => PipeEnd {
            stop_receiving: false,
            reset_sending: false,
            result: match a {
                Err(e) => Err(e),
                Ok(n) => match b {
                    Ok(m) => Ok((n, m)),
                    Err(e) => Err(e),
                },
            },
        },
        (Some(a), None) => PipeEnd {
            stop_receiving: true,
            reset_sending: false,
            result: match a {
                Ok(n) => Ok((n, 0)),
                Err(e) => Err(e),
            },
        },
        (None, Some(b)) => PipeEnd {
            stop_receiving: false,
            reset_sending: true,
            result: match b {
                Ok(n) => Ok((0, n)),
                Err(e) => Err(e),
            },
        },
        (None, None) => PipeEnd {
            stop_receiving: false,
            reset_sending: false,
            result: Ok((0, 0)),
        },
    }
}

/// A stream that was opened with the hello is accepted, whatever follows.
pub proof fn law_hello_is_accepted(after: Seq<u8>)
    ensures
        (stream_hello_bytes() + after).len() >= 4,
        (stream_hello_bytes() + after).take(4) == stream_hello_bytes(),
{
    assert((stream_hello_bytes() + after).take(4) =~= stream_hello_bytes());
}

/// A stream is accepted exactly where it begins with `LPF1`, as the opener
/// writes it.
pub proof fn law_hello_is_lpf1(
    hello: Vec<u8>,
    input: &[u8],
    r: Result<(), HelloError>,
)
    requires
        call_ensures(stream_hello, (), hello),
        call_ensures(read_stream_hello, (input,), r),
    ensures
        hello@ == seq![0x4cu8, 0x50, 0x46, 0x31],
        r is Ok <==> input@.len() >= 4 && input@[0] == 0x4c && input@[1] == 0x50 && input@[2]
            == 0x46 && input@[3] == 0x31,
        r matches Err(HelloError::Short) ==> input@.len() < 4,
{
    if input@.len() >= 4 {
        let four = input@.take(4);
        assert(four[0] == input@[0] && four[1] == input@[1] && four[2] == input@[2] && four[3]
            == input@[3]);
        if input@[0] == 0x4c && input@[1] == 0x50 && input@[2] == 0x46 && input@[3] == 0x31 {
            assert(four =~= stream_hello_bytes());
        }
    }
}

/// A direction that ends cleanly does not end the other: copying goes on until
/// both have ended or one has failed. What a pipe then gives is the bytes of
/// each direction, and its first error otherwise; exactly a direction that was
/// still copying is cut off.
pub proof fn law_half_closed_pipes_go_on(
    client: Option<Result<u64, Error>>,
    remote: Option<Result<u64, Error>>,
    goes_on: bool,
    end: PipeEnd,
)
    requires
        call_ensures(keeps_piping, (&client, &remote), goes_on),
        call_ensures(pipe_outcome, (client, remote), end),
    ensures
        client is None && remote is None ==> goes_on,
        client is Some && client->0 is Ok && remote is None ==> goes_on,
        remote is Some && remote->0 is Ok && client is None ==> goes_on,
        client is Some && remote is Some ==> !goes_on,
        (client is Some && client->0 is Err) || (remote is Some && remote->0 is Err) ==> !goes_on
            && end.result is Err,
        !goes_on && end.result is Ok ==> end.result->Ok_0 == (client->0->Ok_0, remote->0->Ok_0)
            && !end.stop_receiving && !end.reset_sending,
        !goes_on && remote is None ==> end.stop_receiving && !end.reset_sending,
        !goes_on && client is None ==> end.reset_sending && !end.stop_receiving,
{
}

} // verus!
