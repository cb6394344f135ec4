//! The `call` command line: what follows `link-p2p call`.

use vstd::prelude::*;
use crate::exit;
use crate::exit::{says, usage, Error};
use crate::i18n::{looked_up, lookup, Catalog};
use crate::net::SocketAddr;
use crate::text::same_text;

verus! {

/// What `call` was asked.
#[derive(Debug)]
pub enum CallCommand {
    Up { listen: Option<SocketAddr>, forward: Option<SocketAddr>, foreground: bool },
    Down,
    Status,
    Ring,
    Accept { peer: String },
    Reject { peer: String },
    Dial {
        to: String,
        listen: Option<SocketAddr>,
        forward: Option<SocketAddr>,
        to_addr: Vec<SocketAddr>,
        no_wait: bool,
    },
}

/// What the words behind `call` are, or the usage that they miss.
pub open spec fn call_usage(words: Seq<String>) -> Option<Seq<char>> {
    if words.len() == 0 {
        Some("usage: call up|down|ring|status|accept <peer>|reject <peer>|<peer>"@)
    } else {
        let head = words[0]@;
        if head == "up"@ {
            if words.len() > 1 {
                Some("usage: call up [--listen …] [--forward …] [--foreground]"@)
            } else {
                None
            }
        } else if head == "down"@ || head == "status"@ || head == "ring"@ {
            None
        } else if head == "accept"@ {
            if words.len() < 2 {
                Some("usage: call accept <peer>"@)
            } else {
                None
            }
        } else if head == "reject"@ {
            if words.len() < 2 {
                Some("usage: call reject <peer>"@)
            } else {
                None
            }
        } else if words.len() > 1 {
            Some("usage: call <peer> [--listen …] [--forward …] [--to-addr …] [--no-wait]"@)
        } else {
            None
        }
    }
}

/// Reads the words and options behind `call`: a verb, or else a peer to dial.
pub fn parse_call_args(
    catalog: &Catalog,
    args: &Vec<String>,
    listen: Option<SocketAddr>,
    forward: Option<SocketAddr>,
    to_addr: Vec<SocketAddr>,
    no_wait: bool,
    foreground: bool,
) -> (r: Result<CallCommand, Error>)
    ensures
        match call_usage(args@) {
            Some(m) => r is Err && says(r->Err_0, looked_up(catalog@, m), Some(exit::USAGE)),
            None => {
                let head = args@[0]@;
                r is Ok && (if head == "up"@ {
                    r->Ok_0 == (CallCommand::Up { listen, forward, foreground })
                } else if head == "down"@ {
                    r->Ok_0 is Down
                } else if head == "status"@ {
                    r->Ok_0 is Status
                } else if head == "ring"@ {
                    r->Ok_0 is Ring
                } else if head == "accept"@ {
                    r->Ok_0 matches CallCommand::Accept { peer } && peer@ == args@[1]@
                } else if head == "reject"@ {
                    r->Ok_0 matches CallCommand::Reject { peer } && peer@ == args@[1]@
                } else {
                    r->Ok_0 matches CallCommand::Dial {
                        to,
                        listen: l,
                        forward: f,
                        to_addr: a,
                        no_wait: n,
                    } && to@ == head && l == listen && f == forward && a == to_addr && n == no_wait
                })
            },
        },
{
    if args.len() == 0 {
        return Err(
            usage(
                lookup(
                    catalog,
                    "usage: call up|down|ring|status|accept <peer>|reject <peer>|<peer>",
                ),
            ),
        );
    }
    let head = args[0].as_str();
    if same_text(head, "up") {
        if args.len() > 1 {
            return Err(
                usage(
                    lookup(catalog, "usage: call up [--listen …] [--forward …] [--foreground]"),
                ),
            );
        }
        return Ok(CallCommand::Up { listen, forward, foreground });
    }
    if same_text(head, "down") {
        return Ok(CallCommand::Down);
    }
    if same_text(head, "status") {
        return Ok(CallCommand::Status);
    }
    if same_text(head, "ring") {
        return Ok(CallCommand::Ring);
    }
    if same_text(head, "accept") {
        if args.len() < 2 {
            return Err(usage(lookup(catalog, "usage: call accept <peer>")));
        }
        return Ok(CallCommand::Accept { peer: args[1].clone() });
    }
    if same_text(head, "reject") {
        if args.len() < 2 {
            return Err(usage(lookup(catalog, "usage: call reject <peer>")));
        }
        return Ok(CallCommand::Reject { peer: args[1].clone() });
    }
    if args.len() > 1 {
        return Err(
            usage(
                lookup(
                    catalog,
                    "usage: call <peer> [--listen …] [--forward …] [--to-addr …] [--no-wait]",
                ),
            ),
        );
    }
    Ok(CallCommand::Dial { to: args[0].clone(), listen, forward, to_addr, no_wait })
}

/// Whether a word is one of the verbs of `call`.
pub open spec fn is_verb(word: Seq<char>) -> bool {
    word == "up"@ || word == "down"@ || word == "status"@ || word == "ring"@ || word == "accept"@
        || word == "reject"@
}

/// A single word that is no verb is a peer to dial, with every option as it was
/// given; answering and refusing name the word behind the verb, and are usage
/// errors without one; so is a call without words, or a peer with more of them.
pub proof fn law_a_word_that_is_no_verb_is_dialed(
    catalog: Catalog,
    args: Vec<String>,
    listen: Option<SocketAddr>,
    forward: Option<SocketAddr>,
    to_addr: Vec<SocketAddr>,
    no_wait: bool,
    foreground: bool,
    r: Result<CallCommand, Error>,
)
    requires
        call_ensures(
            parse_call_args,
            (&catalog, &args, listen, forward, to_addr, no_wait, foreground),
            r,
        ),
    ensures
        args@.len() == 0 ==> r is Err,
        args@.len() == 1 && !is_verb(args@[0]@) ==> (r matches Ok(
            CallCommand::Dial { to, listen: l, forward: f, to_addr: a, no_wait: n },
        ) && to@ == args@[0]@ && l == listen && f == forward && a@ == to_addr@ && n == no_wait),
        args@.len() > 1 && !is_verb(args@[0]@) ==> r is Err,
        r matches Ok(CallCommand::Dial { .. }) ==> !is_verb(args@[0]@),
        args@.len() >= 2 && args@[0]@ == "accept"@ ==> (r matches Ok(CallCommand::Accept { peer })
            && peer@ == args@[1]@),
        args@.len() >= 2 && args@[0]@ == "reject"@ ==> (r matches Ok(CallCommand::Reject { peer })
            && peer@ == args@[1]@),
        args@.len() == 1 && (args@[0]@ == "accept"@ || args@[0]@ == "reject"@) ==> r is Err,
        args@.len() == 1 && args@[0]@ == "up"@ ==> r == Ok::<CallCommand, Error>(
            CallCommand::Up { listen, forward, foreground },
        ),
        args@.len() > 0 && args@[0]@ == "down"@ ==> r is Ok && r->Ok_0 is Down,
        args@.len() > 0 && args@[0]@ == "status"@ ==> r is Ok && r->Ok_0 is Status,
        args@.len() > 0 && args@[0]@ == "ring"@ ==> r is Ok && r->Ok_0 is Ring,
{
    reveal_strlit("up");
    reveal_strlit("down");
    reveal_strlit("status");
    reveal_strlit("ring");
    reveal_strlit("accept");
    reveal_strlit("reject");
    assert("down"@[0] == 'd' && "ring"@[0] == 'r');
    assert("status"@[0] == 's' && "accept"@[0] == 'a' && "reject"@[0] == 'r');
    assert("up"@.len() == 2 && "down"@.len() == 4 && "ring"@.len() == 4);
    assert("status"@.len() == 6 && "accept"@.len() == 6 && "reject"@.len() == 6);
    assert("down"@ != "ring"@);
    assert("status"@ != "accept"@ && "status"@ != "reject"@ && "accept"@ != "reject"@);
}

} // verus!
