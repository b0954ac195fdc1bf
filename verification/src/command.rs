//! The command line of the engine's executable.

use vstd::prelude::*;
use vstd::utf8::encode_utf8;
use crate::hash::{parse_hash, parse_hash_bytes, HashError};
use crate::protocol::{ContentHash, FixtureScope, Request};

verus! {

/// What the executable was asked to do.
#[derive(Debug, Clone)]
pub enum Command {
    /// Serve requests on `socket`, with SEMA on `sema` and Nomos on `nomos`.
    Daemon { socket: String, sema: String, nomos: String },
    /// Send a projection request to the daemon on `socket`.
    Project { socket: String, request: Request },
    /// Subscribe to the projections of the daemon on `socket`.
    Subscribe { socket: String, request: Request },
}

/// Why the command line was refused.
#[derive(Debug, Clone, Copy, PartialEq, Eq, Structural)]
pub enum CommandError {
    /// The command needs a socket path and none was given.
    MissingSocket,
    /// `project` needs a Logos hash and none was given.
    MissingHash,
    /// The Logos hash could not be parsed.
    BadHash(HashError),
    /// No known command was given.
    Usage,
}

/// The `i`-th argument, or `default` where there are fewer arguments.
pub open spec fn arg_or(args: Seq<String>, i: int, default: Seq<char>) -> Seq<char> {
    if 0 <= i < args.len() {
        args[i]@
    } else {
        default
    }
}

fn is_word(arg: &String, word: &str) -> (r: bool)
    ensures
        r == (arg@ == word@),
{
    let expected: String = word.to_owned();
    arg.eq(&expected)
}

fn arg_or_default(args: &Vec<String>, i: usize, default: &str) -> (s: String)
    ensures
        s@ == arg_or(args@, i as int, default@),
{
    if i < args.len() {
        args[i].clone()
    } else {
        default.to_owned()
    }
}

/// Reads the arguments that follow the program name: `daemon` with up to
/// three socket paths (each defaulting under `/tmp/new-language-engine`),
/// `project` with a socket and a 64-digit hexadecimal Logos hash, or
/// `subscribe` with a socket. Arguments after those are ignored.
pub fn parse_command(args: &Vec<String>) -> (r: Result<Command, CommandError>)
    ensures
        (args@.len() == 0 || !(args@[0]@ == "daemon"@ || args@[0]@ == "project"@ || args@[0]@
            == "subscribe"@)) ==> r == Err::<Command, CommandError>(CommandError::Usage),
        args@.len() > 0 && args@[0]@ == "daemon"@ ==> {
            &&& r matches Ok(Command::Daemon { socket, sema, nomos })
            &&& socket@ == arg_or(args@, 1, "/tmp/new-language-engine/logos.sock"@)
            &&& sema@ == arg_or(args@, 2, "/tmp/new-language-engine/sema.sock"@)
            &&& nomos@ == arg_or(args@, 3, "/tmp/new-language-engine/nomos.sock"@)
        },
        args@.len() > 0 && args@[0]@ == "project"@ ==> if args@.len() < 2 {
            r == Err::<Command, CommandError>(CommandError::MissingSocket)
        } else if args@.len() < 3 {
            r == Err::<Command, CommandError>(CommandError::MissingHash)
        } else {
            match parse_hash_bytes(encode_utf8(args@[2]@)) {
                Ok(h) => {
                    &&& r matches Ok(Command::Project { socket, request })
                    &&& socket@ == args@[1]@
                    &&& request is ProjectRust
                    &&& request->ProjectRust_scope == FixtureScope(1)
                    &&& request->ProjectRust_logos.0@ == h
                },
                Err(e) => r == Err::<Command, CommandError>(CommandError::BadHash(e)),
            }
        },
        args@.len() > 0 && args@[0]@ == "subscribe"@ ==> if args@.len() < 2 {
            r == Err::<Command, CommandError>(CommandError::MissingSocket)
        } else {
            &&& r matches Ok(Command::Subscribe { socket, request })
            &&& socket@ == args@[1]@
            &&& request == (Request::Subscribe { scope: FixtureScope(1) })
        },
{
    proof {
        reveal_strlit("daemon");
        reveal_strlit("project");
        reveal_strlit("subscribe");
        assert("daemon"@.len() == 6 && "project"@.len() == 7 && "subscribe"@.len() == 9);
    }
    if args.len() == 0 {
        return Err(CommandError::Usage);
    }
    if is_word(&args[0], "daemon") {
        let socket: String = arg_or_default(args, 1, "/tmp/new-language-engine/logos.sock");
        let sema: String = arg_or_default(args, 2, "/tmp/new-language-engine/sema.sock");
        let nomos: String = arg_or_default(args, 3, "/tmp/new-language-engine/nomos.sock");
        Ok(Command::Daemon { socket, sema, nomos })
    } else if is_word(&args[0], "project") {
        if args.len() < 2 {
            return Err(CommandError::MissingSocket);
        }
        let socket: String = args[1].clone();
        if args.len() < 3 {
            return Err(CommandError::MissingHash);
        }
        match parse_hash(args[2].as_str()) {
            Ok(hash) => Ok(
                Command::Project {
                    socket,
                    request: Request::ProjectRust {
                        scope: FixtureScope(1),
                        logos: ContentHash(hash),
                    },
                },
            ),
            Err(e) => Err(CommandError::BadHash(e)),
        }
    } else if is_word(&args[0], "subscribe") {
        if args.len() < 2 {
            return Err(CommandError::MissingSocket);
        }
        let socket: String = args[1].clone();
        Ok(Command::Subscribe { socket, request: Request::Subscribe { scope: FixtureScope(1) } })
    } else {
        Err(CommandError::Usage)
    }
}

} // verus!
