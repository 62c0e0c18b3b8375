//! Parsing the command line into a command, with structured errors instead
//! of abrupt termination, so the command layer stays testable.

use vstd::prelude::*;
use vstd::string::StringExecFns;

verus! {

/// A parsed command: list the discovered zones, or join member zones to a
/// master zone.
pub enum Command {
    List,
    Join { master: String, members: Vec<String> },
}

/// A malformed invocation. Fatal: the caller prints usage and exits with a
/// non-zero status, and no network operation is attempted.
pub enum UsageError {
    /// No subcommand was given.
    MissingSubcommand,
    /// The subcommand is neither `list` nor `join`.
    UnknownSubcommand,
    /// `join` was given fewer than two zone names.
    TooFewZones,
}

/// Parses the arguments after the program name.
///
/// `list` lists the zones; `join <master> <member> [<member> ...]` needs at
/// least two zone names in all. Anything else is a usage error.
pub fn parse_command(args: &Vec<String>) -> (r: Result<Command, UsageError>)
    ensures
        args.deep_view().len() == 0 ==> r == Err::<Command, UsageError>(
            UsageError::MissingSubcommand,
        ),
        args.deep_view().len() > 0 && args.deep_view()[0] == "list"@ ==> r == Ok::<
            Command,
            UsageError,
        >(Command::List),
        args.deep_view().len() > 0 && args.deep_view()[0] == "join"@ && args.deep_view().len() < 3
            ==> r == Err::<Command, UsageError>(UsageError::TooFewZones),
        args.deep_view().len() >= 3 && args.deep_view()[0] == "join"@ ==> (r matches Ok(c)
            && c matches Command::Join { master, members } && master@ == args.deep_view()[1]
            && members.deep_view() == args.deep_view().skip(2)),
        args.deep_view().len() > 0 && args.deep_view()[0] != "list"@ && args.deep_view()[0]
            != "join"@ ==> r == Err::<Command, UsageError>(UsageError::UnknownSubcommand),
{
    proof {
        reveal_strlit("list");
        reveal_strlit("join");
    }
    if args.len() == 0 {
        return Err(UsageError::MissingSubcommand);
    }
    let list_word = String::from_str("list");
    let join_word = String::from_str("join");
    proof {
        assert(args.deep_view()[0] == args@[0]@);
        assert("list"@ != "join"@) by {
            reveal_strlit("list");
            reveal_strlit("join");
            assert("list"@[0] == 'l' && "join"@[0] == 'j');
        }
    }
    if args[0] == list_word {
        return Ok(Command::List);
    }
    if args[0] == join_word {
        if args.len() < 3 {
            return Err(UsageError::TooFewZones);
        }
        let master = args[1].clone();
        let mut members: Vec<String> = Vec::new();
        let n = args.len();
        let mut i: usize = 2;
        while i < n
            invariant
                n == args.deep_view().len(),
                2 <= i <= n,
                members.deep_view().len() == i - 2,
                forall|k: int|
                    0 <= k < i - 2 ==> #[trigger] members.deep_view()[k] == args.deep_view()[k
                        + 2],
            decreases n - i,
        {
            let ghost prev = members.deep_view();
            members.push(args[i].clone());
            proof {
                assert(members.deep_view() =~= prev.push(args.deep_view()[i as int]));
            }
            i = i + 1;
        }
        proof {
            assert(members.deep_view() =~= args.deep_view().skip(2));
        }
        return Ok(Command::Join { master, members });
    }
    Err(UsageError::UnknownSubcommand)
}

} // verus!
