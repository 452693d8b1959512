//! Start-up configuration: the initial query (the positional arguments
//! joined with spaces) and the external package-manager command to delegate
//! to (the last `-p=` flag, or the default helper). Checking that the
//! command exists, and the help flag, are the launcher's business, not the
//! engine's.

use vstd::prelude::*;

verus! {

/// The start-up configuration.
#[derive(PartialEq, Eq, Debug, Clone)]
pub struct Config {
    /// The initial query, when positional arguments gave one.
    pub query: Option<String>,
    /// The external command to delegate install, remove and query calls to.
    pub command: String,
}

/// An argument that asks for the usage text; it contributes neither to the
/// query nor to the command.
pub open spec fn is_help_arg(a: Seq<char>) -> bool {
    a == "-h"@ || a == "--help"@
}

/// An argument that names the external command.
pub open spec fn is_command_arg(a: Seq<char>) -> bool {
    a.len() >= 3 && a.subrange(0, 3) == "-p="@
}

/// The command named by the first `n` arguments: the suffix of the last
/// `-p=` flag among them, if any.
pub open spec fn command_upto(args: Seq<Seq<char>>, n: int) -> Option<Seq<char>>
    decreases n,
{
    if n <= 0 {
        None
    } else {
        let a = args[n - 1];
        if is_command_arg(a) {
            Some(a.skip(3))
        } else {
            command_upto(args, n - 1)
        }
    }
}

/// The query the first `n` arguments give: every argument that is neither a
/// help nor a command flag, joined with single spaces, in order.
pub open spec fn query_upto(args: Seq<Seq<char>>, n: int) -> Option<Seq<char>>
    decreases n,
{
    if n <= 0 {
        None
    } else {
        let a = args[n - 1];
        let prev = query_upto(args, n - 1);
        if is_help_arg(a) || is_command_arg(a) {
            prev
        } else {
            match prev {
                None => Some(a),
                Some(q) => Some(q + seq![' '] + a),
            }
        }
    }
}

/// What [`Config::new`] returns for the given arguments.
pub open spec fn config_post(c: Config, args: Seq<Seq<char>>) -> bool {
    &&& match (c.query, query_upto(args, args.len() as int)) {
        (Some(q), Some(qs)) => q@ == qs,
        (None, None) => true,
        _ => false,
    }
    &&& c.command@ == match command_upto(args, args.len() as int) {
        Some(cmd) => cmd,
        None => "paru"@,
    }
}

/// Whether the argument names the external command (`-p=<command>`).
fn arg_is_command(a: &str) -> (r: bool)
    ensures
        r == is_command_arg(a@),
{
    let n = a.unicode_len();
    if n < 3 {
        proof {
            assert(!is_command_arg(a@));
        }
        return false;
    }
    proof {
        reveal_strlit("-p=");
    }
    let r = a.get_char(0) == '-' && a.get_char(1) == 'p' && a.get_char(2) == '=';
    proof {
        if r {
            assert(a@.subrange(0, 3) =~= "-p="@);
        } else {
            assert(a@.subrange(0, 3) != "-p="@) by {
                if a@.subrange(0, 3) == "-p="@ {
                    assert(a@.subrange(0, 3)[0] == a@[0]);
                    assert(a@.subrange(0, 3)[1] == a@[1]);
                    assert(a@.subrange(0, 3)[2] == a@[2]);
                }
            }
        }
    }
    r
}

/// Whether the argument asks for the usage text.
fn arg_is_help(a: &str) -> (r: bool)
    ensures
        r == is_help_arg(a@),
{
    str_equals(a, "-h") || str_equals(a, "--help")
}

/// Whether two strings read the same.
fn str_equals(a: &str, b: &str) -> (r: bool)
    ensures
        r == (a@ == b@),
{
    let an = a.unicode_len();
    let bn = b.unicode_len();
    if an != bn {
        return false;
    }
    let mut i: usize = 0;
    while i < an
        invariant
            an == a@.len(),
            an == b@.len(),
            0 <= i <= an,
            forall|t: int| 0 <= t < i ==> a@[t] == b@[t],
        decreases an - i,
    {
        if a.get_char(i) != b.get_char(i) {
            return false;
        }
        i = i + 1;
    }
    proof {
        assert(a@ =~= b@);
    }
    true
}

impl Config {
    /// Folds the command-line arguments (the program name first, as given)
    /// into the configuration: the last `-p=` flag names the command
    /// (default `paru`), and the remaining non-flag arguments, joined with
    /// spaces, form the initial query.
    pub fn new(args: &Vec<String>) -> (c: Config)
        requires
            args@.len() >= 1,
        ensures
            config_post(c, args@.map_values(|s: String| s@).skip(1)),
    {
        let ghost rest: Seq<Seq<char>> = args@.map_values(|s: String| s@).skip(1);
        let mut query: Option<String> = None;
        let mut command: Option<String> = None;
        let n = args.len();
        let mut i: usize = 1;
        while i < n
            invariant
                n == args@.len(),
                1 <= i <= n,
                rest == args@.map_values(|s: String| s@).skip(1),
                match (query, query_upto(rest, i - 1)) {
                    (Some(q), Some(qs)) => q@ == qs,
                    (None, None) => true,
                    _ => false,
                },
                match (command, command_upto(rest, i - 1)) {
                    (Some(c), Some(cs)) => c@ == cs,
                    (None, None) => true,
                    _ => false,
                },
            decreases n - i,
        {
            let arg = &args[i];
            proof {
                assert(rest[i - 1] == args@[i as int]@);
            }
            if arg_is_command(arg.as_str()) {
                let a = arg.as_str();
                let stripped = a.substring_char(3, a.unicode_len());
                proof {
                    assert(a@.subrange(3, a@.len() as int) =~= a@.skip(3));
                }
                command = Some(stripped.to_owned());
            } else if arg_is_help(arg.as_str()) {
            } else {
                match query {
                    None => {
                        query = Some(arg.clone());
                    },
                    Some(q) => {
                        proof {
                            reveal_strlit(" ");
                            assert(" "@ =~= seq![' ']);
                        }
                        let joined = q.concat(" ").concat(arg.as_str());
                        query = Some(joined);
                    },
                }
            }
            i = i + 1;
        }
        let command = match command {
            Some(c) => c,
            None => {
                let c = String::from_str("paru");
                c
            },
        };
        Config { query, command }
    }
}

} // verus!
