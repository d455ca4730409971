//! The command-line surface: which options a service accepts and what
//! each of them means. Reading the process arguments and printing the
//! usage stay with the embedding application.

use vstd::prelude::*;

use crate::text::str_eq;

verus! {

/// The parsed command line: an optional alternative configuration path,
/// whether help was requested, and the invoked name.
#[derive(Debug)]
pub struct Args {
    pub config_path: Option<String>,
    pub help: bool,
    pub service_name: String,
}

/// What the arguments after the invoked name mean, read left to right:
/// `-h` or `--help` requests help; `--config` takes the following
/// argument as the configuration path, the last occurrence winning; any
/// other argument is an error naming it, as is a final `--config` with no
/// path after it.
pub open spec fn parse_tail(
    args: Seq<Seq<char>>,
    i: int,
    help: bool,
    config: Option<Seq<char>>,
) -> Result<(bool, Option<Seq<char>>), Seq<char>>
    decreases args.len() - i,
{
    if i >= args.len() {
        Ok((help, config))
    } else if args[i] == "-h"@ || args[i] == "--help"@ {
        parse_tail(args, i + 1, true, config)
    } else if args[i] == "--config"@ {
        if i + 1 >= args.len() {
            Err("error: --config option requires a file path"@)
        } else {
            parse_tail(args, i + 2, help, Some(args[i + 1]))
        }
    } else {
        Err("unknown argument: "@ + args[i])
    }
}

/// The argument views.
pub open spec fn args_views(args: &Vec<String>) -> Seq<Seq<char>> {
    args@.map_values(|a: String| a@)
}

impl Args {
    /// Parses the command line. The first argument is the invoked name;
    /// the rest are read by the option rules, an unknown option or a
    /// missing configuration path each answered with its message.
    pub fn parse(args: &Vec<String>) -> (r: Result<Args, String>)
        requires
            args@.len() >= 1,
        ensures
            match r {
                Ok(a) => parse_tail(args_views(args), 1, false, None) == Ok::<
                    (bool, Option<Seq<char>>),
                    Seq<char>,
                >(
                    (
                        a.help,
                        match a.config_path {
                            Some(ref p) => Some(p@),
                            None => None,
                        },
                    ),
                ) && a.service_name@ == args_views(args)[0],
                Err(msg) => parse_tail(args_views(args), 1, false, None) == Err::<
                    (bool, Option<Seq<char>>),
                    Seq<char>,
                >(msg@),
            },
    {
        let ghost views = args_views(args);
        let n = args.len();
        let mut help = false;
        let mut config_path: Option<String> = None;
        let mut i: usize = 1;
        while i < n
            invariant
                1 <= i <= n,
                n == views.len(),
                views == args_views(args),
                parse_tail(views, 1, false, None) == parse_tail(
                    views,
                    i as int,
                    help,
                    match config_path {
                        Some(ref p) => Some(p@),
                        None => None,
                    },
                ),
            decreases n - i,
        {
            proof {
                assert(views[i as int] == args@[i as int]@);
            }
            let arg = &args[i];
            if str_eq(arg.as_str(), "-h") || str_eq(arg.as_str(), "--help") {
                help = true;
                i = i + 1;
            } else if str_eq(arg.as_str(), "--config") {
                if i + 1 >= n {
                    return Err(
                        String::from_str("error: --config option requires a file path"),
                    );
                }
                proof {
                    assert(views[i + 1] == args@[i + 1]@);
                }
                config_path = Some(args[i + 1].clone());
                i = i + 2;
            } else {
                return Err(String::from_str("unknown argument: ").concat(arg.as_str()));
            }
        }
        proof {
            assert(views[0] == args@[0]@);
        }
        Ok(Args { config_path, help, service_name: args[0].clone() })
    }
}

} // verus!
