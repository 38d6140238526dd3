//! Command-line options: a custom config path, and a help request that
//! makes the caller print usage and exit before anything is constructed.
//! The argument vector is handed in from the process edge; every word is
//! scanned, unknown words are ignored, and the last config path given
//! wins.

use vstd::prelude::*;

use crate::errors::ArgsError;
use crate::text::str_eq;

verus! {

#[derive(Debug)]
pub struct Args {
    pub config_path: String,
}

/// The words of an argument vector.
pub open spec fn strs(s: Seq<String>) -> Seq<Seq<char>> {
    s.map_values(|x: String| x@)
}

/// The scan's specification, from position `i` with `path` the config
/// path collected so far: a help word fails at once; a config word
/// consumes the following word as the new path, or fails when none
/// follows; every other word is skipped.
pub open spec fn parse_args_from(argv: Seq<Seq<char>>, i: int, path: Seq<char>) -> Result<
    Seq<char>,
    ArgsError,
>
    decreases argv.len() - i,
{
    if i < 0 || i >= argv.len() {
        Ok(path)
    } else if argv[i] == "-help"@ {
        Err(ArgsError::HelpRequested)
    } else if argv[i] == "-config"@ {
        if i + 1 < argv.len() {
            parse_args_from(argv, i + 2, argv[i + 1])
        } else {
            Err(ArgsError::MissingConfigPath)
        }
    } else {
        parse_args_from(argv, i + 1, path)
    }
}

impl Args {
    /// Scans the whole argument vector, program name included, exactly
    /// as the scan specification says; an absent config option leaves
    /// the path empty, which stands for the default location.
    pub fn parse(argv: &Vec<String>) -> (r: Result<Args, ArgsError>)
        ensures
            match r {
                Ok(a) => parse_args_from(strs(argv@), 0, Seq::empty()) == Ok::<
                    Seq<char>,
                    ArgsError,
                >(a.config_path@),
                Err(e) => parse_args_from(strs(argv@), 0, Seq::empty()) == Err::<
                    Seq<char>,
                    ArgsError,
                >(e),
            },
    {
        let mut argc: usize = 0;
        let mut path = String::new();
        while argc < argv.len()
            invariant
                argc <= argv.len(),
                parse_args_from(strs(argv@), 0, Seq::empty()) == parse_args_from(
                    strs(argv@),
                    argc as int,
                    path@,
                ),
            decreases argv.len() - argc,
        {
            proof {
                assert(strs(argv@)[argc as int] == argv@[argc as int]@);
            }
            if str_eq(argv[argc].as_str(), "-help") {
                return Err(ArgsError::HelpRequested);
            }
            if str_eq(argv[argc].as_str(), "-config") {
                if argc + 1 < argv.len() {
                    proof {
                        assert(strs(argv@)[argc + 1] == argv@[argc + 1]@);
                    }
                    path = argv[argc + 1].clone();
                    argc = argc + 2;
                } else {
                    return Err(ArgsError::MissingConfigPath);
                }
            } else {
                argc = argc + 1;
            }
        }
        Ok(Args { config_path: path })
    }
}

} // verus!
