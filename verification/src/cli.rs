//! Reading the command line: which record is asked for, and in which of the
//! two renderings.
//!
//! The first argument is the program's own name and is never read as a query.

use vstd::prelude::*;
use crate::text::texts;

verus! {

/// Whether `arg` asks for the raw rendering.
pub open spec fn is_raw_flag(arg: Seq<char>) -> bool {
    arg == "--raw"@ || arg == "-r"@
}

/// Whether one of the arguments behind the program's name asks for the raw
/// rendering.
pub open spec fn raw_requested(args: Seq<Seq<char>>) -> bool {
    exists|k: int| 1 <= k < args.len() && is_raw_flag(#[trigger] args[k])
}

/// The argument at `k` is the query: the last one behind the program's name
/// that is no flag.
pub open spec fn query_at(args: Seq<Seq<char>>, k: int) -> bool {
    &&& 1 <= k < args.len()
    &&& !is_raw_flag(args[k])
    &&& forall|m: int| k < m < args.len() ==> is_raw_flag(#[trigger] args[m])
}

/// Whether one of the arguments, the program's name included, is `--list`.
pub open spec fn list_requested(args: Seq<Seq<char>>) -> bool {
    exists|k: int| 0 <= k < args.len() && #[trigger] args[k] == "--list"@
}

/// The query and whether the raw rendering was asked for. `None` exactly
/// where no argument behind the program's name is a query; where several are,
/// the last one counts.
pub fn parse_args(args: &[String]) -> (r: Option<(String, bool)>)
    ensures
        match r {
            Some((name, raw)) => {
                &&& raw == raw_requested(texts(args@))
                &&& exists|k: int| query_at(texts(args@), k) && name@ == #[trigger] texts(args@)[k]
            },
            None => forall|k: int| 1 <= k < args.len() ==> is_raw_flag(#[trigger] texts(args@)[k]),
        },
{
    let long = "--raw".to_owned();
    let short = "-r".to_owned();
    let mut raw = false;
    let mut query: Option<usize> = None;
    let mut i: usize = 1;
    while i < args.len()
        invariant
            1 <= i,
            long@ == "--raw"@,
            short@ == "-r"@,
            raw == (exists|k: int| 1 <= k < i && k < args.len() && is_raw_flag(#[trigger] texts(args@)[k])),
            match query {
                Some(at) => 1 <= at < i && at < args.len() && !is_raw_flag(texts(args@)[at as int]) && forall|m: int|
                    at < m < i ==> is_raw_flag(#[trigger] texts(args@)[m]),
                None => forall|k: int| 1 <= k < i ==> is_raw_flag(#[trigger] texts(args@)[k]),
            },
        decreases args.len() - i,
    {
        if args[i] == long || args[i] == short {
            assert(is_raw_flag(texts(args@)[i as int]));
            raw = true;
        } else {
            query = Some(i);
        }
        i += 1;
    }
    match query {
        Some(at) => Some((args[at].clone(), raw)),
        None => None,
    }
}

/// Whether the names of all records are asked for.
pub fn wants_list(args: &[String]) -> (r: bool)
    ensures
        r == list_requested(texts(args@)),
{
    let flag = "--list".to_owned();
    let mut i: usize = 0;
    while i < args.len()
        invariant
            i <= args.len(),
            flag@ == "--list"@,
            forall|k: int| 0 <= k < i ==> #[trigger] texts(args@)[k] != "--list"@,
        decreases args.len() - i,
    {
        if args[i] == flag {
            assert(texts(args@)[i as int] == "--list"@);
            return true;
        }
        i += 1;
    }
    false
}

} // verus!
