//! Command-line argument parsing for sync runs: window policies and
//! exchange selection.

use vstd::prelude::*;

use crate::text::{str_eq, u64_string_value, parse_u64};
use crate::time_windows::TimeSpec;

verus! {

/// How an argument list can be rejected.
#[derive(Clone, Copy, Debug, PartialEq, Eq, Structural)]
pub enum ArgError {
    /// A flag that needs a value (or two) stands last.
    MissingValue,
    /// A numeric value does not parse.
    InvalidNumber,
    /// A required `--name` flag is absent.
    MissingName,
}

/// Whether an argument is one of the time-window flags.
pub open spec fn is_time_flag(s: Seq<char>) -> bool {
    ||| s == "--hours"@
    ||| s == "-h"@
    ||| s == "--between"@
    ||| s == "-b"@
    ||| s == "--since-last"@
    ||| s == "-s"@
}

/// The window policy the arguments from index `i` on select, starting
/// from `cur`: later time flags override earlier ones, unrelated
/// arguments are ignored.
pub open spec fn spec_parse_time_spec(args: Seq<String>, i: int, cur: Option<TimeSpec>) -> Result<
    Option<TimeSpec>,
    ArgError,
>
    decreases args.len() - i,
{
    if i < 0 || i >= args.len() {
        Ok(cur)
    } else if args[i]@ == "--hours"@ || args[i]@ == "-h"@ {
        if i + 1 >= args.len() {
            Err(ArgError::MissingValue)
        } else {
            match u64_string_value(args[i + 1]@) {
                Some(h) => spec_parse_time_spec(args, i + 2, Some(TimeSpec::LookbackHours(h))),
                None => Err(ArgError::InvalidNumber),
            }
        }
    } else if args[i]@ == "--between"@ || args[i]@ == "-b"@ {
        if i + 2 >= args.len() {
            Err(ArgError::MissingValue)
        } else {
            match u64_string_value(args[i + 1]@) {
                Some(start_ms) => match u64_string_value(args[i + 2]@) {
                    Some(end_ms) => spec_parse_time_spec(
                        args,
                        i + 3,
                        Some(TimeSpec::Between { start_ms, end_ms }),
                    ),
                    None => Err(ArgError::InvalidNumber),
                },
                None => Err(ArgError::InvalidNumber),
            }
        }
    } else if args[i]@ == "--since-last"@ || args[i]@ == "-s"@ {
        if i + 1 >= args.len() {
            Err(ArgError::MissingValue)
        } else {
            match u64_string_value(args[i + 1]@) {
                Some(h) => spec_parse_time_spec(
                    args,
                    i + 2,
                    Some(TimeSpec::SinceLastOrLookbackHours(h)),
                ),
                None => Err(ArgError::InvalidNumber),
            }
        }
    } else {
        spec_parse_time_spec(args, i + 1, cur)
    }
}

/// Parse the time-window flags of an argument list, from index `start`
/// on.
fn parse_time_spec_from(args: &[String], start: usize) -> (r: Result<Option<TimeSpec>, ArgError>)
    requires
        start <= args@.len(),
    ensures
        r == spec_parse_time_spec(args@, start as int, None::<TimeSpec>),
{
    let n = args.len();
    let mut i: usize = start;
    let mut cur: Option<TimeSpec> = None;
    while i < n
        invariant
            start <= i <= n,
            n == args@.len(),
            spec_parse_time_spec(args@, start as int, None::<TimeSpec>) == spec_parse_time_spec(
                args@,
                i as int,
                cur,
            ),
        decreases n - i,
    {
        let a = args[i].as_str();
        if str_eq(a, "--hours") || str_eq(a, "-h") {
            if i + 1 >= n {
                return Err(ArgError::MissingValue);
            }
            match parse_u64(args[i + 1].as_str()) {
                Some(h) => {
                    cur = Some(TimeSpec::LookbackHours(h));
                    i = i + 2;
                },
                None => {
                    return Err(ArgError::InvalidNumber);
                },
            }
        } else if str_eq(a, "--between") || str_eq(a, "-b") {
            if n - i <= 2 {
                return Err(ArgError::MissingValue);
            }
            match parse_u64(args[i + 1].as_str()) {
                Some(start_ms) => {
                    match parse_u64(args[i + 2].as_str()) {
                        Some(end_ms) => {
                            cur = Some(TimeSpec::Between { start_ms, end_ms });
                            i = i + 3;
                        },
                        None => {
                            return Err(ArgError::InvalidNumber);
                        },
                    }
                },
                None => {
                    return Err(ArgError::InvalidNumber);
                },
            }
        } else if str_eq(a, "--since-last") || str_eq(a, "-s") {
            if i + 1 >= n {
                return Err(ArgError::MissingValue);
            }
            match parse_u64(args[i + 1].as_str()) {
                Some(h) => {
                    cur = Some(TimeSpec::SinceLastOrLookbackHours(h));
                    i = i + 2;
                },
                None => {
                    return Err(ArgError::InvalidNumber);
                },
            }
        } else {
            i = i + 1;
        }
    }
    Ok(cur)
}

/// Parse the time-window flags of an argument list: `--hours N`,
/// `--between START_MS END_MS`, `--since-last N`; unrelated arguments are
/// ignored, and no time flag at all yields `None`.
pub fn parse_time_spec(args: &[String]) -> (r: Result<Option<TimeSpec>, ArgError>)
    ensures
        r == spec_parse_time_spec(args@, 0, None::<TimeSpec>),
{
    parse_time_spec_from(args, 0)
}

/// The exchange name and window policy the arguments select: the last
/// `--exchange`/`--name` before any time flag names the exchange, and
/// from the first time flag on the tail is read as a window policy.
pub open spec fn spec_parse_exchange_and_spec(args: Seq<String>, i: int, exch: Option<String>) -> Result<
    (Option<String>, Option<TimeSpec>),
    ArgError,
>
    decreases args.len() - i,
{
    if i < 0 || i >= args.len() {
        Ok((exch, None))
    } else if args[i]@ == "--exchange"@ || args[i]@ == "-e"@ || args[i]@ == "--name"@ {
        if i + 1 >= args.len() {
            Err(ArgError::MissingValue)
        } else {
            spec_parse_exchange_and_spec(args, i + 2, Some(args[i + 1]))
        }
    } else if is_time_flag(args[i]@) {
        match spec_parse_time_spec(args, i, None::<TimeSpec>) {
            Ok(spec) => Ok((exch, spec)),
            Err(e) => Err(e),
        }
    } else {
        spec_parse_exchange_and_spec(args, i + 1, exch)
    }
}

/// Parse an optional exchange selection (`--exchange NAME` or
/// `--name NAME`) together with optional time-window flags.
pub fn parse_exchange_and_spec(args: &[String]) -> (r: Result<
    (Option<String>, Option<TimeSpec>),
    ArgError,
>)
    ensures
        r == spec_parse_exchange_and_spec(args@, 0, None::<String>),
{
    let n = args.len();
    let mut i: usize = 0;
    let mut exch: Option<String> = None;
    while i < n
        invariant
            0 <= i <= n,
            n == args@.len(),
            spec_parse_exchange_and_spec(args@, 0, None::<String>) == spec_parse_exchange_and_spec(
                args@,
                i as int,
                exch,
            ),
        decreases n - i,
    {
        let a = args[i].as_str();
        if str_eq(a, "--exchange") || str_eq(a, "-e") || str_eq(a, "--name") {
            if i + 1 >= n {
                return Err(ArgError::MissingValue);
            }
            exch = Some(args[i + 1].clone());
            i = i + 2;
        } else if str_eq(a, "--hours") || str_eq(a, "-h") || str_eq(a, "--between") || str_eq(
            a,
            "-b",
        ) || str_eq(a, "--since-last") || str_eq(a, "-s") {
            match parse_time_spec_from(args, i) {
                Ok(spec) => {
                    return Ok((exch, spec));
                },
                Err(e) => {
                    return Err(e);
                },
            }
        } else {
            i = i + 1;
        }
    }
    Ok((exch, None))
}

/// The name and window policy of an `exchange add` invocation: `--name`
/// is required.
pub open spec fn spec_parse_exchange_add(args: Seq<String>, i: int, name: Option<String>) -> Result<
    (String, Option<TimeSpec>),
    ArgError,
>
    decreases args.len() - i,
{
    if i < 0 || i >= args.len() {
        match name {
            Some(nm) => Ok((nm, None)),
            None => Err(ArgError::MissingName),
        }
    } else if args[i]@ == "--name"@ {
        if i + 1 >= args.len() {
            Err(ArgError::MissingValue)
        } else {
            spec_parse_exchange_add(args, i + 2, Some(args[i + 1]))
        }
    } else if is_time_flag(args[i]@) {
        match (name, spec_parse_time_spec(args, i, None::<TimeSpec>)) {
            (_, Err(e)) => Err(e),
            (Some(nm), Ok(spec)) => Ok((nm, spec)),
            (None, Ok(_)) => Err(ArgError::MissingName),
        }
    } else {
        spec_parse_exchange_add(args, i + 1, name)
    }
}

/// Parse an `exchange add` argument list: a required `--name NAME` and
/// optional time-window flags.
pub fn parse_exchange_add(args: &[String]) -> (r: Result<(String, Option<TimeSpec>), ArgError>)
    ensures
        r == spec_parse_exchange_add(args@, 0, None::<String>),
{
    let n = args.len();
    let mut i: usize = 0;
    let mut name: Option<String> = None;
    while i < n
        invariant
            0 <= i <= n,
            n == args@.len(),
            spec_parse_exchange_add(args@, 0, None::<String>) == spec_parse_exchange_add(
                args@,
                i as int,
                name,
            ),
        decreases n - i,
    {
        let a = args[i].as_str();
        if str_eq(a, "--name") {
            if i + 1 >= n {
                return Err(ArgError::MissingValue);
            }
            name = Some(args[i + 1].clone());
            i = i + 2;
        } else if str_eq(a, "--hours") || str_eq(a, "-h") || str_eq(a, "--between") || str_eq(
            a,
            "-b",
        ) || str_eq(a, "--since-last") || str_eq(a, "-s") {
            let spec = match parse_time_spec_from(args, i) {
                Ok(spec) => spec,
                Err(e) => {
                    return Err(e);
                },
            };
            match name {
                Some(nm) => {
                    return Ok((nm, spec));
                },
                None => {
                    return Err(ArgError::MissingName);
                },
            }
        } else {
            i = i + 1;
        }
    }
    match name {
        Some(nm) => Ok((nm, None)),
        None => Err(ArgError::MissingName),
    }
}

} // verus!
