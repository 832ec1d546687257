//! Reading the command line of a harness.
//!
//! The arguments are taken as a list of strings, the program's own name
//! first, as the operating system hands them over.

use crate::text::{parse_count, parse_u32, same_text, texts};
use vstd::prelude::*;

verus! {

/// The harnesses that share this command line.
#[derive(Clone, Copy, Debug, PartialEq, Eq, Structural)]
pub enum Harness {
    /// Compares archive formats on a directory of images.
    Compression,
    /// Compares image formats.
    ImageFormats,
    /// Compares WebP quality levels, on a small scale.
    ImageQuality,
    /// Times the creation of many small files.
    FileWrite,
}

/// The values that optional arguments take when they are left out.
#[derive(Clone, Copy, Debug, PartialEq, Eq, Structural)]
pub struct Defaults {
    /// Number of items per trial.
    pub count: u32,
    /// Number of trials.
    pub runs: u32,
}

impl Harness {
    /// The defaults of each harness.
    pub open spec fn defaults_spec(self) -> Defaults {
        match self {
            Harness::Compression => Defaults { count: 100, runs: 100 },
            Harness::ImageFormats => Defaults { count: 100, runs: 10 },
            Harness::ImageQuality => Defaults { count: 5, runs: 1 },
            Harness::FileWrite => Defaults { count: 100_000, runs: 10 },
        }
    }

    /// The defaults of this harness.
    pub fn defaults(&self) -> (d: Defaults)
        ensures
            d == self.defaults_spec(),
    {
        match self {
            Harness::Compression => Defaults { count: 100, runs: 100 },
            Harness::ImageFormats => Defaults { count: 100, runs: 10 },
            Harness::ImageQuality => Defaults { count: 5, runs: 1 },
            Harness::FileWrite => Defaults { count: 100_000, runs: 10 },
        }
    }
}

/// Why the command line was rejected.
#[derive(Clone, Copy, Debug, PartialEq, Eq, Structural)]
pub enum ArgError {
    /// The item count is not a number that fits in 32 bits.
    InvalidCount,
    /// The number of trials is not a number that fits in 32 bits.
    InvalidRuns,
    /// The item count is zero.
    ZeroCount,
    /// The number of trials is zero.
    ZeroRuns,
    /// The target path, which has no default, is missing.
    MissingTarget,
}

/// What the command line asks for.
#[derive(Clone, Copy, Debug, PartialEq, Eq, Structural)]
pub enum Request {
    /// Show the usage text and do nothing else.
    Help,
    /// Run `runs` trials on `count` items each.
    Run { count: u32, runs: u32 },
}

/// What the command line of the write benchmark asks for.
#[derive(Clone, Debug, PartialEq, Eq)]
pub enum WriteRequest {
    /// Show the usage text and do nothing else.
    Help,
    /// Run `runs` trials of `count` files each under `target`.
    Run { target: String, count: u32, runs: u32 },
}

/// Whether `arg` asks for the usage text.
pub open spec fn is_help_flag(arg: Seq<char>) -> bool {
    arg == "--help"@ || arg == "-h"@
}

/// Whether the first argument after the program's name asks for the usage text.
pub open spec fn wants_help(args: Seq<Seq<char>>) -> bool {
    args.len() > 1 && is_help_flag(args[1])
}

/// The count at position `at` of the command line, or `default` if the
/// command line is too short to have one. Nothing if what stands there is
/// no count.
pub open spec fn count_at(args: Seq<Seq<char>>, at: int, default: u32) -> Option<u32> {
    if args.len() > at {
        parse_u32(args[at])
    } else {
        Some(default)
    }
}

/// The item count and the number of trials, read from positions `at` and
/// `at + 1`. An argument that is no number is reported before a zero, and
/// the item count before the number of trials.
pub open spec fn counts_spec(args: Seq<Seq<char>>, at: int, defaults: Defaults) -> Result<
    (u32, u32),
    ArgError,
> {
    let count = count_at(args, at, defaults.count);
    let runs = count_at(args, at + 1, defaults.runs);
    if count is None {
        Err(ArgError::InvalidCount)
    } else if runs is None {
        Err(ArgError::InvalidRuns)
    } else if count->0 == 0 {
        Err(ArgError::ZeroCount)
    } else if runs->0 == 0 {
        Err(ArgError::ZeroRuns)
    } else {
        Ok((count->0, runs->0))
    }
}

/// What `[count] [runs]` after the program's name asks for.
pub open spec fn parse_args_spec(args: Seq<Seq<char>>, defaults: Defaults) -> Result<
    Request,
    ArgError,
> {
    if wants_help(args) {
        Ok(Request::Help)
    } else {
        match counts_spec(args, 1, defaults) {
            Ok((count, runs)) => Ok(Request::Run { count, runs }),
            Err(e) => Err(e),
        }
    }
}

fn is_help(arg: &str) -> (b: bool)
    ensures
        b == is_help_flag(arg@),
{
    same_text(arg, "--help") || same_text(arg, "-h")
}

fn read_count(args: &Vec<String>, at: usize, default: u32) -> (r: Option<u32>)
    ensures
        r == count_at(texts(args@), at as int, default),
{
    if args.len() > at {
        parse_count(args[at].as_str())
    } else {
        Some(default)
    }
}

fn read_counts(args: &Vec<String>, at: usize, defaults: Defaults) -> (r: Result<(u32, u32), ArgError>)
    requires
        at < usize::MAX,
    ensures
        r == counts_spec(texts(args@), at as int, defaults),
{
    let count: u32 = match read_count(args, at, defaults.count) {
        Some(n) => n,
        None => {
            return Err(ArgError::InvalidCount);
        },
    };
    let runs: u32 = match read_count(args, at + 1, defaults.runs) {
        Some(n) => n,
        None => {
            return Err(ArgError::InvalidRuns);
        },
    };
    if count == 0 {
        return Err(ArgError::ZeroCount);
    }
    if runs == 0 {
        return Err(ArgError::ZeroRuns);
    }
    Ok((count, runs))
}

/// Reads `[count] [runs]` from the command line.
///
/// `--help` or `-h` in first place asks for the usage text, whatever
/// follows. A count that is left out takes its default. A count that is not
/// a number, or is zero, is rejected.
pub fn parse_args(args: &Vec<String>, defaults: Defaults) -> (r: Result<Request, ArgError>)
    ensures
        r == parse_args_spec(texts(args@), defaults),
{
    if args.len() > 1 && is_help(args[1].as_str()) {
        return Ok(Request::Help);
    }
    match read_counts(args, 1, defaults) {
        Ok((count, runs)) => Ok(Request::Run { count, runs }),
        Err(e) => Err(e),
    }
}

/// Reads `<target> [count] [runs]` from the command line of the write benchmark.
///
/// `--help` or `-h` in first place asks for the usage text. Without a target
/// the command line is rejected. The counts are read as by `parse_args`.
pub fn parse_write_args(args: &Vec<String>, defaults: Defaults) -> (r: Result<
    WriteRequest,
    ArgError,
>)
    ensures
        wants_help(texts(args@)) ==> r == Ok::<WriteRequest, ArgError>(WriteRequest::Help),
        !wants_help(texts(args@)) && args.len() < 2 ==> r == Err::<WriteRequest, ArgError>(
            ArgError::MissingTarget,
        ),
        !wants_help(texts(args@)) && args.len() >= 2 ==> match counts_spec(
            texts(args@),
            2,
            defaults,
        ) {
            Err(e) => r == Err::<WriteRequest, ArgError>(e),
            Ok((count, runs)) => r == Ok::<WriteRequest, ArgError>(
                WriteRequest::Run { target: args[1], count, runs },
            ),
        },
{
    if args.len() > 1 && is_help(args[1].as_str()) {
        return Ok(WriteRequest::Help);
    }
    if args.len() < 2 {
        return Err(ArgError::MissingTarget);
    }
    match read_counts(args, 2, defaults) {
        Ok((count, runs)) => Ok(WriteRequest::Run { target: args[1].clone(), count, runs }),
        Err(e) => Err(e),
    }
}

} // verus!
