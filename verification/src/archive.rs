//! Archive formats, archive names, and the steps of compressing a directory.

use crate::command::{succeeded, Invocation, InvocationView, RunResult, SpawnError};
use crate::text::{
    decimal, decimal_string, lemma_decimal_injective, lemma_decimal_value,
    lemma_digits_end_at_first_other, lemma_same_start, push_str, push_text, same_text, texts,
};
use vstd::prelude::*;
use vstd::string::StringExecFns;

verus! {

/// The archive formats that are compared.
#[derive(Clone, Copy, Debug, PartialEq, Eq, Structural)]
pub enum ArchiveFormat {
    Zip,
    TarGz,
    Zstd,
    Xz,
    SevenZip,
}

/// The directory whose contents the archive benchmark compresses.
pub open spec fn benchmark_dir() -> Seq<char> {
    "benchmark_images"@
}

/// The highest run number whose leftovers the final sweep looks for.
pub const SWEEP_RUNS: u32 = 200;

impl ArchiveFormat {
    /// The name by which the format is selected.
    pub open spec fn name(self) -> Seq<char> {
        match self {
            ArchiveFormat::Zip => "zip"@,
            ArchiveFormat::TarGz => "tar.gz"@,
            ArchiveFormat::Zstd => "zstd"@,
            ArchiveFormat::Xz => "xz"@,
            ArchiveFormat::SevenZip => "7z"@,
        }
    }

    /// The file name suffix of archives in this format.
    pub open spec fn suffix(self) -> Seq<char> {
        match self {
            ArchiveFormat::Zip => ".zip"@,
            ArchiveFormat::TarGz => ".tar.gz"@,
            ArchiveFormat::Zstd => ".tar.zst"@,
            ArchiveFormat::Xz => ".tar.xz"@,
            ArchiveFormat::SevenZip => ".7z"@,
        }
    }

    /// The format selected by `name`, if there is one.
    pub open spec fn named(name: Seq<char>) -> Option<ArchiveFormat> {
        if name == "zip"@ {
            Some(ArchiveFormat::Zip)
        } else if name == "tar.gz"@ {
            Some(ArchiveFormat::TarGz)
        } else if name == "zstd"@ {
            Some(ArchiveFormat::Zstd)
        } else if name == "xz"@ {
            Some(ArchiveFormat::Xz)
        } else if name == "7z"@ {
            Some(ArchiveFormat::SevenZip)
        } else {
            None
        }
    }

    /// Looks a format up by its name. Names are matched exactly.
    pub fn parse(name: &str) -> (format: Option<ArchiveFormat>)
        ensures
            format == ArchiveFormat::named(name@),
    {
        if same_text(name, "zip") {
            Some(ArchiveFormat::Zip)
        } else if same_text(name, "tar.gz") {
            Some(ArchiveFormat::TarGz)
        } else if same_text(name, "zstd") {
            Some(ArchiveFormat::Zstd)
        } else if same_text(name, "xz") {
            Some(ArchiveFormat::Xz)
        } else if same_text(name, "7z") {
            Some(ArchiveFormat::SevenZip)
        } else {
            None
        }
    }

    /// The name by which the format is selected.
    pub fn name_str(&self) -> (name: &'static str)
        ensures
            name@ == self.name(),
    {
        match self {
            ArchiveFormat::Zip => "zip",
            ArchiveFormat::TarGz => "tar.gz",
            ArchiveFormat::Zstd => "zstd",
            ArchiveFormat::Xz => "xz",
            ArchiveFormat::SevenZip => "7z",
        }
    }

    /// The file name suffix of archives in this format.
    pub fn suffix_str(&self) -> (suffix: &'static str)
        ensures
            suffix@ == self.suffix(),
    {
        match self {
            ArchiveFormat::Zip => ".zip",
            ArchiveFormat::TarGz => ".tar.gz",
            ArchiveFormat::Zstd => ".tar.zst",
            ArchiveFormat::Xz => ".tar.xz",
            ArchiveFormat::SevenZip => ".7z",
        }
    }
}

/// Every format is found again under its own name.
pub proof fn lemma_format_names_distinct(format: ArchiveFormat)
    ensures
        ArchiveFormat::named(format.name()) == Some(format),
{
    reveal_strlit("zip");
    reveal_strlit("tar.gz");
    reveal_strlit("zstd");
    reveal_strlit("xz");
    reveal_strlit("7z");
    assert("zip"@.len() == 3 && "tar.gz"@.len() == 6 && "zstd"@.len() == 4 && "xz"@.len() == 2
        && "7z"@.len() == 2);
    assert("xz"@[0] != "7z"@[0]);
}

/// The formats in the order in which the benchmark goes through them.
pub fn all_formats() -> (formats: Vec<ArchiveFormat>)
    ensures
        formats@ == seq![
            ArchiveFormat::Zip,
            ArchiveFormat::TarGz,
            ArchiveFormat::Zstd,
            ArchiveFormat::Xz,
            ArchiveFormat::SevenZip,
        ],
{
    let mut formats: Vec<ArchiveFormat> = Vec::new();
    formats.push(ArchiveFormat::Zip);
    formats.push(ArchiveFormat::TarGz);
    formats.push(ArchiveFormat::Zstd);
    formats.push(ArchiveFormat::Xz);
    formats.push(ArchiveFormat::SevenZip);
    assert(formats@ =~= seq![
        ArchiveFormat::Zip,
        ArchiveFormat::TarGz,
        ArchiveFormat::Zstd,
        ArchiveFormat::Xz,
        ArchiveFormat::SevenZip,
    ]);
    formats
}

/// `<dir>_run_<run>`, the archive name without its suffix.
pub open spec fn archive_stem_spec(dir: Seq<char>, run: nat) -> Seq<char> {
    dir + "_run_"@ + decimal(run)
}

/// `<dir>_run_<run><suffix>`, the archive written by run number `run`.
pub open spec fn archive_path_spec(dir: Seq<char>, format: ArchiveFormat, run: nat) -> Seq<char> {
    archive_stem_spec(dir, run) + format.suffix()
}

/// `<dir>_run_<run>.tar`, the uncompressed archive made on the way to a Zstandard one.
pub open spec fn bundle_path_spec(dir: Seq<char>, run: nat) -> Seq<char> {
    archive_stem_spec(dir, run) + ".tar"@
}

fn archive_stem(dir: &str, run: u32) -> (stem: String)
    ensures
        stem@ == archive_stem_spec(dir@, run as nat),
{
    let mut stem: String = String::from_str(dir);
    stem.append("_run_");
    stem.append(decimal_string(run as u64).as_str());
    stem
}

/// Name of the archive that run number `run` writes for `dir`.
pub fn archive_path(dir: &str, format: ArchiveFormat, run: u32) -> (path: String)
    ensures
        path@ == archive_path_spec(dir@, format, run as nat),
{
    let mut path: String = archive_stem(dir, run);
    path.append(format.suffix_str());
    path
}

/// Name of the uncompressed archive that a Zstandard run makes first.
pub fn bundle_path(dir: &str, run: u32) -> (path: String)
    ensures
        path@ == bundle_path_spec(dir@, run as nat),
{
    let mut path: String = archive_stem(dir, run);
    path.append(".tar");
    path
}

/// The invocation that packs `dir` into an uncompressed archive.
pub open spec fn bundle_command_spec(dir: Seq<char>, run: nat) -> InvocationView {
    InvocationView {
        program: "tar"@,
        args: seq!["-cf"@, bundle_path_spec(dir, run), "-C"@, "."@, dir],
        quiet: false,
    }
}

/// The invocation that writes the archive of `dir` in the given format. For
/// Zstandard this compresses the uncompressed archive made before.
pub open spec fn archive_command_spec(dir: Seq<char>, format: ArchiveFormat, run: nat)
    -> InvocationView {
    let out = archive_path_spec(dir, format, run);
    match format {
        ArchiveFormat::Zip => InvocationView {
            program: "zip"@,
            args: seq!["-r"@, "-q"@, out, dir],
            quiet: false,
        },
        ArchiveFormat::TarGz => InvocationView {
            program: "tar"@,
            args: seq!["-czf"@, out, "-C"@, "."@, dir],
            quiet: false,
        },
        ArchiveFormat::Zstd => InvocationView {
            program: "zstd"@,
            args: seq![bundle_path_spec(dir, run), "-o"@, out],
            quiet: false,
        },
        ArchiveFormat::Xz => InvocationView {
            program: "tar"@,
            args: seq!["-cJf"@, out, "-C"@, "."@, dir],
            quiet: false,
        },
        ArchiveFormat::SevenZip => InvocationView {
            program: "7z"@,
            args: seq!["a"@, "-t7z"@, out, dir],
            quiet: true,
        },
    }
}

/// Builds the invocation that packs `dir` into an uncompressed archive.
pub fn bundle_command(dir: &str, run: u32) -> (command: Invocation)
    ensures
        command@ == bundle_command_spec(dir@, run as nat),
{
    let mut args: Vec<String> = Vec::new();
    push_str(&mut args, "-cf");
    push_text(&mut args, bundle_path(dir, run));
    push_str(&mut args, "-C");
    push_str(&mut args, ".");
    push_str(&mut args, dir);
    let command = Invocation { program: String::from_str("tar"), args, quiet: false };
    assert(command@.args =~= bundle_command_spec(dir@, run as nat).args);
    command
}

/// Builds the invocation that writes the archive of `dir` in the given format.
pub fn archive_command(dir: &str, format: ArchiveFormat, run: u32) -> (command: Invocation)
    ensures
        command@ == archive_command_spec(dir@, format, run as nat),
{
    let out: String = archive_path(dir, format, run);
    let mut args: Vec<String> = Vec::new();
    let program: &'static str;
    let mut quiet: bool = false;
    match format {
        ArchiveFormat::Zip => {
            program = "zip";
            push_str(&mut args, "-r");
            push_str(&mut args, "-q");
            push_text(&mut args, out);
            push_str(&mut args, dir);
        },
        ArchiveFormat::TarGz => {
            program = "tar";
            push_str(&mut args, "-czf");
            push_text(&mut args, out);
            push_str(&mut args, "-C");
            push_str(&mut args, ".");
            push_str(&mut args, dir);
        },
        ArchiveFormat::Zstd => {
            program = "zstd";
            push_text(&mut args, bundle_path(dir, run));
            push_str(&mut args, "-o");
            push_text(&mut args, out);
        },
        ArchiveFormat::Xz => {
            program = "tar";
            push_str(&mut args, "-cJf");
            push_text(&mut args, out);
            push_str(&mut args, "-C");
            push_str(&mut args, ".");
            push_str(&mut args, dir);
        },
        ArchiveFormat::SevenZip => {
            program = "7z";
            quiet = true;
            push_str(&mut args, "a");
            push_str(&mut args, "-t7z");
            push_text(&mut args, out);
            push_str(&mut args, dir);
        },
    }
    let command = Invocation { program: String::from_str(program), args, quiet };
    assert(command@.args =~= archive_command_spec(dir@, format, run as nat).args);
    command
}

/// Why a directory could not be compressed.
#[derive(Clone, Debug, PartialEq, Eq)]
pub enum CompressError {
    /// The format name selects no known format.
    UnsupportedFormat,
    /// A program could not be launched.
    Spawn(SpawnError),
    /// Packing the directory into an uncompressed archive failed.
    BundleFailed,
    /// The archiver reported failure.
    ArchiverFailed,
}

/// How far the compression of one directory has come.
#[derive(Clone, Debug, PartialEq, Eq)]
pub enum Stage {
    /// The uncompressed archive is to be made (Zstandard only).
    Bundle,
    /// The archive itself is to be written.
    Archive,
    /// The archive is written and its size can be read. If `discard_bundle`
    /// is set, the uncompressed archive is to be removed first, ignoring
    /// whether that works.
    Written { discard_bundle: bool },
    /// Compression failed. If `discard_bundle` is set, the uncompressed
    /// archive is still to be removed, ignoring whether that works.
    Failed { error: CompressError, discard_bundle: bool },
}

/// The stage in which the compression in `format` starts.
pub open spec fn first_stage(format: ArchiveFormat) -> Stage {
    if format == ArchiveFormat::Zstd {
        Stage::Bundle
    } else {
        Stage::Archive
    }
}

/// The stage that follows `stage` when the invocation that was due ended
/// with `result`. Nothing follows a stage in which no invocation is due.
pub open spec fn next_stage(stage: Stage, format: ArchiveFormat, result: RunResult) -> Stage {
    match stage {
        Stage::Bundle => match result {
            Err(error) => Stage::Failed { error: CompressError::Spawn(error), discard_bundle: false },
            Ok(outcome) => if outcome.success {
                Stage::Archive
            } else {
                Stage::Failed { error: CompressError::BundleFailed, discard_bundle: false }
            },
        },
        Stage::Archive => match result {
            Err(error) => Stage::Failed { error: CompressError::Spawn(error), discard_bundle: false },
            Ok(outcome) => if outcome.success {
                Stage::Written { discard_bundle: format == ArchiveFormat::Zstd }
            } else {
                Stage::Failed {
                    error: CompressError::ArchiverFailed,
                    discard_bundle: format == ArchiveFormat::Zstd,
                }
            },
        },
        _ => stage,
    }
}

/// The compression of one directory by one run, as a sequence of external
/// invocations. The caller runs the invocation that is due and reports its
/// result, until none is due any more.
#[derive(Clone, Debug, PartialEq, Eq)]
pub struct Compression {
    /// The directory to compress.
    pub dir: String,
    pub format: ArchiveFormat,
    pub run: u32,
    pub stage: Stage,
}

impl Compression {
    /// The invocation that is due in the current stage, if any.
    pub open spec fn due_spec(self) -> Option<InvocationView> {
        match self.stage {
            Stage::Bundle => Some(bundle_command_spec(self.dir@, self.run as nat)),
            Stage::Archive => Some(archive_command_spec(self.dir@, self.format, self.run as nat)),
            _ => None,
        }
    }

    /// The compression after the invocation that was due ended with
    /// `result`: the same directory, format and run, in the stage that follows.
    pub open spec fn next(self, result: RunResult) -> Compression {
        Compression {
            dir: self.dir,
            format: self.format,
            run: self.run,
            stage: next_stage(self.stage, self.format, result),
        }
    }

    /// The invocation that the caller has to run next, if any.
    pub fn due(&self) -> (command: Option<Invocation>)
        ensures
            command is Some <==> self.due_spec() is Some,
            command matches Some(c) ==> Some(c@) == self.due_spec(),
    {
        match &self.stage {
            Stage::Bundle => Some(bundle_command(self.dir.as_str(), self.run)),
            Stage::Archive => Some(archive_command(self.dir.as_str(), self.format, self.run)),
            _ => None,
        }
    }

    /// Takes note of how the invocation that was due ended.
    ///
    /// A program that cannot be launched, or that reports failure, ends the
    /// compression with the matching error. When a stage in which nothing is
    /// due is reported to, nothing changes.
    pub fn advance(self, result: RunResult) -> (next: Compression)
        ensures
            next == self.next(result),
            next.dir == self.dir,
            next.format == self.format,
            next.run == self.run,
            next.stage == next_stage(self.stage, self.format, result),
    {
        let zstd: bool = match self.format {
            ArchiveFormat::Zstd => true,
            _ => false,
        };
        let stage: Stage = match self.stage {
            Stage::Bundle => match result {
                Err(error) => Stage::Failed {
                    error: CompressError::Spawn(error),
                    discard_bundle: false,
                },
                Ok(outcome) => if outcome.success {
                    Stage::Archive
                } else {
                    Stage::Failed { error: CompressError::BundleFailed, discard_bundle: false }
                },
            },
            Stage::Archive => match result {
                Err(error) => Stage::Failed {
                    error: CompressError::Spawn(error),
                    discard_bundle: false,
                },
                Ok(outcome) => if outcome.success {
                    Stage::Written { discard_bundle: zstd }
                } else {
                    Stage::Failed { error: CompressError::ArchiverFailed, discard_bundle: zstd }
                },
            },
            other => other,
        };
        Compression { dir: self.dir, format: self.format, run: self.run, stage }
    }

    /// Name of the archive that this compression writes.
    pub fn archive(&self) -> (path: String)
        ensures
            path@ == archive_path_spec(self.dir@, self.format, self.run as nat),
    {
        archive_path(self.dir.as_str(), self.format, self.run)
    }

    /// Name of the uncompressed archive that a Zstandard compression makes first.
    pub fn bundle(&self) -> (path: String)
        ensures
            path@ == bundle_path_spec(self.dir@, self.run as nat),
    {
        bundle_path(self.dir.as_str(), self.run)
    }
}

/// Prepares the compression of `dir_path` by run number `run_number`.
///
/// Fails with `UnsupportedFormat` exactly when `format` names no known
/// format. Otherwise the compression starts with packing for Zstandard, and
/// with the archiver itself for every other format.
pub fn compress_directory(dir_path: &str, format: &str, run_number: u32) -> (r: Result<
    Compression,
    CompressError,
>)
    ensures
        ArchiveFormat::named(format@) is Some <==> r is Ok,
        ArchiveFormat::named(format@) is None <==> r == Err::<Compression, CompressError>(
            CompressError::UnsupportedFormat,
        ),
        r matches Ok(c) ==> {
            &&& Some(c.format) == ArchiveFormat::named(format@)
            &&& c.dir@ == dir_path@
            &&& c.run == run_number
            &&& c.stage == first_stage(c.format)
        },
{
    match ArchiveFormat::parse(format) {
        None => Err(CompressError::UnsupportedFormat),
        Some(f) => {
            let stage: Stage = match f {
                ArchiveFormat::Zstd => Stage::Bundle,
                _ => Stage::Archive,
            };
            Ok(Compression { dir: String::from_str(dir_path), format: f, run: run_number, stage })
        },
    }
}

/// With tools that succeed, a compression in any format but Zstandard is
/// one invocation of its archiver, after which the archive is written and
/// nothing is to be discarded.
pub proof fn lemma_one_step_compression(c: Compression, result: RunResult)
    requires
        c.format != ArchiveFormat::Zstd,
        c.stage == first_stage(c.format),
        succeeded(result),
    ensures
        c.due_spec() == Some(archive_command_spec(c.dir@, c.format, c.run as nat)),
        c.next(result).stage == (Stage::Written { discard_bundle: false }),
        c.next(result).due_spec() is None,
{
}

/// With tools that succeed, a Zstandard compression is two invocations in
/// this order: `tar` packs the directory, then `zstd` compresses what was
/// packed. After that the archive is written, and the uncompressed archive
/// is to be discarded.
pub proof fn lemma_zstandard_compression(c: Compression, packed: RunResult, compressed: RunResult)
    requires
        c.format == ArchiveFormat::Zstd,
        c.stage == first_stage(c.format),
        succeeded(packed),
        succeeded(compressed),
    ensures
        c.due_spec() == Some(bundle_command_spec(c.dir@, c.run as nat)),
        c.next(packed).due_spec() == Some(
            archive_command_spec(c.dir@, ArchiveFormat::Zstd, c.run as nat),
        ),
        c.next(packed).next(compressed).stage == (Stage::Written { discard_bundle: true }),
        c.next(packed).next(compressed).due_spec() is None,
{
}

/// A compression is written only if every tool it ran succeeded: the first
/// result that is not a success ends it as failed, and it stays so.
pub proof fn lemma_failed_tool_fails_compression(c: Compression, result: RunResult)
    requires
        c.due_spec() is Some,
        !succeeded(result),
    ensures
        c.next(result).stage is Failed,
        c.next(result).due_spec() is None,
        forall|later: RunResult| #[trigger] c.next(result).next(later) == c.next(result),
{
}

/// The suffixes of the formats all begin with a dot and differ from one another.
pub proof fn lemma_suffixes_distinct(a: ArchiveFormat, b: ArchiveFormat)
    ensures
        a.suffix().len() > 0,
        a.suffix()[0] == '.',
        a.suffix() == b.suffix() ==> a == b,
{
    reveal_strlit(".zip");
    reveal_strlit(".tar.gz");
    reveal_strlit(".tar.zst");
    reveal_strlit(".tar.xz");
    reveal_strlit(".7z");
    assert(".zip"@.len() == 4 && ".tar.gz"@.len() == 7 && ".tar.zst"@.len() == 8
        && ".tar.xz"@.len() == 7 && ".7z"@.len() == 3);
    assert(".tar.gz"@[5] != ".tar.xz"@[5]);
}

/// The name of an archive of one directory tells its format and its run
/// number: two names are the same only if both agree. No two trials of a
/// sweep write to the same archive.
pub proof fn lemma_archive_paths_injective(
    dir: Seq<char>,
    format: ArchiveFormat,
    run: nat,
    other_format: ArchiveFormat,
    other_run: nat,
)
    requires
        archive_path_spec(dir, format, run) == archive_path_spec(dir, other_format, other_run),
    ensures
        format == other_format,
        run == other_run,
{
    let before = dir + "_run_"@;
    assert(archive_path_spec(dir, format, run) =~= before + (decimal(run) + format.suffix()));
    assert(archive_path_spec(dir, other_format, other_run) =~= before + (decimal(other_run)
        + other_format.suffix()));
    lemma_same_start(
        before,
        decimal(run) + format.suffix(),
        decimal(other_run) + other_format.suffix(),
    );
    lemma_decimal_value(run);
    lemma_decimal_value(other_run);
    lemma_suffixes_distinct(format, other_format);
    lemma_suffixes_distinct(other_format, format);
    lemma_digits_end_at_first_other(
        decimal(run),
        format.suffix(),
        decimal(other_run),
        other_format.suffix(),
    );
    lemma_decimal_injective(run, other_run);
}

/// The leftover of run number `run_number` in the format named `format`:
/// the archive `benchmark_images_run_<run><suffix>`. A name that selects no
/// format has no leftover.
pub open spec fn leftover_spec(format: Seq<char>, run_number: nat) -> Option<Seq<char>> {
    match ArchiveFormat::named(format) {
        Some(f) => Some(archive_path_spec(benchmark_dir(), f, run_number)),
        None => None,
    }
}

/// Names the archive to delete after run number `run_number`, if `format`
/// names a known format; there is nothing to delete otherwise.
pub fn cleanup_compressed_file(format: &str, run_number: u32) -> (path: Option<String>)
    ensures
        path is Some <==> leftover_spec(format@, run_number as nat) is Some,
        path matches Some(p) ==> Some(p@) == leftover_spec(format@, run_number as nat),
{
    match ArchiveFormat::parse(format) {
        Some(f) => Some(archive_path("benchmark_images", f, run_number)),
        None => None,
    }
}

/// The archives that runs 1 to 200 may have left behind in one format, by run number.
pub open spec fn format_sweep_spec(format: Seq<char>) -> Seq<Seq<char>> {
    match ArchiveFormat::named(format) {
        Some(f) => Seq::new(200, |k: int| archive_path_spec(benchmark_dir(), f, (k + 1) as nat)),
        None => Seq::empty(),
    }
}

/// The archives that runs 1 to 200 may have left behind, format by format
/// in the order given, and by run number within a format.
pub open spec fn sweep_spec(formats: Seq<Seq<char>>) -> Seq<Seq<char>>
    decreases formats.len(),
{
    if formats.len() == 0 {
        Seq::empty()
    } else {
        sweep_spec(formats.drop_last()) + format_sweep_spec(formats.last())
    }
}

/// The contents of a list of string slices.
pub open spec fn slice_texts(v: Seq<&str>) -> Seq<Seq<char>> {
    Seq::new(v.len(), |i: int| v[i]@)
}

/// Lists every archive that may be left over at the end of a run, so that
/// the caller can try to delete each and ignore those that are not there.
/// Names that select no format contribute nothing.
pub fn cleanup_remaining_files(formats: &[&str]) -> (paths: Vec<String>)
    ensures
        texts(paths@) == sweep_spec(slice_texts(formats@)),
{
    let mut paths: Vec<String> = Vec::new();
    let mut i: usize = 0;
    proof {
        assert(slice_texts(formats@).take(0) =~= Seq::<Seq<char>>::empty());
        assert(texts(paths@) =~= Seq::<Seq<char>>::empty());
    }
    while i < formats.len()
        invariant
            i <= formats.len(),
            texts(paths@) == sweep_spec(slice_texts(formats@).take(i as int)),
        decreases formats.len() - i,
    {
        let format: &str = formats[i];
        let ghost before = texts(paths@);
        let mut run: u32 = 1;
        proof {
            let upto = slice_texts(formats@).take(i + 1);
            assert(upto.drop_last() =~= slice_texts(formats@).take(i as int));
            assert(upto.last() == format@);
        }
        while run <= SWEEP_RUNS
            invariant
                1 <= run <= SWEEP_RUNS + 1,
                ArchiveFormat::named(format@) is None ==> texts(paths@) == before,
                ArchiveFormat::named(format@) is Some ==> texts(paths@) == before
                    + format_sweep_spec(format@).take(run - 1),
            decreases SWEEP_RUNS + 1 - run,
        {
            match cleanup_compressed_file(format, run) {
                Some(path) => {
                    push_text(&mut paths, path);
                    assert(texts(paths@) =~= before + format_sweep_spec(format@).take(run as int));
                },
                None => {},
            }
            run = run + 1;
        }
        proof {
            if ArchiveFormat::named(format@) is None {
                assert(before + format_sweep_spec(format@) =~= before);
            } else {
                assert(format_sweep_spec(format@).take(200) =~= format_sweep_spec(format@));
            }
        }
        i = i + 1;
    }
    proof {
        assert(slice_texts(formats@).take(formats.len() as int) =~= slice_texts(formats@));
    }
    paths
}

} // verus!
