//! Removing what trials leave on disk.
//!
//! The names of a trial's artifacts follow from its parameters alone, so the
//! lists below can be rebuilt at any time. Removal itself is a small state
//! machine: each artifact is first looked for and removed only if it is
//! there, which makes a second cleanup of the same artifacts a sequence of
//! lookups and nothing else.

use crate::images::{
    image_path, image_path_spec, lemma_image_paths_injective, quality_path, quality_path_spec,
};
use crate::text::{
    decimal, decimal_string, lemma_decimal_injective, lemma_decimal_value,
    lemma_digits_end_at_first_other, lemma_same_start, push_text, texts, zero_padded,
    zero_padded_string,
};
use vstd::prelude::*;
use vstd::string::StringExecFns;

verus! {

/// What to do when an artifact that is there cannot be removed.
#[derive(Clone, Copy, Debug, PartialEq, Eq, Structural)]
pub enum CleanupPolicy {
    /// Give up: the cleanup after a trial must not leave anything behind.
    Mandatory,
    /// Go on with the next artifact: the final sweep removes what it can.
    BestEffort,
}

/// What the caller has to do with the artifact at hand.
#[derive(Clone, Copy, Debug, PartialEq, Eq, Structural)]
pub enum CleanupStep {
    /// Find out whether the artifact exists.
    Probe,
    /// Remove the artifact.
    Remove,
}

/// The state of a cleanup over a list of `count` artifacts.
#[derive(Clone, Copy, Debug, PartialEq, Eq, Structural)]
pub enum Cleanup {
    /// `step` is due on the artifact at position `index`.
    Running { index: usize, count: usize, step: CleanupStep, policy: CleanupPolicy },
    /// Every artifact was dealt with.
    Finished,
    /// The artifact at position `index` was there and could not be removed.
    Failed { index: usize },
}

/// The state of a cleanup that turns to the artifact at position `index`.
pub open spec fn probing(index: int, count: usize, policy: CleanupPolicy) -> Cleanup {
    if index < count {
        Cleanup::Running { index: index as usize, count, step: CleanupStep::Probe, policy }
    } else {
        Cleanup::Finished
    }
}

impl Cleanup {
    /// A running cleanup is at a position inside its list.
    pub open spec fn wf(self) -> bool {
        self matches Cleanup::Running { index, count, step, policy } ==> index < count
    }

    /// The state before any artifact was looked at.
    pub open spec fn initial(count: usize, policy: CleanupPolicy) -> Cleanup {
        probing(0, count, policy)
    }

    /// The state that follows the caller's answer to the step that was due:
    /// for a probe, whether the artifact exists; for a removal, whether it
    /// worked. An artifact that is not there is passed over. A cleanup that
    /// is over stays as it is.
    pub open spec fn next(self, answer: bool) -> Cleanup {
        match self {
            Cleanup::Running { index, count, step, policy } => {
                if step == CleanupStep::Probe && answer {
                    Cleanup::Running { index, count, step: CleanupStep::Remove, policy }
                } else if step == CleanupStep::Remove && !answer && policy
                    == CleanupPolicy::Mandatory {
                    Cleanup::Failed { index }
                } else {
                    probing(index + 1, count, policy)
                }
            },
            _ => self,
        }
    }

    /// The state after the answers of `answers` were given one by one.
    pub open spec fn after(self, answers: Seq<bool>) -> Cleanup
        decreases answers.len(),
    {
        if answers.len() == 0 {
            self
        } else {
            self.after(answers.drop_last()).next(answers.last())
        }
    }

    /// The position and the step that are due, while the cleanup is going on.
    pub open spec fn due_spec(self) -> Option<(usize, CleanupStep)> {
        match self {
            Cleanup::Running { index, count, step, policy } => Some((index, step)),
            _ => None,
        }
    }

    /// Begins the cleanup of a list of `count` artifacts.
    pub fn start(count: usize, policy: CleanupPolicy) -> (cleanup: Cleanup)
        ensures
            cleanup == Cleanup::initial(count, policy),
            cleanup.wf(),
            count == 0 <==> cleanup == Cleanup::Finished,
            count > 0 ==> cleanup.due_spec() == Some((0usize, CleanupStep::Probe)),
    {
        if count == 0 {
            Cleanup::Finished
        } else {
            Cleanup::Running { index: 0, count, step: CleanupStep::Probe, policy }
        }
    }

    /// The position in the list and the step that the caller has to perform next, if any.
    pub fn due(&self) -> (d: Option<(usize, CleanupStep)>)
        ensures
            d == self.due_spec(),
    {
        match self {
            Cleanup::Running { index, count, step, policy } => Some((*index, *step)),
            _ => None,
        }
    }

    /// Takes note of the caller's answer to the step that was due.
    pub fn advance(self, answer: bool) -> (cleanup: Cleanup)
        ensures
            cleanup == self.next(answer),
            self.wf() ==> cleanup.wf(),
    {
        match self {
            Cleanup::Running { index, count, step, policy } => {
                let present: bool = match step {
                    CleanupStep::Probe => answer,
                    CleanupStep::Remove => false,
                };
                let refused: bool = match (step, policy) {
                    (CleanupStep::Remove, CleanupPolicy::Mandatory) => !answer,
                    _ => false,
                };
                if present {
                    Cleanup::Running { index, count, step: CleanupStep::Remove, policy }
                } else if refused {
                    Cleanup::Failed { index }
                } else if index < count && count - index > 1 {
                    Cleanup::Running { index: index + 1, count, step: CleanupStep::Probe, policy }
                } else {
                    Cleanup::Finished
                }
            },
            other => other,
        }
    }
}

/// Begins the cleanup after a trial, over a list of `count` artifacts. It
/// is mandatory: an artifact that is there and cannot be removed stops it,
/// and with it the run.
pub fn trial_cleanup(count: usize) -> (cleanup: Cleanup)
    ensures
        cleanup == Cleanup::initial(count, CleanupPolicy::Mandatory),
        cleanup.wf(),
{
    Cleanup::start(count, CleanupPolicy::Mandatory)
}

/// Begins the sweep at the end of a run, over a list of `count` artifacts
/// that may have been left behind. It is best effort: what cannot be
/// removed is passed over, and the sweep never fails.
pub fn final_sweep(count: usize) -> (cleanup: Cleanup)
    ensures
        cleanup == Cleanup::initial(count, CleanupPolicy::BestEffort),
        cleanup.wf(),
{
    Cleanup::start(count, CleanupPolicy::BestEffort)
}

/// Cleaning up what is already gone asks for no removal and cannot fail:
/// while every probe answers that the artifact is absent, the cleanup
/// goes from one probe to the next and finishes after the last one.
pub proof fn lemma_absent_artifacts_are_skipped(
    count: usize,
    policy: CleanupPolicy,
    answers: Seq<bool>,
)
    requires
        forall|j: int| 0 <= j < answers.len() ==> !#[trigger] answers[j],
    ensures
        Cleanup::initial(count, policy).after(answers) == probing(
            answers.len() as int,
            count,
            policy,
        ),
        answers.len() >= count ==> Cleanup::initial(count, policy).after(answers)
            == Cleanup::Finished,
    decreases answers.len(),
{
    if answers.len() > 0 {
        let earlier = answers.drop_last();
        assert forall|j: int| 0 <= j < earlier.len() implies !#[trigger] earlier[j] by {
            assert(earlier[j] == answers[j]);
        }
        lemma_absent_artifacts_are_skipped(count, policy, earlier);
        assert(!answers[answers.len() - 1]);
    }
}

/// A best-effort cleanup never fails, whatever the probes and removals answer.
pub proof fn lemma_best_effort_never_fails(count: usize, answers: Seq<bool>)
    ensures
        !(Cleanup::initial(count, CleanupPolicy::BestEffort).after(answers) is Failed),
        Cleanup::initial(count, CleanupPolicy::BestEffort).after(answers) matches Cleanup::Running {
            policy,
            ..
        } ==> policy == CleanupPolicy::BestEffort,
    decreases answers.len(),
{
    if answers.len() > 0 {
        lemma_best_effort_never_fails(count, answers.drop_last());
    }
}

/// A cleanup that is over, finished or failed, ignores whatever is answered to it.
pub proof fn lemma_cleanup_at_rest_stays(cleanup: Cleanup, answers: Seq<bool>)
    requires
        cleanup.due_spec() is None,
    ensures
        cleanup.after(answers) == cleanup,
    decreases answers.len(),
{
    if answers.len() > 0 {
        lemma_cleanup_at_rest_stays(cleanup, answers.drop_last());
    }
}

/// How many steps a cleanup may still take at most.
pub open spec fn steps_left(cleanup: Cleanup) -> nat {
    match cleanup {
        Cleanup::Running { index, count, step, policy } => if index >= count {
            0
        } else if step == CleanupStep::Probe {
            (2 * (count - index)) as nat
        } else {
            (2 * (count - index) - 1) as nat
        },
        _ => 0,
    }
}

/// A cleanup carried through on a disk that behaves: `present` holds the
/// positions of the artifacts that exist, every probe is answered
/// accordingly, and every removal works and takes the artifact away. The
/// result is the state in which the cleanup comes to rest, and what is then
/// left on the disk.
pub open spec fn carried_out(cleanup: Cleanup, present: Set<int>) -> (Cleanup, Set<int>)
    decreases steps_left(cleanup),
{
    match cleanup {
        Cleanup::Running { index, count, step, policy } => if index >= count {
            (cleanup, present)
        } else if step == CleanupStep::Probe {
            carried_out(cleanup.next(present.contains(index as int)), present)
        } else {
            carried_out(cleanup.next(true), present.remove(index as int))
        },
        _ => (cleanup, present),
    }
}

/// On a disk that behaves, a cleanup that has come to position `index`
/// finishes and leaves none of the artifacts from that position on, while
/// what was there before that position stays as it was.
proof fn lemma_carried_out_from(index: int, count: usize, policy: CleanupPolicy, present: Set<int>)
    requires
        0 <= index <= count,
    ensures
        carried_out(probing(index, count, policy), present).0 == Cleanup::Finished,
        forall|i: int| #[trigger]
            carried_out(probing(index, count, policy), present).1.contains(i) <==> present.contains(
                i,
            ) && !(index <= i < count),
    decreases count - index,
{
    if index < count {
        let here = probing(index, count, policy);
        if present.contains(index) {
            let removing = here.next(true);
            assert(removing == Cleanup::Running {
                index: index as usize,
                count,
                step: CleanupStep::Remove,
                policy,
            });
            assert(removing.next(true) == probing(index + 1, count, policy));
            lemma_carried_out_from(index + 1, count, policy, present.remove(index));
            assert(carried_out(here, present) == carried_out(removing, present));
            assert(carried_out(removing, present) == carried_out(
                probing(index + 1, count, policy),
                present.remove(index),
            ));
        } else {
            assert(here.next(false) == probing(index + 1, count, policy));
            lemma_carried_out_from(index + 1, count, policy, present);
        }
    }
}

/// Cleanup is idempotent. On a disk that behaves, a cleanup finishes
/// without failure and leaves none of its artifacts; carried out once more
/// on what is left, it finishes again and changes nothing.
pub proof fn lemma_cleanup_is_idempotent(count: usize, policy: CleanupPolicy, present: Set<int>)
    ensures
        carried_out(Cleanup::initial(count, policy), present).0 == Cleanup::Finished,
        forall|i: int|
            0 <= i < count ==> !carried_out(Cleanup::initial(count, policy), present).1.contains(i),
        carried_out(
            Cleanup::initial(count, policy),
            carried_out(Cleanup::initial(count, policy), present).1,
        ) == (Cleanup::Finished, carried_out(Cleanup::initial(count, policy), present).1),
{
    assert(Cleanup::initial(count, policy) == probing(0, count, policy));
    let once = carried_out(Cleanup::initial(count, policy), present);
    lemma_carried_out_from(0, count, policy, present);
    lemma_carried_out_from(0, count, policy, once.1);
    let twice = carried_out(probing(0, count, policy), once.1);
    assert forall|i: int| twice.1.contains(i) <==> once.1.contains(i) by {
        assert(carried_out(probing(0, count, policy), once.1).1.contains(i) <==> once.1.contains(i)
            && !(0 <= i < count));
        assert(carried_out(probing(0, count, policy), present).1.contains(i) <==> present.contains(
            i,
        ) && !(0 <= i < count));
    }
    assert(twice.1 =~= once.1);
}

/// The images numbered 0 to `count - 1` in one format, by number.
pub open spec fn images_spec(dir: Seq<char>, count: nat, ext: Seq<char>) -> Seq<Seq<char>> {
    Seq::new(count, |i: int| image_path_spec(dir, i as nat, ext))
}

/// The WebP renditions of images 0 to `count - 1` at one quality, by number.
pub open spec fn renditions_spec(dir: Seq<char>, count: nat, quality: nat) -> Seq<Seq<char>> {
    Seq::new(count, |i: int| quality_path_spec(dir, i as nat, quality))
}

/// The renditions at each of the given qualities, quality by quality.
pub open spec fn all_renditions_spec(dir: Seq<char>, count: nat, qualities: Seq<u32>) -> Seq<
    Seq<char>,
>
    decreases qualities.len(),
{
    if qualities.len() == 0 {
        Seq::empty()
    } else {
        all_renditions_spec(dir, count, qualities.drop_last()) + renditions_spec(
            dir,
            count,
            qualities.last() as nat,
        )
    }
}

/// What a trial of the format comparison leaves under `dir`: all PNG
/// images, then all JPEG images, then all WebP images.
pub open spec fn format_artifacts_spec(dir: Seq<char>, count: nat) -> Seq<Seq<char>> {
    images_spec(dir, count, "png"@) + images_spec(dir, count, "jpg"@) + images_spec(
        dir,
        count,
        "webp"@,
    )
}

/// What a trial of the quality comparison leaves under `dir`: all PNG
/// images, then the renditions quality by quality.
pub open spec fn quality_artifacts_spec(dir: Seq<char>, count: nat, qualities: Seq<u32>) -> Seq<
    Seq<char>,
> {
    images_spec(dir, count, "png"@) + all_renditions_spec(dir, count, qualities)
}

fn push_images(paths: &mut Vec<String>, dir: &str, count: u32, ext: &str)
    ensures
        texts(final(paths)@) == texts(old(paths)@) + images_spec(dir@, count as nat, ext@),
{
    let ghost before = texts(paths@);
    let mut i: u32 = 0;
    proof {
        assert(texts(paths@) =~= before + images_spec(dir@, 0, ext@));
    }
    while i < count
        invariant
            i <= count,
            texts(paths@) == before + images_spec(dir@, i as nat, ext@),
        decreases count - i,
    {
        push_text(paths, image_path(dir, i, ext));
        i = i + 1;
        proof {
            assert(texts(paths@) =~= before + images_spec(dir@, i as nat, ext@));
        }
    }
}

fn push_renditions(paths: &mut Vec<String>, dir: &str, count: u32, quality: u32)
    ensures
        texts(final(paths)@) == texts(old(paths)@) + renditions_spec(
            dir@,
            count as nat,
            quality as nat,
        ),
{
    let ghost before = texts(paths@);
    let mut i: u32 = 0;
    proof {
        assert(texts(paths@) =~= before + renditions_spec(dir@, 0, quality as nat));
    }
    while i < count
        invariant
            i <= count,
            texts(paths@) == before + renditions_spec(dir@, i as nat, quality as nat),
        decreases count - i,
    {
        push_text(paths, quality_path(dir, i, quality));
        i = i + 1;
        proof {
            assert(texts(paths@) =~= before + renditions_spec(dir@, i as nat, quality as nat));
        }
    }
}

/// Lists the files that a trial of the format comparison leaves under
/// `output_dir`, in the order in which they are to be removed.
pub fn cleanup_images(output_dir: &str, image_count: u32) -> (paths: Vec<String>)
    ensures
        texts(paths@) == format_artifacts_spec(output_dir@, image_count as nat),
        paths.len() == 3 * image_count,
{
    let mut paths: Vec<String> = Vec::new();
    proof {
        assert(texts(paths@) =~= Seq::<Seq<char>>::empty());
    }
    push_images(&mut paths, output_dir, image_count, "png");
    push_images(&mut paths, output_dir, image_count, "jpg");
    push_images(&mut paths, output_dir, image_count, "webp");
    proof {
        assert(texts(paths@) =~= format_artifacts_spec(output_dir@, image_count as nat));
        assert(texts(paths@).len() == paths@.len());
    }
    paths
}

/// Lists the files that a trial of the quality comparison leaves under
/// `output_dir`, in the order in which they are to be removed.
pub fn cleanup_quality_images(output_dir: &str, image_count: u32, quality_levels: &[u32]) -> (paths:
    Vec<String>)
    ensures
        texts(paths@) == quality_artifacts_spec(output_dir@, image_count as nat, quality_levels@),
{
    let mut paths: Vec<String> = Vec::new();
    proof {
        assert(texts(paths@) =~= Seq::<Seq<char>>::empty());
    }
    push_images(&mut paths, output_dir, image_count, "png");
    let ghost pngs = texts(paths@);
    let mut k: usize = 0;
    proof {
        assert(quality_levels@.take(0) =~= Seq::<u32>::empty());
        assert(pngs =~= images_spec(output_dir@, image_count as nat, "png"@));
        assert(texts(paths@) =~= pngs + all_renditions_spec(
            output_dir@,
            image_count as nat,
            quality_levels@.take(0),
        ));
    }
    while k < quality_levels.len()
        invariant
            k <= quality_levels.len(),
            pngs == images_spec(output_dir@, image_count as nat, "png"@),
            texts(paths@) == pngs + all_renditions_spec(
                output_dir@,
                image_count as nat,
                quality_levels@.take(k as int),
            ),
        decreases quality_levels.len() - k,
    {
        proof {
            let upto = quality_levels@.take(k + 1);
            assert(upto.drop_last() =~= quality_levels@.take(k as int));
            assert(upto.last() == quality_levels@[k as int]);
        }
        push_renditions(&mut paths, output_dir, image_count, quality_levels[k]);
        k = k + 1;
        proof {
            assert(texts(paths@) =~= pngs + all_renditions_spec(
                output_dir@,
                image_count as nat,
                quality_levels@.take(k as int),
            ));
        }
    }
    proof {
        assert(quality_levels@.take(quality_levels.len() as int) =~= quality_levels@);
    }
    paths
}

/// `<prefix><run>`, the working directory of run number `run`.
pub open spec fn run_directory_spec(prefix: Seq<char>, run: nat) -> Seq<char> {
    prefix + decimal(run)
}

/// The working directories of runs 1 to `rounds`, by run number.
pub open spec fn run_directories_spec(prefix: Seq<char>, rounds: nat) -> Seq<Seq<char>> {
    Seq::new(rounds, |k: int| run_directory_spec(prefix, (k + 1) as nat))
}

/// The name of an image tells the run whose working directory holds it, its
/// number and its format: the names of two images in working directories of
/// one prefix are the same only if all three agree. Trials of different
/// runs never touch the same file.
pub proof fn lemma_run_image_paths_injective(
    prefix: Seq<char>,
    run: nat,
    i: nat,
    ext: Seq<char>,
    other_run: nat,
    j: nat,
    other_ext: Seq<char>,
)
    requires
        image_path_spec(run_directory_spec(prefix, run), i, ext) == image_path_spec(
            run_directory_spec(prefix, other_run),
            j,
            other_ext,
        ),
    ensures
        run == other_run,
        i == j,
        ext == other_ext,
{
    reveal_strlit("/image_");
    let x = "/image_"@ + zero_padded(i, 3) + "."@ + ext;
    let y = "/image_"@ + zero_padded(j, 3) + "."@ + other_ext;
    assert(image_path_spec(run_directory_spec(prefix, run), i, ext) =~= prefix + (decimal(run)
        + x));
    assert(image_path_spec(run_directory_spec(prefix, other_run), j, other_ext) =~= prefix + (
    decimal(other_run) + y));
    lemma_same_start(prefix, decimal(run) + x, decimal(other_run) + y);
    lemma_decimal_value(run);
    lemma_decimal_value(other_run);
    assert(x[0] == '/' && y[0] == '/');
    lemma_digits_end_at_first_other(decimal(run), x, decimal(other_run), y);
    lemma_decimal_injective(run, other_run);
    lemma_image_paths_injective(run_directory_spec(prefix, run), i, ext, j, other_ext);
}

/// Working directories of different runs have different names.
pub proof fn lemma_run_directories_distinct(prefix: Seq<char>, run: nat, other_run: nat)
    requires
        run_directory_spec(prefix, run) == run_directory_spec(prefix, other_run),
    ensures
        run == other_run,
{
    lemma_same_start(prefix, decimal(run), decimal(other_run));
    lemma_decimal_injective(run, other_run);
}

/// Names the working directory of run number `run`.
pub fn run_directory(prefix: &str, run: u32) -> (path: String)
    ensures
        path@ == run_directory_spec(prefix@, run as nat),
{
    let mut path: String = String::from_str(prefix);
    path.append(decimal_string(run as u64).as_str());
    path
}

/// Lists the working directories that runs 1 to `rounds` may have left
/// behind, so that the caller can empty and remove those that still exist.
pub fn leftover_directories(prefix: &str, rounds: u32) -> (paths: Vec<String>)
    ensures
        texts(paths@) == run_directories_spec(prefix@, rounds as nat),
        paths.len() == rounds,
{
    let mut paths: Vec<String> = Vec::new();
    let mut done: u32 = 0;
    proof {
        assert(texts(paths@) =~= run_directories_spec(prefix@, 0));
    }
    while done < rounds
        invariant
            done <= rounds,
            texts(paths@) == run_directories_spec(prefix@, done as nat),
        decreases rounds - done,
    {
        push_text(&mut paths, run_directory(prefix, done + 1));
        done = done + 1;
        proof {
            assert(texts(paths@) =~= run_directories_spec(prefix@, done as nat));
        }
    }
    proof {
        assert(texts(paths@).len() == paths@.len());
    }
    paths
}

/// `file_<index, eight digits or more>.dat`
pub open spec fn benchmark_file_spec(index: nat) -> Seq<char> {
    "file_"@ + zero_padded(index, 8) + ".dat"@
}

/// Names the file number `index` that the write benchmark creates.
pub fn benchmark_file_name(index: u32) -> (name: String)
    ensures
        name@ == benchmark_file_spec(index as nat),
{
    let mut name: String = String::from_str("file_");
    name.append(zero_padded_string(index as u64, 8).as_str());
    name.append(".dat");
    name
}

/// Files written between two progress lines of the write benchmark.
pub const PROGRESS_INTERVAL: u32 = 10_000;

/// Whether a progress line is due after file number `index` was written:
/// it is after every 10000th file.
pub fn progress_due(index: u32) -> (due: bool)
    ensures
        due <==> (index + 1) % 10_000 == 0,
{
    index % PROGRESS_INTERVAL == PROGRESS_INTERVAL - 1
}

/// What is known of one directory entry.
#[derive(Clone, Copy, Debug, PartialEq, Eq, Structural)]
pub struct EntryInfo {
    /// The entry is a regular file.
    pub is_file: bool,
    /// Its length in bytes.
    pub len: u64,
}

/// The lengths of the regular files among `entries`, added up.
pub open spec fn files_size(entries: Seq<EntryInfo>) -> nat
    decreases entries.len(),
{
    if entries.len() == 0 {
        0
    } else if entries.last().is_file {
        files_size(entries.drop_last()) + entries.last().len as nat
    } else {
        files_size(entries.drop_last())
    }
}

proof fn lemma_files_size_grows(entries: Seq<EntryInfo>, k: int)
    requires
        0 <= k <= entries.len(),
    ensures
        files_size(entries.take(k)) <= files_size(entries),
    decreases entries.len(),
{
    if k == entries.len() {
        assert(entries.take(k) =~= entries);
    } else {
        lemma_files_size_grows(entries.drop_last(), k);
        assert(entries.drop_last().take(k) =~= entries.take(k));
    }
}

/// Adds up the lengths of the regular files of a directory; other entries
/// do not count. There is no result if the sum does not fit in 64 bits.
pub fn calculate_directory_size(entries: &Vec<EntryInfo>) -> (total: Option<u64>)
    ensures
        total is Some <==> files_size(entries@) <= u64::MAX,
        total matches Some(t) ==> t == files_size(entries@),
{
    let mut total: u64 = 0;
    let mut i: usize = 0;
    proof {
        assert(entries@.take(0) =~= Seq::<EntryInfo>::empty());
    }
    while i < entries.len()
        invariant
            i <= entries.len(),
            total == files_size(entries@.take(i as int)),
        decreases entries.len() - i,
    {
        proof {
            let upto = entries@.take(i + 1);
            assert(upto.drop_last() =~= entries@.take(i as int));
            assert(upto.last() == entries@[i as int]);
            lemma_files_size_grows(entries@, i + 1);
        }
        if entries[i].is_file {
            match total.checked_add(entries[i].len) {
                Some(sum) => {
                    total = sum;
                },
                None => {
                    return None;
                },
            }
        }
        i = i + 1;
    }
    proof {
        assert(entries@.take(entries.len() as int) =~= entries@);
    }
    Some(total)
}

} // verus!
