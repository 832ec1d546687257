use bench_harness::cleanup::{
    benchmark_file_name, calculate_directory_size, cleanup_images, cleanup_quality_images,
    final_sweep, leftover_directories, progress_due, run_directory, trial_cleanup, Cleanup,
    CleanupPolicy, CleanupStep, EntryInfo,
};
use bench_harness::images::image_path;
use std::collections::BTreeSet;

struct Disk {
    files: BTreeSet<String>,
    stuck: BTreeSet<String>,
    removals: Vec<String>,
}

impl Disk {
    fn holding(paths: &[String]) -> Disk {
        Disk { files: paths.iter().cloned().collect(), stuck: BTreeSet::new(), removals: Vec::new() }
    }

    fn clean(&mut self, artifacts: &[String], policy: CleanupPolicy) -> Cleanup {
        let mut cleanup = Cleanup::start(artifacts.len(), policy);
        while let Some((index, step)) = cleanup.due() {
            let path = &artifacts[index];
            let answer = match step {
                CleanupStep::Probe => self.files.contains(path),
                CleanupStep::Remove => {
                    self.removals.push(path.clone());
                    !self.stuck.contains(path) && self.files.remove(path)
                }
            };
            cleanup = cleanup.advance(answer);
        }
        cleanup
    }
}

#[test]
fn cleaning_up_twice_causes_no_error() {
    let artifacts = cleanup_images("images_run_1", 5);
    let mut disk = Disk::holding(&artifacts);
    assert_eq!(disk.clean(&artifacts, CleanupPolicy::Mandatory), Cleanup::Finished);
    assert!(disk.files.is_empty());
    assert_eq!(disk.removals.len(), 15);
    disk.removals.clear();
    assert_eq!(disk.clean(&artifacts, CleanupPolicy::Mandatory), Cleanup::Finished);
    assert!(disk.removals.is_empty());
}

#[test]
fn artifacts_that_are_gone_are_passed_over() {
    let artifacts = cleanup_images("images_run_1", 4);
    let present: Vec<String> = artifacts.iter().step_by(3).cloned().collect();
    let mut disk = Disk::holding(&present);
    assert_eq!(disk.clean(&artifacts, CleanupPolicy::Mandatory), Cleanup::Finished);
    assert_eq!(disk.removals, present);
    assert!(disk.files.is_empty());
}

#[test]
fn a_mandatory_cleanup_stops_at_what_it_cannot_remove() {
    let artifacts = cleanup_images("d", 2);
    let mut disk = Disk::holding(&artifacts);
    disk.stuck.insert(artifacts[2].clone());
    assert_eq!(disk.clean(&artifacts, CleanupPolicy::Mandatory), Cleanup::Failed { index: 2 });
    assert_eq!(disk.removals, artifacts[..3].to_vec());
    assert_eq!(disk.files.len(), 4);
}

#[test]
fn a_best_effort_cleanup_goes_on_after_a_failed_removal() {
    let artifacts = cleanup_images("d", 2);
    let mut disk = Disk::holding(&artifacts);
    disk.stuck.insert(artifacts[2].clone());
    assert_eq!(disk.clean(&artifacts, CleanupPolicy::BestEffort), Cleanup::Finished);
    assert_eq!(disk.removals, artifacts);
    assert_eq!(disk.files.into_iter().collect::<Vec<_>>(), vec![artifacts[2].clone()]);
}

#[test]
fn cleanup_steps_one_by_one() {
    let cleanup = Cleanup::start(2, CleanupPolicy::Mandatory);
    assert_eq!(cleanup.due(), Some((0, CleanupStep::Probe)));
    let cleanup = cleanup.advance(true);
    assert_eq!(cleanup.due(), Some((0, CleanupStep::Remove)));
    let cleanup = cleanup.advance(true);
    assert_eq!(cleanup.due(), Some((1, CleanupStep::Probe)));
    let cleanup = cleanup.advance(false);
    assert_eq!(cleanup, Cleanup::Finished);
    assert_eq!(cleanup.advance(true), Cleanup::Finished);
    assert_eq!(Cleanup::Failed { index: 1 }.advance(true), Cleanup::Failed { index: 1 });
    assert_eq!(Cleanup::start(0, CleanupPolicy::BestEffort), Cleanup::Finished);
}

#[test]
fn artifacts_of_a_format_trial() {
    assert_eq!(
        cleanup_images("images_run_3", 2),
        vec![
            "images_run_3/image_000.png",
            "images_run_3/image_001.png",
            "images_run_3/image_000.jpg",
            "images_run_3/image_001.jpg",
            "images_run_3/image_000.webp",
            "images_run_3/image_001.webp",
        ]
    );
    assert!(cleanup_images("images_run_3", 0).is_empty());
}

#[test]
fn artifacts_of_a_quality_trial() {
    assert_eq!(
        cleanup_quality_images("test_images_run_1", 2, &[100, 80, 60]),
        vec![
            "test_images_run_1/image_000.png",
            "test_images_run_1/image_001.png",
            "test_images_run_1/image_000_q100.webp",
            "test_images_run_1/image_001_q100.webp",
            "test_images_run_1/image_000_q80.webp",
            "test_images_run_1/image_001_q80.webp",
            "test_images_run_1/image_000_q60.webp",
            "test_images_run_1/image_001_q60.webp",
        ]
    );
    assert_eq!(cleanup_quality_images("t", 1, &[]), vec!["t/image_000.png"]);
}

#[test]
fn working_directories_are_named_by_run_number() {
    assert_eq!(run_directory("images_run_", 1), "images_run_1");
    assert_eq!(run_directory("run_", 10), "run_10");
    assert_eq!(
        leftover_directories("test_images_run_", 3),
        vec!["test_images_run_1", "test_images_run_2", "test_images_run_3"]
    );
    assert!(leftover_directories("images_run_", 0).is_empty());
}

#[test]
fn benchmark_files_have_eight_digits() {
    assert_eq!(benchmark_file_name(42), "file_00000042.dat");
    assert_eq!(benchmark_file_name(0), "file_00000000.dat");
    assert_eq!(benchmark_file_name(99_999_999), "file_99999999.dat");
    assert_eq!(benchmark_file_name(u32::MAX), "file_4294967295.dat");
}

#[test]
fn progress_is_due_every_ten_thousand_files() {
    assert!(!progress_due(0));
    assert!(!progress_due(9_998));
    assert!(progress_due(9_999));
    assert!(!progress_due(10_000));
    assert!(progress_due(19_999));
    assert!(!progress_due(u32::MAX));
    let due = (0..100_000u32).filter(|i| progress_due(*i)).count();
    assert_eq!(due, 10);
}

#[test]
fn directory_size_counts_regular_files_only() {
    let entries = vec![
        EntryInfo { is_file: true, len: 100 },
        EntryInfo { is_file: false, len: 4096 },
        EntryInfo { is_file: true, len: 23 },
    ];
    assert_eq!(calculate_directory_size(&entries), Some(123));
    assert_eq!(calculate_directory_size(&Vec::new()), Some(0));
}

#[test]
fn directory_size_beyond_64_bits_has_no_result() {
    let entries = vec![
        EntryInfo { is_file: true, len: u64::MAX },
        EntryInfo { is_file: false, len: 1 },
    ];
    assert_eq!(calculate_directory_size(&entries), Some(u64::MAX));
    let entries = vec![
        EntryInfo { is_file: true, len: u64::MAX },
        EntryInfo { is_file: true, len: 1 },
    ];
    assert_eq!(calculate_directory_size(&entries), None);
}

#[test]
fn the_cleanup_after_a_trial_is_mandatory() {
    assert_eq!(trial_cleanup(3), Cleanup::start(3, CleanupPolicy::Mandatory));
    assert_eq!(trial_cleanup(0), Cleanup::Finished);
    let stuck = trial_cleanup(2).advance(true).advance(false);
    assert_eq!(stuck, Cleanup::Failed { index: 0 });
}

#[test]
fn the_final_sweep_is_best_effort() {
    assert_eq!(final_sweep(3), Cleanup::start(3, CleanupPolicy::BestEffort));
    assert_eq!(final_sweep(0), Cleanup::Finished);
    let passed_over = final_sweep(2).advance(true).advance(false);
    assert_eq!(passed_over.due(), Some((1, CleanupStep::Probe)));
    assert_eq!(passed_over.advance(true).advance(false), Cleanup::Finished);
}

#[test]
fn images_of_different_runs_have_different_names() {
    let mut names = std::collections::BTreeSet::new();
    for run in 1..=30u32 {
        let dir = run_directory("images_run_", run);
        for i in 0..120u32 {
            for ext in ["png", "jpg", "webp"] {
                assert!(names.insert(image_path(&dir, i, ext)));
            }
        }
    }
    assert_eq!(names.len(), 30 * 120 * 3);
}
