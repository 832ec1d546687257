use bench_harness::archive::{
    all_formats, archive_command, archive_path, bundle_command, bundle_path,
    cleanup_compressed_file, cleanup_remaining_files, compress_directory, ArchiveFormat,
    CompressError, Compression, Stage, SWEEP_RUNS,
};
use bench_harness::command::{Invocation, ProcessOutcome, RunResult, SpawnError};

fn strings(items: &[&str]) -> Vec<String> {
    items.iter().map(|s| s.to_string()).collect()
}

fn ok() -> RunResult {
    Ok(ProcessOutcome { success: true })
}

fn exit_failure() -> RunResult {
    Ok(ProcessOutcome { success: false })
}

fn not_found(program: &str) -> SpawnError {
    SpawnError { program: program.to_string(), cause: "not found".to_string() }
}

#[test]
fn formats_are_found_by_name() {
    assert_eq!(ArchiveFormat::parse("zip"), Some(ArchiveFormat::Zip));
    assert_eq!(ArchiveFormat::parse("tar.gz"), Some(ArchiveFormat::TarGz));
    assert_eq!(ArchiveFormat::parse("zstd"), Some(ArchiveFormat::Zstd));
    assert_eq!(ArchiveFormat::parse("xz"), Some(ArchiveFormat::Xz));
    assert_eq!(ArchiveFormat::parse("7z"), Some(ArchiveFormat::SevenZip));
    assert_eq!(ArchiveFormat::parse("ZIP"), None);
    assert_eq!(ArchiveFormat::parse("rar"), None);
    assert_eq!(ArchiveFormat::parse(""), None);
    assert_eq!(ArchiveFormat::parse("zip "), None);
    for format in all_formats() {
        assert_eq!(ArchiveFormat::parse(format.name_str()), Some(format));
    }
}

#[test]
fn formats_come_in_benchmark_order() {
    let names: Vec<&str> = all_formats().iter().map(|f| f.name_str()).collect();
    assert_eq!(names, vec!["zip", "tar.gz", "zstd", "xz", "7z"]);
    let suffixes: Vec<&str> = all_formats().iter().map(|f| f.suffix_str()).collect();
    assert_eq!(suffixes, vec![".zip", ".tar.gz", ".tar.zst", ".tar.xz", ".7z"]);
}

#[test]
fn archive_names_carry_run_number_and_suffix() {
    assert_eq!(archive_path("benchmark_images", ArchiveFormat::Zip, 3), "benchmark_images_run_3.zip");
    assert_eq!(
        archive_path("benchmark_images", ArchiveFormat::Zstd, 120),
        "benchmark_images_run_120.tar.zst"
    );
    assert_eq!(archive_path("d", ArchiveFormat::SevenZip, u32::MAX), "d_run_4294967295.7z");
    assert_eq!(bundle_path("benchmark_images", 7), "benchmark_images_run_7.tar");
}

#[test]
fn archiver_invocations() {
    let dir = "benchmark_images";
    assert_eq!(
        archive_command(dir, ArchiveFormat::Zip, 1),
        Invocation {
            program: "zip".to_string(),
            args: strings(&["-r", "-q", "benchmark_images_run_1.zip", dir]),
            quiet: false,
        }
    );
    assert_eq!(
        archive_command(dir, ArchiveFormat::TarGz, 2),
        Invocation {
            program: "tar".to_string(),
            args: strings(&["-czf", "benchmark_images_run_2.tar.gz", "-C", ".", dir]),
            quiet: false,
        }
    );
    assert_eq!(
        archive_command(dir, ArchiveFormat::Zstd, 3),
        Invocation {
            program: "zstd".to_string(),
            args: strings(&["benchmark_images_run_3.tar", "-o", "benchmark_images_run_3.tar.zst"]),
            quiet: false,
        }
    );
    assert_eq!(
        archive_command(dir, ArchiveFormat::Xz, 4),
        Invocation {
            program: "tar".to_string(),
            args: strings(&["-cJf", "benchmark_images_run_4.tar.xz", "-C", ".", dir]),
            quiet: false,
        }
    );
    assert_eq!(
        archive_command(dir, ArchiveFormat::SevenZip, 5),
        Invocation {
            program: "7z".to_string(),
            args: strings(&["a", "-t7z", "benchmark_images_run_5.7z", dir]),
            quiet: true,
        }
    );
    assert_eq!(
        bundle_command(dir, 3),
        Invocation {
            program: "tar".to_string(),
            args: strings(&["-cf", "benchmark_images_run_3.tar", "-C", ".", dir]),
            quiet: false,
        }
    );
}

#[test]
fn an_unknown_format_is_rejected() {
    assert_eq!(compress_directory("d", "rar", 1), Err(CompressError::UnsupportedFormat));
    assert_eq!(compress_directory("d", "", 1), Err(CompressError::UnsupportedFormat));
}

#[test]
fn a_single_step_format_runs_its_archiver_and_is_written() {
    let c = compress_directory("benchmark_images", "zip", 9).unwrap();
    assert_eq!(
        c,
        Compression {
            dir: "benchmark_images".to_string(),
            format: ArchiveFormat::Zip,
            run: 9,
            stage: Stage::Archive,
        }
    );
    assert_eq!(c.due(), Some(archive_command("benchmark_images", ArchiveFormat::Zip, 9)));
    let c = c.advance(ok());
    assert_eq!(c.stage, Stage::Written { discard_bundle: false });
    assert_eq!(c.due(), None);
    assert_eq!(c.archive(), "benchmark_images_run_9.zip");
}

#[test]
fn a_failing_archiver_fails_the_compression() {
    for name in ["zip", "tar.gz", "xz", "7z"] {
        let c = compress_directory("d", name, 1).unwrap().advance(exit_failure());
        assert_eq!(
            c.stage,
            Stage::Failed { error: CompressError::ArchiverFailed, discard_bundle: false }
        );
        assert_eq!(c.due(), None);
        let c = compress_directory("d", name, 1).unwrap().advance(Err(not_found(name)));
        assert_eq!(
            c.stage,
            Stage::Failed { error: CompressError::Spawn(not_found(name)), discard_bundle: false }
        );
    }
}

#[test]
fn zstandard_packs_first_and_discards_the_bundle() {
    let c = compress_directory("benchmark_images", "zstd", 2).unwrap();
    assert_eq!(c.stage, Stage::Bundle);
    assert_eq!(c.due(), Some(bundle_command("benchmark_images", 2)));
    let c = c.advance(ok());
    assert_eq!(c.stage, Stage::Archive);
    assert_eq!(c.due(), Some(archive_command("benchmark_images", ArchiveFormat::Zstd, 2)));
    let c = c.advance(ok());
    assert_eq!(c.stage, Stage::Written { discard_bundle: true });
    assert_eq!(c.bundle(), "benchmark_images_run_2.tar");
    assert_eq!(c.archive(), "benchmark_images_run_2.tar.zst");
    assert_eq!(c.clone().advance(exit_failure()), c);
}

#[test]
fn zstandard_failures() {
    let start = compress_directory("d", "zstd", 1).unwrap();
    assert_eq!(
        start.clone().advance(exit_failure()).stage,
        Stage::Failed { error: CompressError::BundleFailed, discard_bundle: false }
    );
    assert_eq!(
        start.clone().advance(Err(not_found("tar"))).stage,
        Stage::Failed { error: CompressError::Spawn(not_found("tar")), discard_bundle: false }
    );
    let packed = start.advance(ok());
    assert_eq!(
        packed.clone().advance(exit_failure()).stage,
        Stage::Failed { error: CompressError::ArchiverFailed, discard_bundle: true }
    );
    assert_eq!(
        packed.advance(Err(not_found("zstd"))).stage,
        Stage::Failed { error: CompressError::Spawn(not_found("zstd")), discard_bundle: false }
    );
}

#[test]
fn the_leftover_of_a_run() {
    assert_eq!(
        cleanup_compressed_file("zip", 1),
        Some("benchmark_images_run_1.zip".to_string())
    );
    assert_eq!(
        cleanup_compressed_file("zstd", 200),
        Some("benchmark_images_run_200.tar.zst".to_string())
    );
    assert_eq!(cleanup_compressed_file("rar", 1), None);
}

#[test]
fn the_final_sweep_covers_two_hundred_runs_of_each_format() {
    let paths = cleanup_remaining_files(&["zip", "tar.gz", "zstd", "xz", "7z"]);
    assert_eq!(SWEEP_RUNS, 200);
    assert_eq!(paths.len(), 1000);
    assert_eq!(paths[0], "benchmark_images_run_1.zip");
    assert_eq!(paths[199], "benchmark_images_run_200.zip");
    assert_eq!(paths[200], "benchmark_images_run_1.tar.gz");
    assert_eq!(paths[999], "benchmark_images_run_200.7z");
    let mut expected = Vec::new();
    for suffix in [".zip", ".tar.gz", ".tar.zst", ".tar.xz", ".7z"] {
        for run in 1..=200 {
            expected.push(format!("benchmark_images_run_{}{}", run, suffix));
        }
    }
    assert_eq!(paths, expected);
}

#[test]
fn the_final_sweep_passes_over_unknown_formats() {
    assert!(cleanup_remaining_files(&[]).is_empty());
    assert!(cleanup_remaining_files(&["rar"]).is_empty());
    let paths = cleanup_remaining_files(&["rar", "xz", "lzma"]);
    assert_eq!(paths.len(), 200);
    assert_eq!(paths[0], "benchmark_images_run_1.tar.xz");
}

#[test]
fn every_known_format_is_compressed_when_its_tools_succeed() {
    let expected: [(&str, Vec<&str>); 5] = [
        ("zip", vec!["zip"]),
        ("tar.gz", vec!["tar"]),
        ("zstd", vec!["tar", "zstd"]),
        ("xz", vec!["tar"]),
        ("7z", vec!["7z"]),
    ];
    for (name, programs) in expected {
        let started = compress_directory("benchmark_images", name, 3);
        assert!(started.is_ok(), "format {}", name);
        let mut compression = started.unwrap();
        let mut launched: Vec<String> = Vec::new();
        while let Some(invocation) = compression.due() {
            launched.push(invocation.program);
            compression = compression.advance(ok());
        }
        assert_eq!(launched, programs);
        assert_eq!(compression.stage, Stage::Written { discard_bundle: name == "zstd" });
        assert_eq!(
            compression.archive(),
            archive_path("benchmark_images", ArchiveFormat::parse(name).unwrap(), 3)
        );
    }
}

#[test]
fn a_zstandard_run_packs_and_then_compresses() {
    let compression = compress_directory("benchmark_images", "zstd", 3).unwrap();
    let first = compression.due().unwrap();
    assert_eq!(first.program, "tar");
    assert_eq!(
        first.args,
        strings(&["-cf", "benchmark_images_run_3.tar", "-C", ".", "benchmark_images"])
    );
    let compression = compression.advance(ok());
    let second = compression.due().unwrap();
    assert_eq!(second.program, "zstd");
    assert_eq!(
        second.args,
        strings(&["benchmark_images_run_3.tar", "-o", "benchmark_images_run_3.tar.zst"])
    );
    let compression = compression.advance(ok());
    assert_eq!(compression.due(), None);
    assert_eq!(compression.archive(), "benchmark_images_run_3.tar.zst");
}

#[test]
fn archives_of_different_formats_or_runs_have_different_names() {
    let mut names = std::collections::BTreeSet::new();
    for format in all_formats() {
        for run in 1..=300u32 {
            assert!(names.insert(archive_path("benchmark_images", format, run)));
        }
    }
    assert_eq!(names.len(), 1500);
}
