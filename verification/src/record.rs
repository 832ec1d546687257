//! The records that a trial hands to the result sink.
//!
//! A record is a snapshot of a trial's configuration and of what was derived
//! from its measurements. It is made once and not changed afterwards.

use crate::metrics::{items_per_second, megabytes_per_second, size_ratio, Elapsed};
use crate::ratio::Ratio;
use crate::stats::{aggregate, stats_of, SizeStats, StatsError};
use vstd::prelude::*;
use vstd::string::StringExecFns;

verus! {

/// The upper-case form of a text, as the standard library defines it for
/// Unicode.
pub uninterp spec fn uppercase(text: Seq<char>) -> Seq<char>;

/// Calls `str::to_uppercase` of the standard library, which returns the
/// upper-case equivalent of the text as a new string. The result depends on
/// the text alone; it is named here, not spelled out.
#[verifier::external_body]
fn to_uppercase(text: &str) -> (upper: String)
    ensures
        upper@ == uppercase(text@),
{
    text.to_uppercase()
}

/// Size statistics of the images of one format in one trial.
#[derive(Clone, Debug, PartialEq, Eq)]
pub struct ImageStats {
    pub run_number: u32,
    /// The format's name in upper case.
    pub format: String,
    pub stats: SizeStats,
}

/// Size statistics of the images at one quality level in one trial.
#[derive(Clone, Copy, Debug, PartialEq, Eq, Structural)]
pub struct ImageQualityStats {
    pub run_number: u32,
    /// Quality in percent.
    pub quality: u32,
    pub stats: SizeStats,
    /// Total size relative to the total size of the source images, where
    /// that is not zero.
    pub compression_ratio: Option<Ratio>,
}

/// What one trial of the archive benchmark measured.
#[derive(Clone, Debug, PartialEq, Eq)]
pub struct CompressionStats {
    pub run_number: u32,
    /// The format's name in upper case.
    pub format: String,
    /// Size of the input in bytes.
    pub original_size: u64,
    /// Size of the archive in bytes.
    pub compressed_size: u64,
    /// `compressed_size / original_size`, where the input is not empty.
    pub compression_ratio: Option<Ratio>,
    /// Duration in whole milliseconds.
    pub compression_time_ms: u128,
    /// Input megabytes per second, where the duration is not zero.
    pub compression_speed_mbps: Option<Ratio>,
}

/// What one trial of the write benchmark measured.
#[derive(Clone, Debug, PartialEq, Eq)]
pub struct BenchmarkResult {
    pub run_number: u32,
    pub target_path: String,
    pub file_count: u32,
    /// Duration in whole milliseconds.
    pub total_time_ms: u128,
    /// Files per second, where the duration is not zero.
    pub files_per_second: Option<Ratio>,
}

/// Puts the statistics of one format together with the format's label.
pub fn image_record(run_number: u32, label: String, stats: SizeStats) -> (record: ImageStats)
    ensures
        record == (ImageStats { run_number, format: label, stats }),
{
    ImageStats { run_number, format: label, stats }
}

/// Summarises the sizes of the images of one format in one trial. The record
/// carries the format's name in upper case.
///
/// Fails with `EmptyInput` exactly when `sizes` is empty.
pub fn calculate_stats(sizes: &Vec<u64>, format: &str, run_number: u32) -> (r: Result<
    ImageStats,
    StatsError,
>)
    ensures
        sizes@.len() == 0 <==> r == Err::<ImageStats, StatsError>(StatsError::EmptyInput),
        sizes@.len() > 0 <==> r is Ok,
        r matches Ok(record) ==> {
            &&& record.run_number == run_number
            &&& record.format@ == uppercase(format@)
            &&& record.stats == stats_of(sizes@)
        },
{
    match aggregate(sizes) {
        Err(e) => Err(e),
        Ok(stats) => Ok(image_record(run_number, to_uppercase(format), stats)),
    }
}

/// Summarises the sizes of the source images of one trial of the quality
/// comparison: quality 100, and a size ratio of exactly one.
///
/// Fails with `EmptyInput` exactly when `sizes` is empty.
pub fn calculate_png_stats(sizes: &Vec<u64>, run_number: u32) -> (r: Result<
    ImageQualityStats,
    StatsError,
>)
    ensures
        sizes@.len() == 0 <==> r == Err::<ImageQualityStats, StatsError>(StatsError::EmptyInput),
        sizes@.len() > 0 <==> r == Ok::<ImageQualityStats, StatsError>(
            ImageQualityStats {
                run_number,
                quality: 100,
                stats: stats_of(sizes@),
                compression_ratio: Some(Ratio { num: 1, den: 1 }),
            },
        ),
{
    match aggregate(sizes) {
        Err(e) => Err(e),
        Ok(stats) => Ok(
            ImageQualityStats {
                run_number,
                quality: 100,
                stats,
                compression_ratio: Some(Ratio { num: 1, den: 1 }),
            },
        ),
    }
}

/// Summarises the sizes of the renditions at one quality level, and relates
/// their total size to `png_total_size`, the total size of the source images.
///
/// Fails with `EmptyInput` exactly when `sizes` is empty. The size ratio is
/// left out exactly when `png_total_size` is zero.
pub fn calculate_webp_quality_stats(
    sizes: &Vec<u64>,
    quality: u32,
    run_number: u32,
    png_total_size: u128,
) -> (r: Result<ImageQualityStats, StatsError>)
    ensures
        sizes@.len() == 0 <==> r == Err::<ImageQualityStats, StatsError>(StatsError::EmptyInput),
        sizes@.len() > 0 <==> r == Ok::<ImageQualityStats, StatsError>(
            ImageQualityStats {
                run_number,
                quality,
                stats: stats_of(sizes@),
                compression_ratio: if png_total_size == 0 {
                    None
                } else {
                    Some(Ratio { num: stats_of(sizes@).total, den: png_total_size })
                },
            },
        ),
{
    match aggregate(sizes) {
        Err(e) => Err(e),
        Ok(stats) => Ok(
            ImageQualityStats {
                run_number,
                quality,
                stats,
                compression_ratio: size_ratio(stats.total, png_total_size),
            },
        ),
    }
}

/// Makes the record of one trial of the archive benchmark from its label and
/// raw measurements.
pub fn compression_record(
    run_number: u32,
    label: String,
    original_size: u64,
    compressed_size: u64,
    elapsed: Elapsed,
) -> (record: CompressionStats)
    ensures
        record.run_number == run_number,
        record.format == label,
        record.original_size == original_size,
        record.compressed_size == compressed_size,
        record.compression_time_ms == elapsed.in_nanos() / 1_000_000,
        record.compression_ratio == if original_size == 0 {
            None
        } else {
            Some(Ratio { num: compressed_size as u128, den: original_size as u128 })
        },
        record.compression_speed_mbps == if elapsed.in_nanos() == 0 {
            None
        } else {
            Some(
                Ratio {
                    num: (original_size * 1_000_000_000) as u128,
                    den: (1_048_576 * elapsed.in_nanos()) as u128,
                },
            )
        },
{
    CompressionStats {
        run_number,
        format: label,
        original_size,
        compressed_size,
        compression_ratio: size_ratio(compressed_size as u128, original_size as u128),
        compression_time_ms: elapsed.total_millis(),
        compression_speed_mbps: megabytes_per_second(original_size, elapsed),
    }
}

/// Makes the record of one trial of the archive benchmark. The record
/// carries the format's name in upper case.
pub fn compression_stats(
    run_number: u32,
    format: &str,
    original_size: u64,
    compressed_size: u64,
    elapsed: Elapsed,
) -> (record: CompressionStats)
    ensures
        record.run_number == run_number,
        record.format@ == uppercase(format@),
        record.original_size == original_size,
        record.compressed_size == compressed_size,
        record.compression_time_ms == elapsed.in_nanos() / 1_000_000,
        record.compression_ratio == if original_size == 0 {
            None
        } else {
            Some(Ratio { num: compressed_size as u128, den: original_size as u128 })
        },
        record.compression_speed_mbps == if elapsed.in_nanos() == 0 {
            None
        } else {
            Some(
                Ratio {
                    num: (original_size * 1_000_000_000) as u128,
                    den: (1_048_576 * elapsed.in_nanos()) as u128,
                },
            )
        },
{
    compression_record(run_number, to_uppercase(format), original_size, compressed_size, elapsed)
}

/// Makes the record of one trial of the write benchmark.
pub fn benchmark_result(run_number: u32, target_path: &str, file_count: u32, elapsed: Elapsed) -> (record:
    BenchmarkResult)
    ensures
        record.run_number == run_number,
        record.target_path@ == target_path@,
        record.file_count == file_count,
        record.total_time_ms == elapsed.in_nanos() / 1_000_000,
        record.files_per_second == if elapsed.in_nanos() == 0 {
            None
        } else {
            Some(
                Ratio {
                    num: (file_count * 1_000_000_000) as u128,
                    den: elapsed.in_nanos() as u128,
                },
            )
        },
{
    BenchmarkResult {
        run_number,
        target_path: String::from_str(target_path),
        file_count,
        total_time_ms: elapsed.total_millis(),
        files_per_second: items_per_second(file_count as u64, elapsed),
    }
}

} // verus!
