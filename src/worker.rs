//! The decisions of the per-file pipeline. The caller performs the file work
//! (copy, encode, external passes) and hands back what it measured; these
//! functions say what to do next and build the file's stats.
use vstd::prelude::*;
use crate::paths::{is_jpeg, is_jpeg_exec, is_png, is_png_exec};
use crate::types::{FileOutcome, FileStats, FileStatus, OptimizeConfig};

verus! {

/// What to do before the work on a file: create the destination's parent
/// directory, and copy the source there.
#[derive(Debug, Clone, Copy, PartialEq, Eq)]
pub struct CopyPlan {
    pub create_parent: bool,
    pub copy: bool,
}

/// How the destination is recompressed.
#[derive(Debug, Clone, Copy, PartialEq, Eq)]
pub enum RecompressStep {
    /// No pass runs: recompression is off, or the copy it would work on is
    /// missing. With recompression on the file then keeps its original size.
    Skip,
    /// The quantizer pass with this quality range, then the structural pass.
    Png { min: u8, max: u8 },
    /// A progressive re-encode at this quality.
    Jpeg { quality: u8 },
    /// An extension with no recompressor: the size stays the original one.
    KeepOriginal,
}

/// Time spent on one file, in microseconds: all of it, and each measured phase.
#[derive(Debug, Clone, Copy, PartialEq, Eq)]
pub struct PhaseTimes {
    pub total: u64,
    pub opt: u64,
    pub webp: u64,
    pub avif: u64,
}

/// Quality of the derived WebP file.
pub const WEBP_QUALITY: u8 = 75;

/// Quality of the derived AVIF file.
pub const AVIF_QUALITY: u8 = 65;

/// Quality of the alpha channel of the derived AVIF file.
pub const AVIF_ALPHA_QUALITY: u8 = 70;

/// Encoder speed of the derived AVIF file.
pub const AVIF_SPEED: u8 = 4;

pub open spec fn saved_spec(original: u64, optimized: u64) -> u64 {
    if original > optimized { (original - optimized) as u64 } else { 0 }
}

/// The stats say what was saved: the original size less the optimized one, or
/// nothing when the file did not shrink.
pub open spec fn saving_consistent(s: FileStats) -> bool {
    s.bytes_saved == saved_spec(s.original_size, s.optimized_size)
}

pub open spec fn sat(x: int) -> u64 {
    if x > u64::MAX { u64::MAX } else if x < 0 { 0 } else { x as u64 }
}

/// The optimize phase with the time no phase accounts for folded into it.
pub open spec fn reconciled_opt(t: PhaseTimes) -> u64 {
    sat(t.opt + if t.total - t.opt - t.webp - t.avif > 0 { t.total - t.opt - t.webp - t.avif } else { 0 })
}

/// The part of a run's configuration that the work on one file reads.
#[derive(Debug, Clone, Copy, PartialEq, Eq)]
pub struct FileSettings {
    pub jpg_q: u8,
    pub png_min: u8,
    pub png_max: u8,
    pub webp: bool,
    pub avif: bool,
    pub optimize_original: bool,
}

pub open spec fn settings_of(c: OptimizeConfig) -> FileSettings {
    FileSettings {
        jpg_q: c.jpg_q,
        png_min: c.png_min,
        png_max: c.png_max,
        webp: c.webp,
        avif: c.avif,
        optimize_original: c.optimize_original,
    }
}

impl FileSettings {
    pub fn of(c: &OptimizeConfig) -> (r: FileSettings)
        ensures
            r == settings_of(*c),
    {
        FileSettings {
            jpg_q: c.jpg_q,
            png_min: c.png_min,
            png_max: c.png_max,
            webp: c.webp,
            avif: c.avif,
            optimize_original: c.optimize_original,
        }
    }
}

pub open spec fn step_spec(src: Seq<char>, dest: Seq<char>, dest_exists: bool, s: FileSettings) -> RecompressStep {
    if !s.optimize_original || (src != dest && !dest_exists) {
        RecompressStep::Skip
    } else if is_png(dest) {
        RecompressStep::Png { min: s.png_min, max: s.png_max }
    } else if is_jpeg(dest) {
        RecompressStep::Jpeg { quality: s.jpg_q }
    } else {
        RecompressStep::KeepOriginal
    }
}

/// Bytes saved by going from `original` to `optimized` bytes; never below zero.
pub fn bytes_saved(original: u64, optimized: u64) -> (r: u64)
    ensures
        r == saved_spec(original, optimized),
        r as int == if original >= optimized { original - optimized } else { 0 },
{
    if original > optimized {
        original - optimized
    } else {
        0
    }
}

/// Duration of the optimize phase once the time not measured in any phase is
/// added to it, so the three phases sum to the file's own time.
pub fn reconcile_opt_duration(t: PhaseTimes) -> (r: u64)
    ensures
        r == reconciled_opt(t),
        t.opt as int + t.webp + t.avif <= t.total && t.total <= u64::MAX ==> r + t.webp + t.avif == t.total,
{
    let measured: u128 = t.opt as u128 + t.webp as u128 + t.avif as u128;
    let overhead: u128 = if t.total as u128 > measured { t.total as u128 - measured } else { 0 };
    let sum: u128 = t.opt as u128 + overhead;
    if sum > u64::MAX as u128 {
        u64::MAX
    } else {
        sum as u64
    }
}

/// Whether to prepare the destination and copy the source there: only when
/// they differ, and the copy only when the original is to be recompressed.
pub fn copy_plan(src: &String, dest: &String, config: &OptimizeConfig) -> (r: CopyPlan)
    ensures
        r.create_parent == (src@ != dest@),
        r.copy == (src@ != dest@ && config.optimize_original),
{
    let differ = !(*src == *dest);
    CopyPlan { create_parent: differ, copy: differ && config.optimize_original }
}

/// How the destination is recompressed, by its extension, in any case.
pub fn recompress_step(src: &String, dest: &String, dest_exists: bool, config: &OptimizeConfig) -> (r: RecompressStep)
    ensures
        r == step_spec(src@, dest@, dest_exists, settings_of(*config)),
        !config.optimize_original ==> r == RecompressStep::Skip,
{
    step_for(src, dest, dest_exists, FileSettings::of(config))
}

pub fn step_for(src: &String, dest: &String, dest_exists: bool, s: FileSettings) -> (r: RecompressStep)
    ensures
        r == step_spec(src@, dest@, dest_exists, s),
{
    if !s.optimize_original || (!(*src == *dest) && !dest_exists) {
        RecompressStep::Skip
    } else if is_png_exec(dest.as_str()) {
        RecompressStep::Png { min: s.png_min, max: s.png_max }
    } else if is_jpeg_exec(dest.as_str()) {
        RecompressStep::Jpeg { quality: s.jpg_q }
    } else {
        RecompressStep::KeepOriginal
    }
}

pub open spec fn zero_stats() -> FileStats {
    FileStats {
        bytes_saved: 0,
        original_size: 0,
        optimized_size: 0,
        webp_size: 0,
        avif_size: 0,
        duration_opt: 0,
        duration_webp: 0,
        duration_avif: 0,
    }
}

pub open spec fn not_started_outcome_spec() -> FileOutcome {
    FileOutcome { stats: zero_stats(), status: FileStatus::Canceled }
}

pub open spec fn copy_failed_outcome_spec() -> FileOutcome {
    FileOutcome { stats: zero_stats(), status: FileStatus::CopyFailed }
}

pub open spec fn canceled_outcome_spec(
    original_size: u64,
    webp_size: u64,
    avif_size: u64,
    duration_webp: u64,
    duration_avif: u64,
) -> FileOutcome {
    FileOutcome {
        stats: FileStats {
            bytes_saved: 0,
            original_size,
            optimized_size: original_size,
            webp_size,
            avif_size,
            duration_opt: 0,
            duration_webp,
            duration_avif,
        },
        status: FileStatus::Canceled,
    }
}

/// A file that cancellation stopped before any work: nothing counted.
pub fn not_started_outcome() -> (r: FileOutcome)
    ensures
        r == not_started_outcome_spec(),
        off_outcome(r),
        r.status == FileStatus::Canceled,
        r.stats.is_zero(),
        saving_consistent(r.stats),
{
    FileOutcome { stats: FileStats::zero(), status: FileStatus::Canceled }
}

/// A file whose copy to its destination failed: nothing counted.
pub fn copy_failed_outcome() -> (r: FileOutcome)
    ensures
        r == copy_failed_outcome_spec(),
        off_outcome(r),
        r.status == FileStatus::CopyFailed,
        r.stats.is_zero(),
        saving_consistent(r.stats),
{
    FileOutcome { stats: FileStats::zero(), status: FileStatus::CopyFailed }
}

/// A file on which cancellation was seen before recompression: no saving, the
/// derived files already written are kept.
pub fn canceled_outcome(original_size: u64, webp_size: u64, avif_size: u64, duration_webp: u64, duration_avif: u64) -> (r: FileOutcome)
    ensures
        r == canceled_outcome_spec(original_size, webp_size, avif_size, duration_webp, duration_avif),
        off_outcome(r),
        r.status == FileStatus::Canceled,
        r.stats == (FileStats {
            bytes_saved: 0,
            original_size,
            optimized_size: original_size,
            webp_size,
            avif_size,
            duration_opt: 0,
            duration_webp,
            duration_avif,
        }),
        saving_consistent(r.stats),
{
    FileOutcome {
        stats: FileStats {
            bytes_saved: 0,
            original_size,
            optimized_size: original_size,
            webp_size,
            avif_size,
            duration_opt: 0,
            duration_webp,
            duration_avif,
        },
        status: FileStatus::Canceled,
    }
}

/// Optimized size of a completed file: none with recompression off; the
/// original size when no pass ran (a missing copy, an extension with no
/// recompressor); else the size the pass left.
pub open spec fn optimized_spec(optimize_original: bool, step: RecompressStep, original_size: u64, measured_size: u64) -> u64 {
    if !optimize_original {
        0
    } else {
        match step {
            RecompressStep::Skip | RecompressStep::KeepOriginal => original_size,
            _ => measured_size,
        }
    }
}

/// Stats of a file in a run with recompression off: nothing saved, no optimize
/// time, and no optimized size unless cancellation stopped the file.
pub open spec fn off_outcome(o: FileOutcome) -> bool {
    &&& o.stats.bytes_saved == 0
    &&& o.stats.duration_opt == 0
    &&& o.status != FileStatus::Canceled ==> o.stats.optimized_size == 0
}

/// A file that went through every step. `measured_size` is the size the
/// recompression left (read only for `Png` and `Jpeg`).
pub fn completed_outcome(
    optimize_original: bool,
    step: RecompressStep,
    original_size: u64,
    measured_size: u64,
    webp_size: u64,
    avif_size: u64,
    times: PhaseTimes,
) -> (r: FileOutcome)
    ensures
        r.status == FileStatus::Completed,
        r.stats.original_size == original_size,
        r.stats.optimized_size == optimized_spec(optimize_original, step, original_size, measured_size),
        r.stats.bytes_saved == if optimize_original { saved_spec(original_size, r.stats.optimized_size) } else { 0 },
        optimize_original ==> saving_consistent(r.stats),
        !optimize_original ==> off_outcome(r),
        r.stats.bytes_saved <= r.stats.original_size,
        r.stats.webp_size == webp_size,
        r.stats.avif_size == avif_size,
        r.stats.duration_webp == times.webp,
        r.stats.duration_avif == times.avif,
        r.stats.duration_opt == if optimize_original { reconciled_opt(times) } else { 0 },
{
    let optimized_size = if !optimize_original {
        0
    } else {
        match step {
            RecompressStep::Skip | RecompressStep::KeepOriginal => original_size,
            _ => measured_size,
        }
    };
    let saved = if optimize_original { bytes_saved(original_size, optimized_size) } else { 0 };
    let duration_opt = if optimize_original { reconcile_opt_duration(times) } else { 0 };
    FileOutcome {
        stats: FileStats {
            bytes_saved: saved,
            original_size,
            optimized_size,
            webp_size,
            avif_size,
            duration_opt,
            duration_webp: times.webp,
            duration_avif: times.avif,
        },
        status: FileStatus::Completed,
    }
}

/// With recompression off, a file that completes reports no optimized size
/// and no optimize time, and the plan neither copies nor rewrites anything.
pub proof fn lemma_recompress_off(
    src: Seq<char>,
    dest: Seq<char>,
    dest_exists: bool,
    config: OptimizeConfig,
    plan: CopyPlan,
    step: RecompressStep,
    out: FileOutcome,
    original_size: u64,
    measured_size: u64,
    times: PhaseTimes,
)
    requires
        !config.optimize_original,
        plan.copy == (src != dest && config.optimize_original),
        step == step_spec(src, dest, dest_exists, settings_of(config)),
        out.stats.optimized_size == optimized_spec(config.optimize_original, step, original_size, measured_size),
        out.stats.duration_opt == if config.optimize_original { reconciled_opt(times) } else { 0 },
    ensures
        !plan.copy,
        step == RecompressStep::Skip,
        out.stats.optimized_size == 0,
        out.stats.duration_opt == 0,
{
}

} // verus!
