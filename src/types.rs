//! The data handed between the stages of a run. Sizes are in bytes, durations
//! in microseconds.
use vstd::prelude::*;

verus! {

/// One input as the caller gave it: a path, and the input it was found under
/// (the path itself for a file, the chosen directory for a directory).
#[derive(Debug, Clone)]
pub struct FileTask {
    pub path: String,
    pub root: String,
}

/// What a run is asked to do.
#[derive(Debug, Clone)]
pub struct OptimizeConfig {
    pub tasks: Vec<FileTask>,
    pub jpg_q: u8,
    pub png_min: u8,
    pub png_max: u8,
    pub webp: bool,
    pub avif: bool,
    pub optimize_original: bool,
    pub replace: bool,
    pub output_dir: Option<String>,
}

/// Progress of a run: how many files there are, how many are done, and the
/// file that just finished.
#[derive(Debug, Clone)]
pub struct ProgressPayload {
    pub total: u64,
    pub done: u64,
    pub current_file: String,
}

/// Totals of one run.
#[derive(Debug, Clone, Copy, PartialEq, Eq)]
pub struct FinalResult {
    pub total_files: u64,
    pub processed_files: u64,
    pub is_canceled: bool,
    pub total_size_saved: u64,
    pub duration_total: u64,
    pub duration_opt: u64,
    pub duration_webp: u64,
    pub duration_avif: u64,
    pub total_size_original: u64,
    pub total_size_optimized: u64,
    pub total_size_webp: u64,
    pub total_size_avif: u64,
}

/// What was measured on one file.
#[derive(Debug, Clone, Copy, PartialEq, Eq)]
pub struct FileStats {
    pub bytes_saved: u64,
    pub original_size: u64,
    pub optimized_size: u64,
    pub webp_size: u64,
    pub avif_size: u64,
    pub duration_opt: u64,
    pub duration_webp: u64,
    pub duration_avif: u64,
}

impl FileStats {
    pub open spec fn is_zero(self) -> bool {
        self.bytes_saved == 0 && self.original_size == 0 && self.optimized_size == 0
            && self.webp_size == 0 && self.avif_size == 0 && self.duration_opt == 0
            && self.duration_webp == 0 && self.duration_avif == 0
    }

    /// Stats of a file that contributed nothing.
    pub fn zero() -> (r: FileStats)
        ensures
            r.is_zero(),
    {
        FileStats {
            bytes_saved: 0,
            original_size: 0,
            optimized_size: 0,
            webp_size: 0,
            avif_size: 0,
            duration_opt: 0,
            duration_webp: 0,
            duration_avif: 0,
        }
    }
}

impl Default for FileStats {
    fn default() -> (r: FileStats)
        ensures
            r.is_zero(),
    {
        FileStats::zero()
    }
}

/// How far the work on one file got.
#[derive(Debug, Clone, Copy, PartialEq, Eq, Structural)]
pub enum FileStatus {
    /// Every step ran; the file counts as processed.
    Completed,
    /// Cancellation was seen at a checkpoint.
    Canceled,
    /// Copying the source to its destination failed.
    CopyFailed,
}

/// The stats of one file with how far its work got.
#[derive(Debug, Clone, Copy, PartialEq, Eq)]
pub struct FileOutcome {
    pub stats: FileStats,
    pub status: FileStatus,
}

/// Why a run did not produce a result.
#[derive(Debug, Clone, PartialEq, Eq)]
pub enum RunError {
    /// The external tools could not be prepared.
    Setup(String),
    /// No qualifying file was found.
    EmptyInput,
    /// Another run is active.
    AlreadyRunning,
    /// The run's worker failed before returning.
    Internal,
}

} // verus!
