//! The work on one file as a state machine. The caller performs each action it
//! is handed, then reports what came of it, together with the state of the
//! cancellation token where the action is followed by a checkpoint. The
//! token is read at four checkpoints: before the copy, before WebP, before
//! AVIF and before recompression.
use vstd::prelude::*;
use crate::types::{FileOutcome, FileStatus, OptimizeConfig};
use crate::worker::{
    canceled_outcome, canceled_outcome_spec, completed_outcome, copy_failed_outcome, copy_failed_outcome_spec,
    copy_plan, not_started_outcome, not_started_outcome_spec, optimized_spec,
    off_outcome, reconciled_opt, saving_consistent, settings_of, step_for, step_spec, CopyPlan, FileSettings, PhaseTimes,
    RecompressStep,
};

verus! {

/// What the caller does next.
#[derive(Debug, Clone, Copy, PartialEq, Eq)]
pub enum FileAction {
    /// Create the destination's parent and copy the source, as the plan says;
    /// then `after_copy`.
    Prepare(CopyPlan),
    /// Read the size of the source; then `after_measure`.
    MeasureOriginal,
    /// Decode the source; then `after_decode`.
    Decode,
    /// Write the WebP sibling of the destination; then `after_webp`.
    EncodeWebp,
    /// Write the AVIF sibling of the destination; then `after_avif`.
    EncodeAvif,
    /// Read the token and whether the destination exists; then `before_recompress`.
    Poll,
    /// Recompress the destination; then `after_recompress`.
    Recompress(RecompressStep),
    /// The file is done with this outcome.
    Finish(FileOutcome),
}

/// Where the work on one file stands.
#[derive(Debug, Clone, Copy, PartialEq, Eq, Structural)]
pub enum FileStage {
    Copying,
    Measuring,
    Decoding,
    EncodingWebp,
    EncodingAvif,
    Polling,
    Recompressing,
    Finished,
}

/// The state of the work on one file.
#[derive(Debug, Clone)]
pub struct FileRun {
    pub source: String,
    pub dest: String,
    pub settings: FileSettings,
    pub stage: FileStage,
    pub plan: CopyPlan,
    pub step: RecompressStep,
    pub original_size: u64,
    pub webp_size: u64,
    pub avif_size: u64,
    pub duration_webp: u64,
    pub duration_avif: u64,
}

/// The stage that an action leads to.
pub open spec fn stage_after(a: FileAction) -> FileStage {
    match a {
        FileAction::Prepare(_) => FileStage::Copying,
        FileAction::MeasureOriginal => FileStage::Measuring,
        FileAction::Decode => FileStage::Decoding,
        FileAction::EncodeWebp => FileStage::EncodingWebp,
        FileAction::EncodeAvif => FileStage::EncodingAvif,
        FileAction::Poll => FileStage::Polling,
        FileAction::Recompress(_) => FileStage::Recompressing,
        FileAction::Finish(_) => FileStage::Finished,
    }
}

impl FileRun {
    /// The fields that no step changes.
    pub open spec fn same_task(self, o: FileRun) -> bool {
        self.source@ == o.source@ && self.dest@ == o.dest@ && self.settings == o.settings && self.plan == o.plan
    }

    /// The first checkpoint: a file that sees the token set does nothing and
    /// is not counted.
    pub fn start(source: String, dest: String, config: &OptimizeConfig, canceled: bool) -> (r: (FileRun, FileAction))
        ensures
            r.0.source@ == source@,
            r.0.dest@ == dest@,
            r.0.settings == settings_of(*config),
            r.0.plan.create_parent == (source@ != dest@),
            r.0.plan.copy == (source@ != dest@ && config.optimize_original),
            r.0.stage == stage_after(r.1),
            canceled ==> r.1 == FileAction::Finish(not_started_outcome_spec()),
            !canceled ==> r.1 == FileAction::Prepare(r.0.plan),
    {
        let plan = copy_plan(&source, &dest, config);
        let action = if canceled { FileAction::Finish(not_started_outcome()) } else { FileAction::Prepare(plan) };
        let run = FileRun {
            source,
            dest,
            settings: FileSettings::of(config),
            stage: if canceled { FileStage::Finished } else { FileStage::Copying },
            plan,
            step: RecompressStep::Skip,
            original_size: 0,
            webp_size: 0,
            avif_size: 0,
            duration_webp: 0,
            duration_avif: 0,
        };
        (run, action)
    }

    /// After the copy: a failed copy ends the file with nothing counted.
    pub fn after_copy(&mut self, copied: bool) -> (r: FileAction)
        requires
            old(self).stage == FileStage::Copying,
        ensures
            final(self).same_task(*old(self)),
            final(self).stage == stage_after(r),
            old(self).plan.copy && !copied ==> r == FileAction::Finish(copy_failed_outcome_spec()),
            !(old(self).plan.copy && !copied) ==> r == FileAction::MeasureOriginal,
    {
        if self.plan.copy && !copied {
            self.stage = FileStage::Finished;
            FileAction::Finish(copy_failed_outcome())
        } else {
            self.stage = FileStage::Measuring;
            FileAction::MeasureOriginal
        }
    }

    /// After reading the source's size: decode only when a derived format is asked for.
    pub fn after_measure(&mut self, size: u64) -> (r: FileAction)
        requires
            old(self).stage == FileStage::Measuring,
        ensures
            final(self).same_task(*old(self)),
            final(self).stage == stage_after(r),
            final(self).original_size == size,
            final(self).webp_size == 0 && final(self).avif_size == 0,
            final(self).duration_webp == 0 && final(self).duration_avif == 0,
            r == if old(self).settings.webp || old(self).settings.avif { FileAction::Decode } else { FileAction::Poll },
    {
        self.original_size = size;
        self.webp_size = 0;
        self.avif_size = 0;
        self.duration_webp = 0;
        self.duration_avif = 0;
        if self.settings.webp || self.settings.avif {
            self.stage = FileStage::Decoding;
            FileAction::Decode
        } else {
            self.stage = FileStage::Polling;
            FileAction::Poll
        }
    }

    /// After decoding, with the token: a failed decode skips both derived formats.
    pub fn after_decode(&mut self, decoded: bool, canceled: bool) -> (r: FileAction)
        requires
            old(self).stage == FileStage::Decoding,
        ensures
            final(self).same_task(*old(self)),
            final(self).stage == stage_after(r),
            final(self).original_size == old(self).original_size,
            final(self).webp_size == old(self).webp_size,
            final(self).avif_size == old(self).avif_size,
            final(self).duration_webp == old(self).duration_webp,
            final(self).duration_avif == old(self).duration_avif,
            r == if !decoded || canceled {
                FileAction::Poll
            } else if old(self).settings.webp {
                FileAction::EncodeWebp
            } else if old(self).settings.avif {
                FileAction::EncodeAvif
            } else {
                FileAction::Poll
            },
    {
        let a = if !decoded || canceled {
            FileAction::Poll
        } else if self.settings.webp {
            FileAction::EncodeWebp
        } else if self.settings.avif {
            FileAction::EncodeAvif
        } else {
            FileAction::Poll
        };
        self.stage = match a {
            FileAction::EncodeWebp => FileStage::EncodingWebp,
            FileAction::EncodeAvif => FileStage::EncodingAvif,
            _ => FileStage::Polling,
        };
        a
    }

    /// After the WebP file, with its size, the time it took and the token.
    pub fn after_webp(&mut self, size: u64, micros: u64, canceled: bool) -> (r: FileAction)
        requires
            old(self).stage == FileStage::EncodingWebp,
        ensures
            final(self).same_task(*old(self)),
            final(self).stage == stage_after(r),
            final(self).original_size == old(self).original_size,
            final(self).webp_size == size,
            final(self).duration_webp == micros,
            final(self).avif_size == old(self).avif_size,
            final(self).duration_avif == old(self).duration_avif,
            r == if old(self).settings.avif && !canceled { FileAction::EncodeAvif } else { FileAction::Poll },
    {
        self.webp_size = size;
        self.duration_webp = micros;
        if self.settings.avif && !canceled {
            self.stage = FileStage::EncodingAvif;
            FileAction::EncodeAvif
        } else {
            self.stage = FileStage::Polling;
            FileAction::Poll
        }
    }

    /// After the AVIF file, with its size and the time it took.
    pub fn after_avif(&mut self, size: u64, micros: u64) -> (r: FileAction)
        requires
            old(self).stage == FileStage::EncodingAvif,
        ensures
            final(self).same_task(*old(self)),
            final(self).stage == stage_after(r),
            final(self).original_size == old(self).original_size,
            final(self).webp_size == old(self).webp_size,
            final(self).duration_webp == old(self).duration_webp,
            final(self).avif_size == size,
            final(self).duration_avif == micros,
            r == FileAction::Poll,
    {
        self.avif_size = size;
        self.duration_avif = micros;
        self.stage = FileStage::Polling;
        FileAction::Poll
    }

    /// The last checkpoint: with the token set the file ends without saving
    /// anything but keeps its derived files; else the recompression follows.
    pub fn before_recompress(&mut self, canceled: bool, dest_exists: bool) -> (r: FileAction)
        requires
            old(self).stage == FileStage::Polling,
        ensures
            final(self).same_task(*old(self)),
            final(self).stage == stage_after(r),
            final(self).original_size == old(self).original_size,
            final(self).webp_size == old(self).webp_size,
            final(self).avif_size == old(self).avif_size,
            final(self).duration_webp == old(self).duration_webp,
            final(self).duration_avif == old(self).duration_avif,
            canceled ==> r == FileAction::Finish(canceled_outcome_spec(
                old(self).original_size,
                old(self).webp_size,
                old(self).avif_size,
                old(self).duration_webp,
                old(self).duration_avif,
            )),
            !canceled ==> final(self).step == step_spec(old(self).source@, old(self).dest@, dest_exists, old(self).settings)
                && r == FileAction::Recompress(final(self).step),
    {
        if canceled {
            self.stage = FileStage::Finished;
            FileAction::Finish(
                canceled_outcome(self.original_size, self.webp_size, self.avif_size, self.duration_webp, self.duration_avif),
            )
        } else {
            let step = step_for(&self.source, &self.dest, dest_exists, self.settings);
            self.step = step;
            self.stage = FileStage::Recompressing;
            FileAction::Recompress(step)
        }
    }

    /// After the recompression, with the size it left (read only for PNG and
    /// JPEG), its time, and the time the whole file took: the file completes.
    pub fn after_recompress(&mut self, measured_size: u64, opt_micros: u64, total_micros: u64) -> (r: FileOutcome)
        requires
            old(self).stage == FileStage::Recompressing,
        ensures
            final(self).same_task(*old(self)),
            final(self).stage == FileStage::Finished,
            r.status == FileStatus::Completed,
            r.stats.original_size == old(self).original_size,
            r.stats.optimized_size == optimized_spec(
                old(self).settings.optimize_original,
                old(self).step,
                old(self).original_size,
                measured_size,
            ),
            old(self).settings.optimize_original ==> saving_consistent(r.stats),
            !old(self).settings.optimize_original ==> off_outcome(r),
            r.stats.bytes_saved <= r.stats.original_size,
            r.stats.webp_size == old(self).webp_size,
            r.stats.avif_size == old(self).avif_size,
            r.stats.duration_webp == old(self).duration_webp,
            r.stats.duration_avif == old(self).duration_avif,
            r.stats.duration_opt == if old(self).settings.optimize_original {
                reconciled_opt(PhaseTimes {
                    total: total_micros,
                    opt: opt_micros,
                    webp: old(self).duration_webp,
                    avif: old(self).duration_avif,
                })
            } else {
                0
            },
    {
        self.stage = FileStage::Finished;
        let times = PhaseTimes { total: total_micros, opt: opt_micros, webp: self.duration_webp, avif: self.duration_avif };
        completed_outcome(
            self.settings.optimize_original,
            self.step,
            self.original_size,
            measured_size,
            self.webp_size,
            self.avif_size,
            times,
        )
    }
}

} // verus!
