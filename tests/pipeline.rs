use image_batch::aggregate::aggregate;
use image_batch::default_true;
use image_batch::types::{FileOutcome, FileStats, FileStatus, OptimizeConfig};
use image_batch::worker::{
    bytes_saved, canceled_outcome, completed_outcome, copy_failed_outcome, copy_plan, not_started_outcome,
    reconcile_opt_duration, recompress_step, PhaseTimes, RecompressStep, AVIF_QUALITY, WEBP_QUALITY,
};

fn config(optimize_original: bool) -> OptimizeConfig {
    OptimizeConfig {
        tasks: vec![],
        jpg_q: 75,
        png_min: 60,
        png_max: 80,
        webp: false,
        avif: false,
        optimize_original,
        replace: true,
        output_dir: None,
    }
}

fn times(total: u64, opt: u64, webp: u64, avif: u64) -> PhaseTimes {
    PhaseTimes { total, opt, webp, avif }
}

#[test]
fn recompression_defaults_on() {
    assert!(default_true());
}

#[test]
fn saving_is_never_negative() {
    assert_eq!(bytes_saved(500, 300), 200);
    assert_eq!(bytes_saved(300, 500), 0);
    assert_eq!(bytes_saved(7, 7), 0);
    assert_eq!(bytes_saved(u64::MAX, 0), u64::MAX);
}

#[test]
fn unmeasured_time_goes_to_optimize() {
    assert_eq!(reconcile_opt_duration(times(1000, 200, 300, 100)), 600);
    assert_eq!(reconcile_opt_duration(times(100, 200, 300, 100)), 200);
    assert_eq!(reconcile_opt_duration(times(u64::MAX, 5, 0, 0)), u64::MAX);
}

#[test]
fn copy_only_when_destination_differs() {
    let a = "/a.png".to_string();
    let b = "/o/a.png".to_string();
    let p = copy_plan(&a, &b, &config(true));
    assert!(p.create_parent && p.copy);
    let p = copy_plan(&a, &b, &config(false));
    assert!(p.create_parent && !p.copy);
    let p = copy_plan(&a, &a, &config(true));
    assert!(!p.create_parent && !p.copy);
}

#[test]
fn recompression_follows_the_destination_extension() {
    let s = "/i/a.PNG".to_string();
    let c = config(true);
    assert_eq!(recompress_step(&s, &s, true, &c), RecompressStep::Png { min: 60, max: 80 });
    let j = "/i/b.jpeg".to_string();
    assert_eq!(recompress_step(&j, &j, true, &c), RecompressStep::Jpeg { quality: 75 });
    let t = "/i/c.tiff".to_string();
    assert_eq!(recompress_step(&t, &t, true, &c), RecompressStep::KeepOriginal);
    let d = "/o/a.png".to_string();
    assert_eq!(recompress_step(&s, &d, false, &c), RecompressStep::Skip);
    assert_eq!(recompress_step(&s, &s, true, &config(false)), RecompressStep::Skip);
}

#[test]
fn missing_copy_keeps_the_original_size() {
    let o = completed_outcome(true, RecompressStep::Skip, 500, 123, 0, 0, times(10, 10, 0, 0));
    assert_eq!(o.stats.optimized_size, 500);
    assert_eq!(o.stats.bytes_saved, 0);
    assert_eq!(o.stats.duration_opt, 10);
}

#[test]
fn recompression_off_reports_no_optimization() {
    let o = completed_outcome(false, RecompressStep::Skip, 500, 123, 10, 20, times(900, 50, 30, 40));
    assert_eq!(o.status, FileStatus::Completed);
    assert_eq!(o.stats.optimized_size, 0);
    assert_eq!(o.stats.duration_opt, 0);
    assert_eq!(o.stats.bytes_saved, 0);
    assert_eq!(o.stats.original_size, 500);
    assert_eq!(o.stats.duration_webp, 30);
    assert_eq!(o.stats.duration_avif, 40);
}

#[test]
fn completed_file_reports_its_saving() {
    let o = completed_outcome(true, RecompressStep::Png { min: 60, max: 80 }, 500_000, 320_000, 0, 0, times(1000, 400, 0, 0));
    assert_eq!(o.stats.optimized_size, 320_000);
    assert_eq!(o.stats.bytes_saved, 180_000);
    assert_eq!(o.stats.duration_opt, 1000);
    let o = completed_outcome(true, RecompressStep::Jpeg { quality: 75 }, 300, 310, 0, 0, times(10, 10, 0, 0));
    assert_eq!(o.stats.bytes_saved, 0);
    assert_eq!(o.stats.optimized_size, 310);
    let o = completed_outcome(true, RecompressStep::KeepOriginal, 300, 1, 0, 0, times(10, 10, 0, 0));
    assert_eq!(o.stats.optimized_size, 300);
    assert_eq!(o.stats.bytes_saved, 0);
}

#[test]
fn derived_sizes_are_reported() {
    assert_eq!(WEBP_QUALITY, 75);
    assert_eq!(AVIF_QUALITY, 65);
    let o = completed_outcome(true, RecompressStep::Png { min: 60, max: 80 }, 4000, 3000, 1200, 900, times(100, 20, 30, 40));
    assert!(o.stats.webp_size > 0 && o.stats.avif_size > 0);
    assert_eq!(o.stats.webp_size, 1200);
    assert_eq!(o.stats.avif_size, 900);
    assert_eq!(o.stats.duration_opt, 30);
}

#[test]
fn canceled_file_keeps_derived_files_and_saves_nothing() {
    let o = canceled_outcome(800, 100, 50, 7, 9);
    assert_eq!(o.status, FileStatus::Canceled);
    assert_eq!(o.stats.optimized_size, 800);
    assert_eq!(o.stats.bytes_saved, 0);
    assert_eq!(o.stats.duration_opt, 0);
    assert_eq!(o.stats.webp_size, 100);
    assert_eq!(o.stats.duration_avif, 9);
    assert_eq!(not_started_outcome().stats, FileStats::default());
    assert_eq!(copy_failed_outcome().status, FileStatus::CopyFailed);
}

#[test]
fn two_file_run_totals() {
    let a = completed_outcome(true, RecompressStep::Png { min: 60, max: 80 }, 500_000, 350_000, 0, 0, times(3_000_000, 2_500_000, 0, 0));
    let b = completed_outcome(true, RecompressStep::Jpeg { quality: 75 }, 300_000, 240_000, 0, 0, times(1_000_000, 900_000, 0, 0));
    let r = aggregate(&vec![a, b], 2_000_000, false);
    assert_eq!(r.total_files, 2);
    assert_eq!(r.processed_files, 2);
    assert!(!r.is_canceled);
    assert_eq!(r.total_size_original, 800_000);
    assert_eq!(r.total_size_optimized, 590_000);
    assert!(r.total_size_optimized <= 800_000);
    assert_eq!(r.total_size_saved, r.total_size_original - r.total_size_optimized);
    assert_eq!(r.duration_total, 2_000_000);
    assert!(r.duration_total >= r.duration_opt);
    assert_eq!(r.duration_opt, 2_000_000);
}

#[test]
fn phases_are_rescaled_onto_wall_time() {
    let a = completed_outcome(true, RecompressStep::KeepOriginal, 10, 0, 5, 5, times(400, 200, 100, 100));
    let b = completed_outcome(true, RecompressStep::KeepOriginal, 10, 0, 5, 5, times(400, 200, 100, 100));
    let r = aggregate(&vec![a, b], 200, false);
    assert_eq!(r.duration_opt, 100);
    assert_eq!(r.duration_webp, 50);
    assert_eq!(r.duration_avif, 50);
    assert_eq!(r.total_size_webp, 10);
    assert_eq!(r.total_size_avif, 10);
}

#[test]
fn tiny_phase_times_are_not_rescaled() {
    let a = completed_outcome(true, RecompressStep::KeepOriginal, 10, 0, 0, 0, times(50, 50, 0, 0));
    let r = aggregate(&vec![a], 1000, false);
    assert_eq!(r.duration_opt, 0);
    assert_eq!(r.duration_total, 1000);
    let r = aggregate(&vec![], 5, false);
    assert_eq!(r.total_files, 0);
    assert_eq!(r.duration_opt, 0);
}

#[test]
fn canceled_run_of_a_hundred_files() {
    let mut outcomes: Vec<FileOutcome> = Vec::new();
    for i in 0..100u64 {
        if i < 3 {
            outcomes.push(completed_outcome(true, RecompressStep::KeepOriginal, 10, 0, 0, 0, times(10, 10, 0, 0)));
        } else if i == 3 {
            outcomes.push(canceled_outcome(10, 0, 0, 0, 0));
        } else {
            outcomes.push(not_started_outcome());
        }
    }
    let r = aggregate(&outcomes, 1000, true);
    assert_eq!(r.total_files, 100);
    assert!(r.processed_files < 100);
    assert_eq!(r.processed_files, 3);
    assert!(r.is_canceled);
}

#[test]
fn processed_equals_total_without_cancellation() {
    let outcomes: Vec<FileOutcome> = (0..5)
        .map(|_| completed_outcome(true, RecompressStep::KeepOriginal, 1, 0, 0, 0, times(1, 1, 0, 0)))
        .collect();
    let r = aggregate(&outcomes, 10, false);
    assert_eq!(r.processed_files, r.total_files);
    let mut with_failure = outcomes.clone();
    with_failure.push(copy_failed_outcome());
    let r = aggregate(&with_failure, 10, false);
    assert_eq!(r.processed_files, 5);
    assert_eq!(r.total_files, 6);
}

#[test]
fn sums_saturate() {
    let a = completed_outcome(true, RecompressStep::KeepOriginal, u64::MAX, 0, 0, 0, times(1, 1, 0, 0));
    let r = aggregate(&vec![a, a], 10, false);
    assert_eq!(r.total_size_original, u64::MAX);
}
