use image_batch::file_run::{FileAction, FileRun, FileStage};
use image_batch::types::{FileStatus, OptimizeConfig};
use image_batch::worker::RecompressStep;

fn config(webp: bool, avif: bool, optimize_original: bool) -> OptimizeConfig {
    OptimizeConfig {
        tasks: vec![],
        jpg_q: 70,
        png_min: 50,
        png_max: 90,
        webp,
        avif,
        optimize_original,
        replace: false,
        output_dir: None,
    }
}

fn start(src: &str, dest: &str, c: &OptimizeConfig, canceled: bool) -> (FileRun, FileAction) {
    FileRun::start(src.to_string(), dest.to_string(), c, canceled)
}

#[test]
fn canceled_before_start_does_nothing() {
    let (run, action) = start("/a.png", "/o/a.png", &config(true, true, true), true);
    match action {
        FileAction::Finish(o) => {
            assert_eq!(o.status, FileStatus::Canceled);
            assert_eq!(o.stats.original_size, 0);
        }
        _ => panic!("expected the file to finish"),
    }
    assert_eq!(run.stage, FileStage::Finished);
}

#[test]
fn failed_copy_ends_the_file() {
    let (mut run, action) = start("/a.png", "/o/a.png", &config(false, false, true), false);
    match action {
        FileAction::Prepare(plan) => assert!(plan.copy && plan.create_parent),
        _ => panic!("expected a copy"),
    }
    match run.after_copy(false) {
        FileAction::Finish(o) => assert_eq!(o.status, FileStatus::CopyFailed),
        _ => panic!("expected the file to finish"),
    }
}

#[test]
fn full_run_with_both_derived_formats() {
    let (mut run, _) = start("/i/a.png", "/i/a.png", &config(true, true, true), false);
    assert_eq!(run.after_copy(true), FileAction::MeasureOriginal);
    assert_eq!(run.after_measure(1000), FileAction::Decode);
    assert_eq!(run.after_decode(true, false), FileAction::EncodeWebp);
    assert_eq!(run.after_webp(300, 10, false), FileAction::EncodeAvif);
    assert_eq!(run.after_avif(200, 20), FileAction::Poll);
    assert_eq!(run.before_recompress(false, true), FileAction::Recompress(RecompressStep::Png { min: 50, max: 90 }));
    let o = run.after_recompress(700, 40, 100);
    assert_eq!(o.status, FileStatus::Completed);
    assert_eq!(o.stats.original_size, 1000);
    assert_eq!(o.stats.optimized_size, 700);
    assert_eq!(o.stats.bytes_saved, 300);
    assert_eq!(o.stats.webp_size, 300);
    assert_eq!(o.stats.avif_size, 200);
    assert_eq!(o.stats.duration_opt, 70);
}

#[test]
fn cancel_after_webp_keeps_it_and_skips_the_rest() {
    let (mut run, _) = start("/i/b.jpg", "/o/b.jpg", &config(true, true, true), false);
    run.after_copy(true);
    run.after_measure(500);
    run.after_decode(true, false);
    assert_eq!(run.after_webp(120, 5, true), FileAction::Poll);
    match run.before_recompress(true, true) {
        FileAction::Finish(o) => {
            assert_eq!(o.status, FileStatus::Canceled);
            assert_eq!(o.stats.optimized_size, 500);
            assert_eq!(o.stats.bytes_saved, 0);
            assert_eq!(o.stats.webp_size, 120);
            assert_eq!(o.stats.avif_size, 0);
        }
        _ => panic!("expected the file to finish"),
    }
}

#[test]
fn failed_decode_skips_derived_formats() {
    let (mut run, _) = start("/i/c.jpeg", "/i/c.jpeg", &config(true, false, true), false);
    run.after_copy(true);
    run.after_measure(10);
    assert_eq!(run.after_decode(false, false), FileAction::Poll);
    assert_eq!(run.before_recompress(false, true), FileAction::Recompress(RecompressStep::Jpeg { quality: 70 }));
}

#[test]
fn recompression_off_runs_no_pass() {
    let (mut run, action) = start("/i/d.png", "/o/d.png", &config(false, false, false), false);
    match action {
        FileAction::Prepare(plan) => assert!(!plan.copy && plan.create_parent),
        _ => panic!("expected a prepare step"),
    }
    assert_eq!(run.after_copy(true), FileAction::MeasureOriginal);
    assert_eq!(run.after_measure(400), FileAction::Poll);
    assert_eq!(run.before_recompress(false, false), FileAction::Recompress(RecompressStep::Skip));
    let o = run.after_recompress(0, 3, 9);
    assert_eq!(o.stats.optimized_size, 0);
    assert_eq!(o.stats.duration_opt, 0);
    assert_eq!(o.stats.bytes_saved, 0);
}

#[test]
fn missing_destination_reports_no_saving() {
    let (mut run, _) = start("/i/e.png", "/o/e.png", &config(false, false, true), false);
    assert_eq!(run.after_copy(true), FileAction::MeasureOriginal);
    assert_eq!(run.after_measure(800), FileAction::Poll);
    assert_eq!(run.before_recompress(false, false), FileAction::Recompress(RecompressStep::Skip));
    let o = run.after_recompress(0, 4, 9);
    assert_eq!(o.status, FileStatus::Completed);
    assert_eq!(o.stats.original_size, 800);
    assert_eq!(o.stats.optimized_size, 800);
    assert_eq!(o.stats.bytes_saved, 0);
}
