use image_batch::guard::{begin_run, cancel_optimization, finish_run, get_last_result, get_processing_state, AppState};
use image_batch::types::{FinalResult, RunError};

fn result(n: u64) -> FinalResult {
    FinalResult {
        total_files: n,
        processed_files: n,
        is_canceled: false,
        total_size_saved: 1,
        duration_total: 2,
        duration_opt: 2,
        duration_webp: 0,
        duration_avif: 0,
        total_size_original: 3,
        total_size_optimized: 2,
        total_size_webp: 0,
        total_size_avif: 0,
    }
}

#[test]
fn second_start_is_rejected() {
    let mut s = AppState::new();
    assert!(!get_processing_state(&s));
    assert!(begin_run(&mut s).is_ok());
    assert!(get_processing_state(&s));
    cancel_optimization(&mut s);
    assert!(matches!(begin_run(&mut s), Err(RunError::AlreadyRunning)));
    assert!(s.is_processing);
    assert!(s.should_cancel);
}

#[test]
fn last_result_only_when_idle() {
    let mut s = AppState::new();
    assert_eq!(get_last_result(&s), None);
    begin_run(&mut s).unwrap();
    let r = finish_run(&mut s, Ok(result(4)));
    assert_eq!(r, Ok(result(4)));
    assert!(!get_processing_state(&s));
    assert_eq!(get_last_result(&s), Some(result(4)));
    begin_run(&mut s).unwrap();
    assert_eq!(get_last_result(&s), None);
    assert!(!s.should_cancel);
    let r = finish_run(&mut s, Err(RunError::EmptyInput));
    assert_eq!(r, Err(RunError::EmptyInput));
    assert!(!s.is_processing);
    assert_eq!(get_last_result(&s), None);
}

#[test]
fn cancel_is_idempotent() {
    let mut s = AppState::new();
    cancel_optimization(&mut s);
    cancel_optimization(&mut s);
    assert!(s.should_cancel);
    assert!(!s.is_processing);
}

#[test]
fn error_messages() {
    assert_eq!(RunError::EmptyInput.message(), "No supported files found.");
    assert_eq!(RunError::AlreadyRunning.message(), "Optimization is already in progress.");
    assert_eq!(RunError::Setup("no tmp".to_string()).message(), "Failed to setup tools: no tmp");
}
