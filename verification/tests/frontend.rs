use macinmeter_dr_tool::frontend::{
    validate_job_id, Cancellable, FrontendProgressState, JobRegistry, BATCH_ITEM_CHUNK,
    DECODE_PROGRESS_INTERVAL_NS,
};
use std::sync::atomic::{AtomicBool, Ordering};
use std::sync::Arc;

#[derive(Clone, Default)]
struct Token(Arc<AtomicBool>);

impl Token {
    fn is_cancelled(&self) -> bool {
        self.0.load(Ordering::SeqCst)
    }
}

impl Cancellable for Token {
    fn cancel(&self) {
        self.0.store(true, Ordering::SeqCst);
    }
}

#[test]
fn frontend_decode_progress_is_sampled_but_eof_is_immediate() {
    let start = 1_000_000_000u64;
    let mut state: FrontendProgressState<usize> = FrontendProgressState::new();
    assert!(state.should_emit_decode_progress(start, false));
    assert!(!state.should_emit_decode_progress(start + DECODE_PROGRESS_INTERVAL_NS / 2, false));
    assert!(state.should_emit_decode_progress(start + DECODE_PROGRESS_INTERVAL_NS / 2, true));
    assert!(state.should_emit_decode_progress(start + DECODE_PROGRESS_INTERVAL_NS * 2, false));
}

#[test]
fn frontend_batch_items_are_grouped_and_the_tail_can_be_flushed() {
    let mut state: FrontendProgressState<(usize, String)> = FrontendProgressState::new();
    let item = |index: usize| (index, format!("item-{index}"));
    for index in 0..BATCH_ITEM_CHUNK - 1 {
        assert!(state.push_batch_item(item(index)).is_none());
    }
    let chunk = state
        .push_batch_item(item(BATCH_ITEM_CHUNK - 1))
        .expect("the configured chunk size must flush");
    assert_eq!(chunk.len(), BATCH_ITEM_CHUNK);
    assert_eq!(chunk[0].0, 0);
    assert_eq!(chunk.last().unwrap().0, BATCH_ITEM_CHUNK - 1);
    assert!(state.push_batch_item(item(BATCH_ITEM_CHUNK)).is_none());
    let tail = state.take_batch_items();
    assert_eq!(tail.len(), 1);
    assert_eq!(tail[0].0, BATCH_ITEM_CHUNK);
}

#[test]
fn job_ids() {
    assert!(validate_job_id("job-1").is_ok());
    assert!(validate_job_id("").is_err());
    assert!(validate_job_id(" \t\u{3000}").is_err());
    assert!(validate_job_id(&"x".repeat(128)).is_ok());
    assert!(validate_job_id(&"x".repeat(129)).is_err());
    assert!(validate_job_id(&"é".repeat(65)).is_err());
    assert_eq!(validate_job_id("").unwrap_err(), "job id must contain between 1 and 128 characters");
}

#[test]
fn clock_going_backwards_counts_as_no_time() {
    let mut state: FrontendProgressState<u8> = FrontendProgressState::new();
    assert!(state.should_emit_decode_progress(5 * DECODE_PROGRESS_INTERVAL_NS, false));
    assert!(!state.should_emit_decode_progress(0, false));
}

#[test]
fn cancellation_is_scoped_to_one_job() {
    let mut registry: JobRegistry<Token> = JobRegistry::new();
    let first = Token::default();
    let second = Token::default();
    registry.insert("first", first.clone()).unwrap();
    registry.insert("second", second.clone()).unwrap();

    assert!(registry.cancel("first"));
    assert!(first.is_cancelled());
    assert!(!second.is_cancelled());
}

#[test]
fn active_job_releases_its_id_when_dropped() {
    let mut registry: JobRegistry<Token> = JobRegistry::new();
    {
        registry.insert("job", Token::default()).unwrap();
        assert!(registry.insert("job", Token::default()).is_err());
        registry.remove("job");
    }
    assert!(registry.insert("job", Token::default()).is_ok());
}

#[test]
fn registry_refusal_and_lookup() {
    let mut registry: JobRegistry<u32> = JobRegistry::new();
    assert!(registry.token("a").is_none());
    registry.insert("a", 1).unwrap();
    registry.insert("b", 2).unwrap();
    assert_eq!(registry.insert("a", 3).unwrap_err(), "job id is already active");
    assert_eq!(registry.token("a"), Some(&1));
    assert_eq!(registry.token("b"), Some(&2));
    registry.remove("a");
    assert!(registry.token("a").is_none());
    assert_eq!(registry.token("b"), Some(&2));
    registry.remove("missing");
    assert_eq!(registry.token("b"), Some(&2));
}

#[test]
fn cancelling_an_unknown_job_reports_false() {
    let mut registry: JobRegistry<Token> = JobRegistry::new();
    let token = Token::default();
    registry.insert("job", token.clone()).unwrap();
    assert!(!registry.cancel("other"));
    assert!(!token.is_cancelled());
}
