use llava_core::decode::{GenSession, StepOutcome};

#[test]
fn budget_exhaustion_emits_exactly_max_new_tokens() {
    // End-of-sequence never sampled, budget 5: exactly 5 tokens come out
    // and the session terminates on the budget, not on end-of-sequence.
    let mut s = GenSession::new(10, 5, 999, true);
    let mut outcomes = Vec::new();
    for _ in 0..5 {
        assert!(!s.done);
        let _ = s.next_step();
        outcomes.push(s.push_token(7));
    }
    assert!(s.done);
    assert_eq!(s.emitted.len(), 5);
    assert_eq!(outcomes[3], StepOutcome::Continue);
    assert_eq!(outcomes[4], StepOutcome::StoppedBudget);
}

#[test]
fn end_of_sequence_stops_generation_at_once() {
    let mut s = GenSession::new(4, 10, 42, true);
    assert_eq!(s.push_token(7), StepOutcome::Continue);
    assert_eq!(s.push_token(42), StepOutcome::StoppedEos);
    assert!(s.done);
    assert_eq!(s.emitted, vec![7, 42]);
}

#[test]
fn cached_schedule_feeds_each_position_once() {
    let mut s = GenSession::new(4, 3, 999, true);
    let p0 = s.next_step();
    assert_eq!((p0.offset, p0.count, p0.position), (0, 4, 0));
    s.push_token(1);
    let p1 = s.next_step();
    assert_eq!((p1.offset, p1.count, p1.position), (4, 1, 4));
    s.push_token(2);
    let p2 = s.next_step();
    assert_eq!((p2.offset, p2.count, p2.position), (5, 1, 5));
}

#[test]
fn uncached_schedule_reevaluates_the_whole_sequence() {
    let mut s = GenSession::new(4, 3, 999, false);
    let p0 = s.next_step();
    assert_eq!((p0.offset, p0.count, p0.position), (0, 4, 0));
    s.push_token(1);
    let p1 = s.next_step();
    assert_eq!((p1.offset, p1.count, p1.position), (0, 5, 0));
    s.push_token(2);
    let p2 = s.next_step();
    assert_eq!((p2.offset, p2.count, p2.position), (0, 6, 0));
}

#[test]
fn cached_and_uncached_windows_end_at_the_same_position() {
    // The scheduling half of cache equivalence, on concrete steps: both
    // modes read logits at the same absolute position every step.
    let mut c = GenSession::new(6, 4, 999, true);
    let mut u = GenSession::new(6, 4, 999, false);
    for t in 0..3u32 {
        let pc = c.next_step();
        let pu = u.next_step();
        assert_eq!(pc.offset + pc.count, pu.offset + pu.count);
        assert_eq!(pc.offset, pc.position);
        assert_eq!(pu.position, 0);
        c.push_token(t);
        u.push_token(t);
    }
    assert_eq!(c.emitted, u.emitted);
    assert_eq!(c.seq_len, u.seq_len);
}

#[test]
fn zero_budget_session_starts_terminated() {
    let s = GenSession::new(3, 0, 9, true);
    assert!(s.done);
    assert_eq!(s.emitted.len(), 0);
}
