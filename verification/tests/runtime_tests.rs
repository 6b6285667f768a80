use simple_profiler::runtime::{CollectionLoop, LoopAction, LoopEvent};

#[test]
fn the_loop_stops_at_the_sample_limit() {
    let mut state = CollectionLoop::new(Some(3));
    assert_eq!(state.step(LoopEvent::BatchStored), LoopAction::Continue);
    assert_eq!(state.step(LoopEvent::CollectionFailed), LoopAction::Continue);
    assert_eq!(state.step(LoopEvent::BatchStored), LoopAction::Continue);
    assert_eq!(state.collected_cycles(), 2);
    assert_eq!(state.step(LoopEvent::BatchStored), LoopAction::Stop);
    assert_eq!(state.collected_cycles(), 3);
}

#[test]
fn a_zero_limit_stops_after_the_first_batch() {
    let mut state = CollectionLoop::new(Some(0));
    assert_eq!(state.step(LoopEvent::CollectionFailed), LoopAction::Continue);
    assert_eq!(state.step(LoopEvent::BatchStored), LoopAction::Stop);
}

#[test]
fn without_a_limit_only_a_shutdown_stops_the_loop() {
    let mut state = CollectionLoop::new(None);
    for _ in 0..1000 {
        assert_eq!(state.step(LoopEvent::BatchStored), LoopAction::Continue);
    }
    assert_eq!(state.collected_cycles(), 1000);
    assert_eq!(state.step(LoopEvent::ShutdownRequested), LoopAction::Stop);
    assert_eq!(state.collected_cycles(), 1000);
}
