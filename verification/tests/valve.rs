use mandelbrot::valve::{pipeline_transition, PipelineStage, ValveAction, ValveEvent, ValveState};

#[test]
fn allocates_below_cap_then_blocks() {
    let mut v = ValveState::new(2, 2);
    assert_eq!(v.step(ValveEvent::Empty), ValveAction::Allocate);
    assert_eq!(v.spawned, 1);
    assert_eq!(v.step(ValveEvent::Empty), ValveAction::Allocate);
    assert_eq!(v.spawned, 2);
    assert_eq!(v.step(ValveEvent::Empty), ValveAction::BlockForReturn);
    assert_eq!(v.spawned, 2);
}

#[test]
fn reuses_returned_buffer_under_low_backlog() {
    let mut v = ValveState::new(4, 2);
    v.step(ValveEvent::Empty);
    assert_eq!(v.step(ValveEvent::Received { backlog: 1 }), ValveAction::UseReceived);
    assert_eq!(v.step(ValveEvent::Received { backlog: 2 }), ValveAction::UseReceived);
    assert_eq!(v.spawned, 1);
}

#[test]
fn disconnect_shuts_down() {
    let mut v = ValveState::new(4, 2);
    assert_eq!(v.step(ValveEvent::Disconnected), ValveAction::Shutdown);
    assert_eq!(v.spawned, 0);
}

#[test]
fn sheds_standing_buffers_under_backlog() {
    // Allocation cap 3, backlog threshold 2: after three allocations the
    // consumer falls behind, leaving three returns pending; the next buffer
    // obtained is discarded and one more receive is attempted, reducing the
    // net allocated count by one.
    let mut v = ValveState::new(3, 2);
    assert_eq!(v.step(ValveEvent::Empty), ValveAction::Allocate);
    assert_eq!(v.step(ValveEvent::Empty), ValveAction::Allocate);
    assert_eq!(v.step(ValveEvent::Empty), ValveAction::Allocate);
    assert_eq!(v.spawned, 3);
    assert_eq!(v.step(ValveEvent::Received { backlog: 3 }), ValveAction::ShedThenBlock);
    assert_eq!(v.spawned, 2);
}

#[test]
fn in_flight_count_never_exceeds_cap() {
    let cap = 3;
    let mut v = ValveState::new(cap, 1);
    let events = [
        ValveEvent::Empty,
        ValveEvent::Empty,
        ValveEvent::Received { backlog: 1 },
        ValveEvent::Empty,
        ValveEvent::Empty,
        ValveEvent::Empty,
        ValveEvent::Received { backlog: 2 },
        ValveEvent::Received { backlog: 2 },
        ValveEvent::Empty,
        ValveEvent::Empty,
        ValveEvent::Received { backlog: 1 },
        ValveEvent::Empty,
    ];
    for e in events {
        v.step(e);
        assert!(v.spawned <= cap, "in-flight count {} exceeds cap {cap}", v.spawned);
        assert_eq!(v.spawn_limit, cap);
    }
}

#[test]
fn pipeline_cycles_until_drained() {
    let s = PipelineStage::AwaitingBuffer;
    let s = pipeline_transition(s, ValveAction::Allocate);
    assert_eq!(s, PipelineStage::Rendering);
    let s = pipeline_transition(s, ValveAction::Allocate);
    assert_eq!(s, PipelineStage::Forwarding);
    let s = pipeline_transition(s, ValveAction::Allocate);
    assert_eq!(s, PipelineStage::AwaitingBuffer);
    let s = pipeline_transition(s, ValveAction::Shutdown);
    assert_eq!(s, PipelineStage::Drained);
    let s = pipeline_transition(s, ValveAction::Allocate);
    assert_eq!(s, PipelineStage::Drained);
}
