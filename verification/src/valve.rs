//! Adaptive backpressure valve for the buffer pipeline.
//!
//! The pipeline worker repeatedly needs a recyclable pixel buffer. Supply is
//! governed by a valve: when the return channel is empty and the allocation
//! cap is not reached, a fresh buffer is allocated; when the channel backlog
//! exceeds a threshold, the buffer just received is retired to shrink the
//! standing working set; when the cap is reached the worker blocks; when the
//! channel is closed the worker drains and stops. The decisions are pure
//! functions of the valve state and the observed channel event, so they are
//! stated and proved here; the channel operations themselves are performed by
//! the caller, which feeds the observed event back in.

use vstd::prelude::*;

verus! {

/// Counters governing buffer allocation and retirement.
///
/// `spawned` is the number of buffers currently allocated and in flight
/// anywhere in the pipeline; it never exceeds `spawn_limit` (see
/// [`ValveState::wf`]). `backpressure_limit` is the poll-time return-channel
/// backlog above which a received buffer is retired instead of reused.
#[derive(Clone, Copy, PartialEq, Eq, Structural, Debug)]
pub struct ValveState {
    pub spawned: usize,
    pub spawn_limit: usize,
    pub backpressure_limit: usize,
}

/// What the caller observed when it polled the return channel.
#[derive(Clone, Copy, PartialEq, Eq, Structural, Debug)]
pub enum ValveEvent {
    /// A returned buffer was received; `backlog` is the number of buffers
    /// that were pending in the channel at the moment of the poll, counting
    /// the one just received, so it is at least one.
    Received { backlog: usize },
    /// The channel is currently empty but still open.
    Empty,
    /// The channel is closed and empty: no buffer will ever arrive again.
    Disconnected,
}

/// What the caller must do next with the channel and the buffer, decided by
/// [`ValveState::step`].
#[derive(Clone, Copy, PartialEq, Eq, Structural, Debug)]
pub enum ValveAction {
    /// Keep the received buffer and render into it.
    UseReceived,
    /// Drop the received buffer (the backlog shows supply outpacing demand),
    /// then block for the next returned buffer.
    ShedThenBlock,
    /// Allocate and zero a fresh buffer; the cap is not yet reached.
    Allocate,
    /// The cap is reached and nothing was pending: block until a buffer is
    /// returned.
    BlockForReturn,
    /// The pipeline is drained: terminate the worker.
    Shutdown,
}

impl ValveState {
    /// The valve invariant: the number of buffers in flight never exceeds
    /// the allocation cap.
    pub open spec fn wf(self) -> bool {
        self.spawned <= self.spawn_limit
    }

    /// A fresh valve: nothing allocated yet.
    pub fn new(spawn_limit: usize, backpressure_limit: usize) -> (v: ValveState)
        ensures
            v == (ValveState { spawned: 0, spawn_limit, backpressure_limit }),
            v.wf(),
    {
        ValveState { spawned: 0, spawn_limit, backpressure_limit }
    }

    /// One decision of the valve, as a pure state transition.
    ///
    /// A `Received` event with a poll-time backlog above the threshold
    /// (more buffers standing in the channel than the valve wants) retires
    /// the received buffer (one fewer in flight); otherwise the buffer is
    /// used as-is. An `Empty` event allocates (one more in flight) only
    /// below the cap, else blocks. `Disconnected` shuts the worker down.
    /// The in-flight count changes in no other way, and the two limits
    /// never change.
    pub fn step(&mut self, event: ValveEvent) -> (action: ValveAction)
        requires
            old(self).wf(),
            // Retiring a received buffer presupposes one is in flight.
            event matches ValveEvent::Received { backlog }
                && backlog > old(self).backpressure_limit ==> old(self).spawned > 0,
        ensures
            *final(self) == step_spec(*old(self), event),
            action == action_spec(*old(self), event),
            final(self).wf(),
    {
        match event {
            ValveEvent::Received { backlog } => {
                if backlog > self.backpressure_limit {
                    self.spawned = self.spawned - 1;
                    ValveAction::ShedThenBlock
                } else {
                    ValveAction::UseReceived
                }
            }
            ValveEvent::Empty => {
                if self.spawned < self.spawn_limit {
                    self.spawned = self.spawned + 1;
                    ValveAction::Allocate
                } else {
                    ValveAction::BlockForReturn
                }
            }
            ValveEvent::Disconnected => ValveAction::Shutdown,
        }
    }
}

/// The state after one valve decision. Retirement saturates at zero in this
/// model; [`ValveState::step`] additionally requires that the saturated case
/// cannot arise.
pub open spec fn step_spec(s: ValveState, event: ValveEvent) -> ValveState {
    match event {
        ValveEvent::Received { backlog } => {
            if backlog > s.backpressure_limit && s.spawned > 0 {
                ValveState { spawned: (s.spawned - 1) as usize, ..s }
            } else {
                s
            }
        }
        ValveEvent::Empty => {
            if s.spawned < s.spawn_limit {
                ValveState { spawned: (s.spawned + 1) as usize, ..s }
            } else {
                s
            }
        }
        ValveEvent::Disconnected => s,
    }
}

/// The action chosen by one valve decision.
pub open spec fn action_spec(s: ValveState, event: ValveEvent) -> ValveAction {
    match event {
        ValveEvent::Received { backlog } => {
            if backlog > s.backpressure_limit {
                ValveAction::ShedThenBlock
            } else {
                ValveAction::UseReceived
            }
        }
        ValveEvent::Empty => {
            if s.spawned < s.spawn_limit {
                ValveAction::Allocate
            } else {
                ValveAction::BlockForReturn
            }
        }
        ValveEvent::Disconnected => ValveAction::Shutdown,
    }
}

/// The state after a whole sequence of valve decisions, applied in order.
pub open spec fn run_spec(s: ValveState, events: Seq<ValveEvent>) -> ValveState
    decreases events.len(),
{
    if events.len() == 0 {
        s
    } else {
        run_spec(step_spec(s, events[0]), events.skip(1))
    }
}

/// Law: however the consumer receives and returns buffers, the number of
/// buffers in flight never exceeds the allocation cap, and the configured
/// limits never change. Every prefix of the event sequence is itself a
/// sequence, so the bound holds at every intermediate state as well.
pub proof fn lemma_valve_in_flight_bounded(s: ValveState, events: Seq<ValveEvent>)
    requires
        s.wf(),
    ensures
        run_spec(s, events).wf(),
        run_spec(s, events).spawn_limit == s.spawn_limit,
        run_spec(s, events).backpressure_limit == s.backpressure_limit,
    decreases events.len(),
{
    if events.len() > 0 {
        lemma_valve_in_flight_bounded(step_spec(s, events[0]), events.skip(1));
    }
}

/// The stages of one pipeline worker's cycle: wait for a buffer, render the
/// next frame into it, forward it downstream; `Drained` is terminal once the
/// return channel is closed and empty.
#[derive(Clone, Copy, PartialEq, Eq, Structural, Debug)]
pub enum PipelineStage {
    AwaitingBuffer,
    Rendering,
    Forwarding,
    Drained,
}

/// The stage transition of the pipeline worker.
///
/// From `AwaitingBuffer`, the valve's decision either yields a buffer
/// eventually (any action but `Shutdown` leads to `Rendering`) or ends the
/// worker (`Shutdown` leads to `Drained`). A finished render is forwarded;
/// a forwarded buffer starts the next wait. `Drained` is absorbing.
pub fn pipeline_transition(stage: PipelineStage, action: ValveAction) -> (next: PipelineStage)
    ensures
        stage == PipelineStage::AwaitingBuffer && action != ValveAction::Shutdown
            ==> next == PipelineStage::Rendering,
        stage == PipelineStage::AwaitingBuffer && action == ValveAction::Shutdown
            ==> next == PipelineStage::Drained,
        stage == PipelineStage::Rendering ==> next == PipelineStage::Forwarding,
        stage == PipelineStage::Forwarding ==> next == PipelineStage::AwaitingBuffer,
        stage == PipelineStage::Drained ==> next == PipelineStage::Drained,
    {
    match stage {
        PipelineStage::AwaitingBuffer => {
            if action == ValveAction::Shutdown {
                PipelineStage::Drained
            } else {
                PipelineStage::Rendering
            }
        }
        PipelineStage::Rendering => PipelineStage::Forwarding,
        PipelineStage::Forwarding => PipelineStage::AwaitingBuffer,
        PipelineStage::Drained => PipelineStage::Drained,
    }
}

} // verus!
