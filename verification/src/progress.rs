//! How a simulation moves through its phases while its host reports compile
//! results and runs frames, in any order and any number.

use vstd::prelude::*;
use crate::queue::QueueView;
use crate::sequencer::{
    dispatches_of, lemma_initialized_plan, lemma_running_plan_skips_init, plan_spec, Dispatch,
};
use crate::simulation::SimulationView;
use crate::state::{first_failure, Readiness, State};
use crate::tracker::{KernelHandle, KernelStatus};
use crate::variant::VariantView;

verus! {

/// Something that the host does to a simulation.
pub enum Event {
    /// It reports the compile status of a kernel.
    Report { handle: KernelHandle, status: KernelStatus },
    /// It sets the number of pressure passes per frame.
    Configure { pressure_iterations: u32 },
    /// It runs a frame, on a queue in the state given.
    Frame { queue: QueueView },
}

/// The simulation after an event.
pub open spec fn after_event(sim: SimulationView, event: Event) -> SimulationView {
    match event {
        Event::Report { handle, status } => sim.report(handle, status),
        Event::Configure { pressure_iterations } => SimulationView {
            variant: VariantView { pressure_iterations: pressure_iterations as nat, ..sim.variant },
            ..sim
        },
        Event::Frame { queue } => sim.advance_frame(queue).0,
    }
}

/// The dispatches that an event appends to the queue: those of the frame, if
/// the event is a frame that the queue takes, and none otherwise.
pub open spec fn issued(sim: SimulationView, event: Event) -> Seq<Dispatch> {
    match event {
        Event::Frame { queue } => sim.advance_frame(queue).1.pending.skip(
            queue.pending.len() as int,
        ),
        _ => Seq::empty(),
    }
}

/// The simulation after a history of events, oldest first.
pub open spec fn after(sim: SimulationView, events: Seq<Event>) -> SimulationView
    decreases events.len(),
{
    if events.len() == 0 {
        sim
    } else {
        after_event(after(sim, events.drop_last()), events.last())
    }
}

/// Every kernel of the simulation is compiled.
pub open spec fn kernels_ready(sim: SimulationView) -> bool {
    forall|k: int|
        0 <= k < sim.variant.kernels().len() ==> sim.tracker.status(
            (#[trigger] sim.variant.kernels()[k]).index as int,
        ) == Some(KernelStatus::Ready)
}

/// No event breaks a simulation.
pub proof fn lemma_event_keeps_wf(sim: SimulationView, event: Event)
    requires
        sim.wf(),
    ensures
        after_event(sim, event).wf(),
{
}

/// No history of events breaks a simulation.
pub proof fn lemma_history_keeps_wf(sim: SimulationView, events: Seq<Event>)
    requires
        sim.wf(),
    ensures
        after(sim, events).wf(),
    decreases events.len(),
{
    if events.len() > 0 {
        lemma_history_keeps_wf(sim, events.drop_last());
        lemma_event_keeps_wf(after(sim, events.drop_last()), events.last());
    }
}

/// An event leaves the phase as it is or moves it one step on, and only a
/// frame moves it.
pub proof fn lemma_event_steps(sim: SimulationView, event: Event)
    ensures
        sim.state().rank() <= after_event(sim, event).state().rank() <= sim.state().rank() + 1,
        !(event is Frame) ==> after_event(sim, event).state() == sim.state(),
{
}

/// The phase never goes back: later in a history the simulation is at least
/// as far as earlier, whatever was reported in between.
pub proof fn lemma_never_regresses(sim: SimulationView, events: Seq<Event>, i: int, j: int)
    requires
        0 <= i <= j <= events.len(),
    ensures
        after(sim, events.take(i)).state().rank() <= after(sim, events.take(j)).state().rank(),
    decreases j - i,
{
    if i < j {
        lemma_never_regresses(sim, events, i, j - 1);
        assert(events.take(j).drop_last() =~= events.take(j - 1));
        lemma_event_steps(after(sim, events.take(j - 1)), events.take(j).last());
    }
}

/// No phase is skipped: a history of `n` events moves the simulation at most
/// `n` steps on.
pub proof fn lemma_no_phase_skipped(sim: SimulationView, events: Seq<Event>)
    ensures
        after(sim, events).state().rank() <= sim.state().rank() + events.len(),
    decreases events.len(),
{
    if events.len() > 0 {
        lemma_no_phase_skipped(sim, events.drop_last());
        lemma_event_steps(after(sim, events.drop_last()), events.last());
    }
}

/// A running simulation keeps running.
pub proof fn lemma_running_is_final(sim: SimulationView, events: Seq<Event>)
    requires
        sim.state() == State::Running,
    ensures
        after(sim, events).state() == State::Running,
{
    assert(events.take(events.len() as int) =~= events);
    lemma_never_regresses(sim, events, 0, events.len() as int);
}

/// Once a simulation runs, no event that follows, however late, dispatches
/// the initialising kernel again.
pub proof fn lemma_no_init_after_running(
    sim: SimulationView,
    events: Seq<Event>,
    event: Event,
    k: int,
)
    requires
        sim.wf(),
        sim.state() == State::Running,
        0 <= k < issued(after(sim, events), event).len(),
    ensures
        issued(after(sim, events), event)[k].kernel != sim.variant.machine.init,
{
    let now = after(sim, events);
    lemma_running_is_final(sim, events);
    lemma_history_keeps_wf(sim, events);
    lemma_init_is_kept(sim, events);
    match event {
        Event::Frame { queue } => {
            let batch = dispatches_of(plan_spec(State::Running, now.variant));
            if now.advance_frame(queue).2 is Ok {
                assert(now.advance_frame(queue).1.pending.skip(queue.pending.len() as int)
                    =~= batch);
                lemma_running_plan_skips_init(now.variant, k);
            } else {
                assert(now.advance_frame(queue).1.pending.skip(queue.pending.len() as int)
                    =~= Seq::<Dispatch>::empty());
            }
        },
        _ => {},
    }
}

/// The kernels of a simulation keep their handles through every event.
pub proof fn lemma_init_is_kept(sim: SimulationView, events: Seq<Event>)
    ensures
        after(sim, events).variant.machine.init == sim.variant.machine.init,
        after(sim, events).variant.machine.steady == sim.variant.machine.steady,
        after(sim, events).variant.kind == sim.variant.kind,
    decreases events.len(),
{
    if events.len() > 0 {
        lemma_init_is_kept(sim, events.drop_last());
    }
}

/// With every kernel compiled, the kernels that any phase waits for are
/// ready.
pub proof fn lemma_ready_kernels_open(sim: SimulationView)
    requires
        sim.wf(),
        kernels_ready(sim),
    ensures
        sim.variant.machine.readiness(sim.tracker) == Readiness::Ready,
{
    let awaited = sim.variant.machine.awaited();
    let kernels = sim.variant.kernels();
    assert forall|k: int| 0 <= k < awaited.len() implies sim.tracker.status(
        #[trigger] awaited[k].index as int,
    ) == Some(KernelStatus::Ready) by {
        match sim.state() {
            State::Loading => {
                assert(awaited[k] == kernels[0]);
            },
            State::Initialized => {
                assert(awaited[k] == kernels[k + 1]);
            },
            State::Running => {},
        }
    }
    assert(forall|k: int| !first_failure(sim.tracker, awaited, k));
}

/// Once every kernel is compiled, two frames that the queue takes bring a
/// new simulation to `Running`: the first dispatches the initialising kernel,
/// once, and the second dispatches the steady-state kernels and not the
/// initialising one.
pub proof fn lemma_ready_kernels_reach_running(
    sim: SimulationView,
    first: QueueView,
    second: QueueView,
)
    requires
        sim.wf(),
        sim.state() == State::Loading,
        kernels_ready(sim),
        sim.advance_frame(first).2 is Ok,
        sim.advance_frame(first).0.advance_frame(second).2 is Ok,
    ensures
        sim.advance_frame(first).0.state() == State::Initialized,
        issued(sim, Event::Frame { queue: first }) == seq![
            Dispatch { kernel: sim.variant.machine.init, extent: sim.variant.extent() },
        ],
        sim.advance_frame(first).0.advance_frame(second).0.state() == State::Running,
        issued(sim.advance_frame(first).0, Event::Frame { queue: second }) == dispatches_of(
            plan_spec(State::Running, sim.variant),
        ),
{
    lemma_ready_kernels_open(sim);
    lemma_initialized_plan(sim.variant);
    let middle = sim.advance_frame(first).0;
    assert(sim.advance_frame(first).1.pending.skip(first.pending.len() as int) =~= dispatches_of(
        plan_spec(State::Initialized, sim.variant),
    ));
    lemma_ready_kernels_open(middle);
    assert(middle.advance_frame(second).1.pending.skip(second.pending.len() as int)
        =~= dispatches_of(plan_spec(State::Running, middle.variant)));
}

} // verus!
