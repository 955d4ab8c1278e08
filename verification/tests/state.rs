use lenia_engine::kernel::{EntryPoint, KernelDescriptor};
use lenia_engine::state::{evaluate, Readiness, SimulationStateMachine, State};
use lenia_engine::tracker::{KernelHandle, KernelStatus, PipelineReadinessTracker};

fn tracker_with(entries: &[EntryPoint]) -> (PipelineReadinessTracker, Vec<KernelHandle>) {
    let mut tracker = PipelineReadinessTracker::new();
    let handles = entries
        .iter()
        .map(|&entry| tracker.register(KernelDescriptor::new(entry, &vec![0])))
        .collect();
    (tracker, handles)
}

#[test]
fn phases_are_ordered() {
    assert_eq!(State::Loading.ordinal(), 0);
    assert_eq!(State::Initialized.ordinal(), 1);
    assert_eq!(State::Running.ordinal(), 2);
    assert!(!State::Loading.is_terminal());
    assert!(!State::Initialized.is_terminal());
    assert!(State::Running.is_terminal());
}

#[test]
fn pending_kernel_keeps_the_others_waiting() {
    let (mut tracker, handles) = tracker_with(&[EntryPoint::Update, EntryPoint::UpdatePressure]);
    assert_eq!(evaluate(&tracker, &handles), Readiness::Waiting);
    tracker.report(handles[0], KernelStatus::Ready);
    assert_eq!(evaluate(&tracker, &handles), Readiness::Waiting);
    tracker.report(handles[1], KernelStatus::Ready);
    assert_eq!(evaluate(&tracker, &handles), Readiness::Ready);
}

#[test]
fn no_kernel_to_wait_for_is_ready() {
    let (tracker, _) = tracker_with(&[EntryPoint::Init]);
    assert_eq!(evaluate(&tracker, &vec![]), Readiness::Ready);
}

#[test]
fn unknown_kernel_is_never_ready() {
    let (mut tracker, handles) = tracker_with(&[EntryPoint::Init]);
    tracker.report(handles[0], KernelStatus::Ready);
    let awaited = vec![handles[0], KernelHandle { index: 9 }];
    assert_eq!(evaluate(&tracker, &awaited), Readiness::Waiting);
}

#[test]
fn first_failed_kernel_is_named() {
    let (mut tracker, handles) =
        tracker_with(&[EntryPoint::Init, EntryPoint::Update, EntryPoint::UpdatePressure]);
    tracker.report(handles[2], KernelStatus::Failed("late".to_string()));
    tracker.report(handles[1], KernelStatus::Failed("early".to_string()));
    assert_eq!(
        evaluate(&tracker, &handles),
        Readiness::Failed { kernel: handles[1], reason: "early".to_string() }
    );
    let reversed = vec![handles[2], handles[1], handles[0]];
    assert_eq!(
        evaluate(&tracker, &reversed),
        Readiness::Failed { kernel: handles[2], reason: "late".to_string() }
    );
}

#[test]
fn failure_outweighs_waiting_and_ready() {
    let (mut tracker, handles) = tracker_with(&[EntryPoint::Init, EntryPoint::Update]);
    tracker.report(handles[1], KernelStatus::Failed("broken".to_string()));
    assert_eq!(
        evaluate(&tracker, &handles),
        Readiness::Failed { kernel: handles[1], reason: "broken".to_string() }
    );
    tracker.report(handles[0], KernelStatus::Ready);
    assert_eq!(
        evaluate(&tracker, &handles),
        Readiness::Failed { kernel: handles[1], reason: "broken".to_string() }
    );
}

#[test]
fn machine_starts_loading() {
    let machine =
        SimulationStateMachine::new(KernelHandle { index: 0 }, vec![KernelHandle { index: 1 }]);
    assert_eq!(machine.state(), State::Loading);
    assert_eq!(machine.init(), KernelHandle { index: 0 });
    assert_eq!(machine.steady(), &vec![KernelHandle { index: 1 }]);
}

#[test]
fn machine_takes_one_step_per_sampling() {
    let (mut tracker, handles) = tracker_with(&[EntryPoint::Init, EntryPoint::Update]);
    let mut machine = SimulationStateMachine::new(handles[0], vec![handles[1]]);
    tracker.report(handles[0], KernelStatus::Ready);
    tracker.report(handles[1], KernelStatus::Ready);
    assert_eq!(machine.upcoming(&tracker), State::Initialized);
    assert_eq!(machine.state(), State::Loading);
    assert_eq!(machine.advance(&tracker), State::Initialized);
    assert_eq!(machine.state(), State::Initialized);
    assert_eq!(machine.advance(&tracker), State::Running);
    assert_eq!(machine.advance(&tracker), State::Running);
    assert_eq!(machine.state(), State::Running);
}

#[test]
fn machine_waits_for_the_kernel_of_its_phase() {
    let (mut tracker, handles) = tracker_with(&[EntryPoint::Init, EntryPoint::Update]);
    let mut machine = SimulationStateMachine::new(handles[0], vec![handles[1]]);
    assert_eq!(machine.advance(&tracker), State::Loading);
    tracker.report(handles[1], KernelStatus::Ready);
    assert_eq!(machine.advance(&tracker), State::Loading);
    assert_eq!(machine.readiness(&tracker), Readiness::Waiting);
    tracker.report(handles[0], KernelStatus::Ready);
    tracker.report(handles[1], KernelStatus::Pending);
    assert_eq!(machine.advance(&tracker), State::Initialized);
    assert_eq!(machine.advance(&tracker), State::Initialized);
    tracker.report(handles[1], KernelStatus::Ready);
    assert_eq!(machine.advance(&tracker), State::Running);
}

#[test]
fn machine_waits_for_every_steady_kernel() {
    let (mut tracker, handles) =
        tracker_with(&[EntryPoint::Init, EntryPoint::Update, EntryPoint::UpdatePressure]);
    let mut machine = SimulationStateMachine::new(handles[0], vec![handles[1], handles[2]]);
    tracker.report(handles[0], KernelStatus::Ready);
    tracker.report(handles[1], KernelStatus::Ready);
    assert_eq!(machine.advance(&tracker), State::Initialized);
    assert_eq!(machine.advance(&tracker), State::Initialized);
    tracker.report(handles[2], KernelStatus::Ready);
    assert_eq!(machine.advance(&tracker), State::Running);
}

#[test]
fn machine_does_not_go_back_when_a_kernel_fails_later() {
    let (mut tracker, handles) = tracker_with(&[EntryPoint::Init, EntryPoint::Update]);
    let mut machine = SimulationStateMachine::new(handles[0], vec![handles[1]]);
    tracker.report(handles[0], KernelStatus::Ready);
    assert_eq!(machine.advance(&tracker), State::Initialized);
    tracker.report(handles[0], KernelStatus::Failed("recompile".to_string()));
    assert_eq!(machine.advance(&tracker), State::Initialized);
    assert_eq!(machine.readiness(&tracker), Readiness::Waiting);
    tracker.report(handles[1], KernelStatus::Ready);
    assert_eq!(machine.advance(&tracker), State::Running);
    tracker.report(handles[1], KernelStatus::Failed("recompile".to_string()));
    assert_eq!(machine.advance(&tracker), State::Running);
    assert_eq!(machine.readiness(&tracker), Readiness::Ready);
}

#[test]
fn machine_stays_when_the_kernel_it_waits_for_fails() {
    let (mut tracker, handles) = tracker_with(&[EntryPoint::Init, EntryPoint::Update]);
    let mut machine = SimulationStateMachine::new(handles[0], vec![handles[1]]);
    tracker.report(handles[0], KernelStatus::Failed("bad".to_string()));
    assert_eq!(machine.advance(&tracker), State::Loading);
    assert_eq!(
        machine.readiness(&tracker),
        Readiness::Failed { kernel: handles[0], reason: "bad".to_string() }
    );
}
