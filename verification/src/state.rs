//! The readiness state machine: which phase a simulation is in, and when the
//! compile status of its kernels lets it move on.

use vstd::prelude::*;
use crate::tracker::{KernelHandle, KernelStatus, PipelineReadinessTracker, TrackerView};

verus! {

/// Phase of a simulation. The phases are passed in the order written and
/// never left backwards; `Running` is never left.
#[derive(Debug, Clone, Copy, PartialEq, Eq, Hash, Structural)]
pub enum State {
    /// The initialising kernel is not compiled yet; nothing is dispatched.
    Loading,
    /// The initialising kernel is compiled; it is dispatched.
    Initialized,
    /// The steady-state kernels are compiled; they are dispatched.
    Running,
}

impl State {
    /// Place of the phase in the order in which phases are passed.
    pub open spec fn rank(self) -> nat {
        match self {
            State::Loading => 0,
            State::Initialized => 1,
            State::Running => 2,
        }
    }

    /// Place of the phase in the order in which phases are passed.
    pub fn ordinal(self) -> (n: u8)
        ensures
            n == self.rank(),
    {
        match self {
            State::Loading => 0,
            State::Initialized => 1,
            State::Running => 2,
        }
    }

    /// Whether the phase is never left.
    pub fn is_terminal(self) -> (b: bool)
        ensures
            b == (self == State::Running),
    {
        match self {
            State::Running => true,
            _ => false,
        }
    }
}

/// What the kernels that a transition waits for say, taken together.
#[derive(Debug, PartialEq, Eq)]
pub enum Readiness {
    /// No kernel has failed, and at least one is not compiled yet.
    Waiting,
    /// Every kernel is compiled.
    Ready,
    /// A kernel has failed: the first of them that has, with its reason.
    Failed { kernel: KernelHandle, reason: String },
}

/// The `k`-th awaited kernel has failed.
pub open spec fn failed_at(tracker: TrackerView, handles: Seq<KernelHandle>, k: int) -> bool {
    &&& 0 <= k < handles.len()
    &&& tracker.status(handles[k].index as int) matches Some(status)
    &&& status is Failed
}

/// The `k`-th awaited kernel has failed, and none before it has.
pub open spec fn first_failure(tracker: TrackerView, handles: Seq<KernelHandle>, k: int) -> bool {
    &&& failed_at(tracker, handles, k)
    &&& forall|m: int| 0 <= m < k ==> !failed_at(tracker, handles, m)
}

/// Every awaited kernel is compiled. A handle that names no kernel of the
/// tracker is never compiled.
pub open spec fn all_ready(tracker: TrackerView, handles: Seq<KernelHandle>) -> bool {
    forall|k: int|
        0 <= k < handles.len() ==> tracker.status(#[trigger] handles[k].index as int) == Some(
            KernelStatus::Ready,
        )
}

/// What the awaited kernels say, taken together.
pub open spec fn readiness_of(tracker: TrackerView, handles: Seq<KernelHandle>) -> Readiness {
    if exists|k: int| first_failure(tracker, handles, k) {
        let k = choose|k: int| first_failure(tracker, handles, k);
        Readiness::Failed {
            kernel: handles[k],
            reason: tracker.statuses[handles[k].index as int]->Failed_0,
        }
    } else if all_ready(tracker, handles) {
        Readiness::Ready
    } else {
        Readiness::Waiting
    }
}

/// Reads what a list of kernels say, taken together.
pub fn evaluate(tracker: &PipelineReadinessTracker, handles: &Vec<KernelHandle>) -> (g: Readiness)
    requires
        tracker@.wf(),
    ensures
        g == readiness_of(tracker@, handles@),
{
    let mut ready: bool = true;
    let mut i: usize = 0;
    while i < handles.len()
        invariant
            i <= handles.len(),
            tracker@.wf(),
            forall|m: int| 0 <= m < i ==> !failed_at(tracker@, handles@, m),
            ready == all_ready(tracker@, handles@.take(i as int)),
        decreases handles.len() - i,
    {
        let handle = handles[i];
        let ghost front = handles@.take(i as int);
        let ghost grown = handles@.take(i as int + 1);
        match tracker.status(handle) {
            Some(KernelStatus::Failed(reason)) => {
                proof {
                    // None before it has failed: it is the first that has.
                    assert(first_failure(tracker@, handles@, i as int));
                    assert((choose|k: int| first_failure(tracker@, handles@, k)) == i);
                }
                return Readiness::Failed { kernel: handle, reason: reason.clone() };
            },
            Some(KernelStatus::Ready) => {
                assert(all_ready(tracker@, grown) == all_ready(tracker@, front)) by {
                    assert(forall|k: int| 0 <= k < i ==> grown[k] == front[k]);
                }
            },
            _ => {
                assert(!all_ready(tracker@, grown)) by {
                    assert(grown[i as int].index == handle.index);
                }
                ready = false;
            },
        }
        i += 1;
    }
    proof {
        assert(handles@.take(i as int) =~= handles@);
    }
    if ready {
        Readiness::Ready
    } else {
        Readiness::Waiting
    }
}

/// The phase that follows `state` when the kernels it waits for say
/// `readiness`: one step on where all are ready, the same phase where they
/// are not.
pub open spec fn next_state(state: State, readiness: Readiness) -> State {
    match state {
        State::Loading => if readiness is Ready {
            State::Initialized
        } else {
            State::Loading
        },
        State::Initialized => if readiness is Ready {
            State::Running
        } else {
            State::Initialized
        },
        State::Running => State::Running,
    }
}

/// The kernels whose status decides whether `state` is left: the initialising
/// kernel while loading, the steady-state kernels once initialised, none when
/// running.
pub open spec fn awaited(state: State, init: KernelHandle, steady: Seq<KernelHandle>) -> Seq<
    KernelHandle,
> {
    match state {
        State::Loading => seq![init],
        State::Initialized => steady,
        State::Running => Seq::empty(),
    }
}

/// Mathematical content of a [`SimulationStateMachine`].
pub struct MachineView {
    pub state: State,
    pub init: KernelHandle,
    pub steady: Seq<KernelHandle>,
}

impl MachineView {
    /// The kernels that the current phase waits for.
    pub open spec fn awaited(self) -> Seq<KernelHandle> {
        awaited(self.state, self.init, self.steady)
    }

    /// What the kernels that the current phase waits for say.
    pub open spec fn readiness(self, tracker: TrackerView) -> Readiness {
        readiness_of(tracker, self.awaited())
    }

    /// The machine after one sampling of the tracker.
    pub open spec fn advance(self, tracker: TrackerView) -> MachineView {
        MachineView { state: next_state(self.state, self.readiness(tracker)), ..self }
    }
}

/// The state machine of one simulation, with the kernels that it waits for.
#[derive(Debug)]
pub struct SimulationStateMachine {
    state: State,
    init: KernelHandle,
    steady: Vec<KernelHandle>,
}

impl View for SimulationStateMachine {
    type V = MachineView;

    closed spec fn view(&self) -> MachineView {
        MachineView { state: self.state, init: self.init, steady: self.steady@ }
    }
}

impl SimulationStateMachine {
    /// A machine in `Loading`, which waits first for `init` and then for
    /// `steady`.
    pub fn new(init: KernelHandle, steady: Vec<KernelHandle>) -> (m: SimulationStateMachine)
        ensures
            m@ == (MachineView { state: State::Loading, init, steady: steady@ }),
    {
        SimulationStateMachine { state: State::Loading, init, steady }
    }

    /// Current phase.
    pub fn state(&self) -> (s: State)
        ensures
            s == self@.state,
    {
        self.state
    }

    /// Handle of the kernel that the first transition waits for.
    pub fn init(&self) -> (h: KernelHandle)
        ensures
            h == self@.init,
    {
        self.init
    }

    /// Handles of the kernels that the second transition waits for.
    pub fn steady(&self) -> (h: &Vec<KernelHandle>)
        ensures
            h@ == self@.steady,
    {
        &self.steady
    }

    /// Reads what the kernels that the current phase waits for say.
    pub fn readiness(&self, tracker: &PipelineReadinessTracker) -> (g: Readiness)
        requires
            tracker@.wf(),
        ensures
            g == self@.readiness(tracker@),
    {
        match self.state {
            State::Loading => {
                let awaited = vec![self.init];
                assert(awaited@ =~= self@.awaited());
                evaluate(tracker, &awaited)
            },
            State::Initialized => evaluate(tracker, &self.steady),
            State::Running => {
                let awaited: Vec<KernelHandle> = Vec::new();
                assert(awaited@ =~= self@.awaited());
                evaluate(tracker, &awaited)
            },
        }
    }

    /// The phase that the machine enters if it samples the tracker now.
    pub fn upcoming(&self, tracker: &PipelineReadinessTracker) -> (s: State)
        requires
            tracker@.wf(),
        ensures
            s == self@.advance(tracker@).state,
    {
        let readiness = self.readiness(tracker);
        match self.state {
            State::Loading => match readiness {
                Readiness::Ready => State::Initialized,
                _ => State::Loading,
            },
            State::Initialized => match readiness {
                Readiness::Ready => State::Running,
                _ => State::Initialized,
            },
            State::Running => State::Running,
        }
    }

    /// Samples the tracker once and takes the transition that it allows.
    /// Returns the phase after the call.
    pub fn advance(&mut self, tracker: &PipelineReadinessTracker) -> (s: State)
        requires
            tracker@.wf(),
        ensures
            final(self)@ == old(self)@.advance(tracker@),
            s == final(self)@.state,
    {
        let next = self.upcoming(tracker);
        self.state = next;
        next
    }
}

} // verus!
