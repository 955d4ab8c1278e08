//! The simulation: one variant together with the tracker of its kernels,
//! behind the interface that a host drives.

use vstd::prelude::*;
use crate::error::{ConfigurationError, SimulationError};
use crate::grid::{aligned, ChannelFormat, GridBuffer, GridBufferView};
use crate::kernel::EntryPoint;
use crate::queue::{QueueView, SubmissionQueue};
use crate::state::{all_ready, first_failure, MachineView, Readiness, State};
use crate::tracker::{
    all_pending, lemma_register_all_fresh, KernelHandle, KernelStatus, PipelineReadinessTracker,
    TrackerView,
};
use crate::variant::{
    lemma_kernels_distinct, VariantConfiguration, VariantKind, VariantView, PRESSURE_ITERATIONS,
};

verus! {

/// What a simulation is doing, as its host sees it.
#[derive(Debug, PartialEq, Eq)]
pub enum SimulationStatus {
    /// Waiting for the initialising kernel to compile.
    Loading,
    /// Initialising; waiting for the steady-state kernels to compile.
    Initialized,
    /// Stepping the simulation every frame.
    Running,
    /// A kernel that the simulation waits for failed to build. The simulation
    /// will not leave its phase.
    Failed { kernel: KernelHandle, reason: String },
}

/// Mathematical content of a [`Simulation`].
pub struct SimulationView {
    pub variant: VariantView,
    pub tracker: TrackerView,
}

impl SimulationView {
    /// Variant and tracker are well formed, and every kernel of the variant
    /// is registered under its handle.
    pub open spec fn wf(self) -> bool {
        &&& self.variant.wf()
        &&& self.tracker.wf()
        &&& self.variant.registered_with(self.tracker)
    }

    /// Current phase.
    pub open spec fn state(self) -> State {
        self.variant.state()
    }

    /// A simulation as it is created: in `Loading`, with the buffers and
    /// kernels of its kind, every kernel pending, and the default number of
    /// pressure passes.
    pub open spec fn created(kind: VariantKind, width: nat, height: nat) -> SimulationView {
        let kernels = kind.spec_kernels();
        SimulationView {
            variant: VariantView {
                kind,
                width,
                height,
                pressure_iterations: PRESSURE_ITERATIONS as nat,
                buffers: kind.spec_buffers(width, height),
                machine: MachineView {
                    state: State::Loading,
                    init: KernelHandle { index: 0 },
                    steady: Seq::new(
                        (kernels.len() - 1) as nat,
                        |k: int| KernelHandle { index: (k + 1) as usize },
                    ),
                },
            },
            tracker: TrackerView { descriptors: kernels, statuses: all_pending(kernels.len()) },
        }
    }

    /// What the simulation is doing: failed, if a kernel that its phase waits
    /// for has failed; else its phase.
    pub open spec fn status(self) -> SimulationStatus {
        match self.variant.machine.readiness(self.tracker) {
            Readiness::Failed { kernel, reason } => SimulationStatus::Failed { kernel, reason },
            _ => match self.state() {
                State::Loading => SimulationStatus::Loading,
                State::Initialized => SimulationStatus::Initialized,
                State::Running => SimulationStatus::Running,
            },
        }
    }

    /// The simulation after the host reported the status of a kernel.
    pub open spec fn report(self, handle: KernelHandle, status: KernelStatus) -> SimulationView {
        SimulationView { tracker: self.tracker.report(handle.index as int, status), ..self }
    }

    /// The simulation and the queue after one frame, and how the frame ended.
    pub open spec fn advance_frame(self, queue: QueueView) -> (
        SimulationView,
        QueueView,
        Result<(), SimulationError>,
    ) {
        let (variant, after, verdict) = self.variant.step(self.tracker, queue);
        (SimulationView { variant, ..self }, after, verdict)
    }
}

/// A simulation created on a grid whose sides are positive multiples of the
/// tile is well formed, waits in `Loading`, and shows a colour buffer of
/// exactly the dimensions it was created with.
pub proof fn lemma_created(kind: VariantKind, width: nat, height: nat)
    requires
        aligned(width),
        aligned(height),
        width <= u32::MAX,
        height <= u32::MAX,
    ensures
        SimulationView::created(kind, width, height).wf(),
        SimulationView::created(kind, width, height).status() == SimulationStatus::Loading,
        SimulationView::created(kind, width, height).variant.buffers[0] == (GridBufferView {
            width,
            height,
            format: ChannelFormat::Rgba8Unorm,
            slot: 0,
        }),
{
    let made = SimulationView::created(kind, width, height);
    let kernels = kind.spec_kernels();
    assert forall|i: int, j: int| 0 <= i < j < kernels.len() implies kernels[i] != kernels[j] by {
        lemma_kernels_distinct(kind, i, j);
    }
    let awaited = made.variant.machine.awaited();
    assert(made.tracker.status(awaited[0].index as int) == Some(KernelStatus::Pending));
    assert(!all_ready(made.tracker, awaited));
    assert(forall|k: int| !first_failure(made.tracker, awaited, k));
}

/// One simulation: a variant on a grid, and the tracker of its kernels.
#[derive(Debug)]
pub struct Simulation {
    variant: VariantConfiguration,
    tracker: PipelineReadinessTracker,
}

impl View for Simulation {
    type V = SimulationView;

    closed spec fn view(&self) -> SimulationView {
        SimulationView { variant: self.variant@, tracker: self.tracker@ }
    }
}

impl Simulation {
    /// Creates a simulation of the given kind on a grid of the given size.
    /// Succeeds exactly when both dimensions are positive multiples of the
    /// tile; otherwise nothing is created.
    pub fn create(kind: VariantKind, width: u32, height: u32) -> (r: Result<
        Simulation,
        ConfigurationError,
    >)
        ensures
            r is Ok <==> aligned(width as nat) && aligned(height as nat),
            r matches Ok(sim) ==> sim@.wf() && sim@ == SimulationView::created(
                kind,
                width as nat,
                height as nat,
            ),
            r matches Err(e) ==> e == (ConfigurationError::MisalignedGrid { width, height }),
    {
        let mut tracker = PipelineReadinessTracker::new();
        let ghost start = tracker@;
        match VariantConfiguration::new(kind, width, height, &mut tracker) {
            Ok(variant) => {
                let sim = Simulation { variant, tracker };
                proof {
                    let kernels = kind.spec_kernels();
                    assert forall|i: int, j: int| 0 <= i < j < kernels.len() implies kernels[i]
                        != kernels[j] by {
                        lemma_kernels_distinct(kind, i, j);
                    }
                    lemma_register_all_fresh(start, kernels);
                    let made = SimulationView::created(kind, width as nat, height as nat);
                    let handles = sim@.variant.kernels();
                    let steady = sim@.variant.machine.steady;
                    assert(handles[0] == sim@.variant.machine.init);
                    assert(steady =~= made.variant.machine.steady) by {
                        assert forall|k: int| 0 <= k < steady.len() implies steady[k]
                            == made.variant.machine.steady[k] by {
                            assert(handles[k + 1] == steady[k]);
                        }
                    }
                }
                Ok(sim)
            },
            Err(e) => Err(e),
        }
    }

    /// Runs one frame: samples the compile status of the kernels that the
    /// current phase waits for, takes the transition that they allow, and
    /// submits the dispatches of the new phase to the queue, in order. A frame that ends
    /// in an error leaves simulation and queue as they were.
    pub fn advance_frame(&mut self, queue: &mut SubmissionQueue) -> (r: Result<
        (),
        SimulationError,
    >)
        requires
            old(self)@.wf(),
            old(queue)@.wf(),
        ensures
            final(self)@.wf(),
            final(queue)@.wf(),
            (final(self)@, final(queue)@, r) == old(self)@.advance_frame(old(queue)@),
    {
        self.variant.step(&self.tracker, queue)
    }

    /// The colour buffer, bound to slot 0, which the host presents. It has
    /// the dimensions that the simulation was created with.
    pub fn display_buffer(&self) -> (b: &GridBuffer)
        requires
            self@.wf(),
        ensures
            b@ == (GridBufferView {
                width: self@.variant.width,
                height: self@.variant.height,
                format: ChannelFormat::Rgba8Unorm,
                slot: 0,
            }),
    {
        self.variant.display_buffer()
    }

    /// Current phase.
    pub fn state(&self) -> (s: State)
        ensures
            s == self@.state(),
    {
        self.variant.state()
    }

    /// What the simulation is doing, with the fault if it cannot go on.
    pub fn status(&self) -> (s: SimulationStatus)
        requires
            self@.wf(),
        ensures
            s == self@.status(),
    {
        match self.variant.readiness(&self.tracker) {
            Readiness::Failed { kernel, reason } => SimulationStatus::Failed { kernel, reason },
            _ => match self.variant.state() {
                State::Loading => SimulationStatus::Loading,
                State::Initialized => SimulationStatus::Initialized,
                State::Running => SimulationStatus::Running,
            },
        }
    }

    /// Records the compile status that the host found for a kernel. Returns
    /// whether the report was taken: one for a failed kernel or for an
    /// unknown handle is not.
    pub fn report(&mut self, handle: KernelHandle, status: KernelStatus) -> (taken: bool)
        requires
            old(self)@.wf(),
        ensures
            final(self)@.wf(),
            final(self)@ == old(self)@.report(handle, status),
            taken == (handle.index < old(self)@.tracker.len() && !(old(
                self,
            )@.tracker.statuses[handle.index as int] is Failed)),
    {
        self.tracker.report(handle, status)
    }

    /// Handle of the kernel with the given entry point, if the variant has
    /// such a kernel.
    pub fn kernel(&self, entry: EntryPoint) -> (h: Option<KernelHandle>)
        requires
            self@.wf(),
        ensures
            h == self@.variant.handle_of(entry),
    {
        self.variant.kernel(entry)
    }

    /// The variant of the simulation.
    pub fn variant(&self) -> (v: &VariantConfiguration)
        ensures
            v@ == self@.variant,
    {
        &self.variant
    }

    /// The tracker of the simulation's kernels.
    pub fn tracker(&self) -> (t: &PipelineReadinessTracker)
        ensures
            t@ == self@.tracker,
    {
        &self.tracker
    }

    /// Sets the number of pressure-relaxation passes per frame.
    pub fn set_pressure_iterations(&mut self, iterations: u32)
        requires
            old(self)@.wf(),
        ensures
            final(self)@.wf(),
            final(self)@ == (SimulationView {
                variant: VariantView {
                    pressure_iterations: iterations as nat,
                    ..old(self)@.variant
                },
                ..old(self)@
            }),
    {
        self.variant.set_pressure_iterations(iterations);
    }
}

} // verus!
