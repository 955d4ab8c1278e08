//! The three simulation variants: which buffers each declares, which kernels
//! it runs, and the configuration that binds them together.

use vstd::prelude::*;
use crate::error::{ConfigurationError, SimulationError};
use crate::grid::{
    aligned, buffer_views, extent_spec, lemma_tiles_exact, tiles, ChannelFormat, GridBuffer,
    GridBufferView, GridExtent, TILE,
};
use crate::kernel::{bindings_of, slots_of, EntryPoint, KernelDescriptor, KernelDescriptorView};
use crate::layout::{admits, check_layout, declared_slots, lemma_admits_itself};
use crate::queue::{QueueView, SubmissionQueue};
use crate::sequencer::{dispatches_of, plan_spec, FrameSequencer};
use crate::state::{MachineView, Readiness, SimulationStateMachine, State};
use crate::tracker::{
    lemma_register_all_places, views_of, KernelHandle, PipelineReadinessTracker, TrackerView,
};

verus! {

/// Pressure-relaxation passes that a fluid simulation makes per frame unless
/// it is configured otherwise.
pub const PRESSURE_ITERATIONS: u32 = 100;

/// Kind of simulation.
#[derive(Debug, Clone, Copy, PartialEq, Eq, Hash, Structural)]
pub enum VariantKind {
    Lenia,
    FlowLenia,
    Fluid,
}

impl VariantKind {
    /// Cell format of each buffer, by slot. Slot 0 is the colour buffer that
    /// the host displays.
    pub open spec fn spec_formats(self) -> Seq<ChannelFormat> {
        match self {
            VariantKind::Lenia => seq![ChannelFormat::Rgba8Unorm],
            VariantKind::FlowLenia => seq![ChannelFormat::Rgba8Unorm, ChannelFormat::R32Float],
            VariantKind::Fluid => seq![
                ChannelFormat::Rgba8Unorm,
                ChannelFormat::R32Float,
                ChannelFormat::R32Float,
                ChannelFormat::R32Float,
            ],
        }
    }

    /// Entry points of the kernels: the initialising kernel first, then the
    /// steady-state kernels in the order in which a frame dispatches them.
    pub open spec fn spec_entries(self) -> Seq<EntryPoint> {
        match self {
            VariantKind::Lenia => seq![EntryPoint::Init, EntryPoint::Update],
            VariantKind::FlowLenia => seq![
                EntryPoint::Init,
                EntryPoint::ComputeGrowth,
                EntryPoint::ApplyFlow,
            ],
            VariantKind::Fluid => seq![
                EntryPoint::Init,
                EntryPoint::Update,
                EntryPoint::UpdatePressure,
            ],
        }
    }

    /// The slots that the variant declares: one per buffer, counted from 0.
    pub open spec fn spec_slots(self) -> Seq<u32> {
        Seq::new(self.spec_formats().len(), |i: int| i as u32)
    }

    /// The buffers of a simulation of this kind on a grid of the given size.
    pub open spec fn spec_buffers(self, width: nat, height: nat) -> Seq<GridBufferView> {
        Seq::new(
            self.spec_formats().len(),
            |i: int|
                GridBufferView { width, height, format: self.spec_formats()[i], slot: i as nat },
        )
    }

    /// The kernels of the variant. Each binds every buffer of the variant, in
    /// slot order.
    pub open spec fn spec_kernels(self) -> Seq<KernelDescriptorView> {
        Seq::new(
            self.spec_entries().len(),
            |k: int|
                KernelDescriptorView {
                    entry: self.spec_entries()[k],
                    bindings: bindings_of(self.spec_slots()),
                },
        )
    }

    /// Cell format of each buffer, by slot.
    pub fn formats(self) -> (v: Vec<ChannelFormat>)
        ensures
            v@ == self.spec_formats(),
    {
        let v = match self {
            VariantKind::Lenia => vec![ChannelFormat::Rgba8Unorm],
            VariantKind::FlowLenia => vec![ChannelFormat::Rgba8Unorm, ChannelFormat::R32Float],
            VariantKind::Fluid => vec![
                ChannelFormat::Rgba8Unorm,
                ChannelFormat::R32Float,
                ChannelFormat::R32Float,
                ChannelFormat::R32Float,
            ],
        };
        v
    }

    /// Entry points of the kernels, the initialising kernel first.
    pub fn entries(self) -> (v: Vec<EntryPoint>)
        ensures
            v@ == self.spec_entries(),
    {
        let v = match self {
            VariantKind::Lenia => vec![EntryPoint::Init, EntryPoint::Update],
            VariantKind::FlowLenia => vec![
                EntryPoint::Init,
                EntryPoint::ComputeGrowth,
                EntryPoint::ApplyFlow,
            ],
            VariantKind::Fluid => vec![
                EntryPoint::Init,
                EntryPoint::Update,
                EntryPoint::UpdatePressure,
            ],
        };
        v
    }

    /// The slots that the variant declares.
    pub fn slots(self) -> (v: Vec<u32>)
        ensures
            v@ == self.spec_slots(),
    {
        let v = match self {
            VariantKind::Lenia => vec![0u32],
            VariantKind::FlowLenia => vec![0u32, 1u32],
            VariantKind::Fluid => vec![0u32, 1u32, 2u32, 3u32],
        };
        v
    }

    /// The kernels of the variant, the initialising kernel first.
    pub fn kernels(self) -> (v: Vec<KernelDescriptor>)
        ensures
            views_of(v@) == self.spec_kernels(),
    {
        let entries = self.entries();
        let slots = self.slots();
        let mut v: Vec<KernelDescriptor> = Vec::new();
        let mut k: usize = 0;
        while k < entries.len()
            invariant
                k <= entries.len(),
                entries@ == self.spec_entries(),
                slots@ == self.spec_slots(),
                v@.len() == k,
                forall|m: int| 0 <= m < k ==> v@[m]@ == self.spec_kernels()[m],
            decreases entries.len() - k,
        {
            v.push(KernelDescriptor::new(entries[k], &slots));
            k += 1;
        }
        v
    }
}

/// No two buffers of a variant are bound to the same slot, and slot 0 holds
/// the colour buffer.
pub proof fn lemma_slots_unique(kind: VariantKind, width: nat, height: nat, i: int, j: int)
    requires
        0 <= i < j < kind.spec_buffers(width, height).len(),
    ensures
        kind.spec_buffers(width, height)[i].slot != kind.spec_buffers(width, height)[j].slot,
        kind.spec_buffers(width, height)[0].slot == 0,
        kind.spec_buffers(width, height)[0].format == ChannelFormat::Rgba8Unorm,
{
}

/// Two kernels of a variant never coincide: their entry points differ.
pub proof fn lemma_kernels_distinct(kind: VariantKind, i: int, j: int)
    requires
        0 <= i < j < kind.spec_kernels().len(),
    ensures
        kind.spec_kernels()[i] != kind.spec_kernels()[j],
{
}

/// Every kernel of a variant binds what the variant declares: the binding
/// layout of the built-in variants is never refused.
pub proof fn lemma_kernels_fit(kind: VariantKind, width: nat, height: nat, k: int)
    requires
        0 <= k < kind.spec_kernels().len(),
    ensures
        admits(declared_slots(kind.spec_buffers(width, height)), slots_of(
            kind.spec_kernels()[k].bindings,
        )),
{
    let declared = declared_slots(kind.spec_buffers(width, height));
    let bound = slots_of(kind.spec_kernels()[k].bindings);
    assert(bound =~= declared);
    lemma_admits_itself(declared);
}

/// Mathematical content of a [`VariantConfiguration`].
pub struct VariantView {
    pub kind: VariantKind,
    pub width: nat,
    pub height: nat,
    pub pressure_iterations: nat,
    pub buffers: Seq<GridBufferView>,
    pub machine: MachineView,
}

impl VariantView {
    /// The handles of the variant's kernels, the initialising kernel first.
    pub open spec fn kernels(self) -> Seq<KernelHandle> {
        seq![self.machine.init] + self.machine.steady
    }

    /// Current phase of the variant's state machine.
    pub open spec fn state(self) -> State {
        self.machine.state
    }

    /// Workgroups that one dispatch over the grid issues.
    pub open spec fn extent(self) -> GridExtent {
        extent_spec(self.width, self.height)
    }

    /// The handle of the kernel with the given entry point, if the kind has
    /// such a kernel.
    pub open spec fn handle_of(self, entry: EntryPoint) -> Option<KernelHandle> {
        let entries = self.kind.spec_entries();
        if exists|k: int| 0 <= k < entries.len() && entries[k] == entry {
            Some(self.kernels()[choose|k: int| 0 <= k < entries.len() && entries[k] == entry])
        } else {
            None
        }
    }

    /// Every kernel of the variant is registered with the tracker under the
    /// handle that the variant holds for it.
    pub open spec fn registered_with(self, tracker: TrackerView) -> bool {
        forall|k: int|
            0 <= k < self.kernels().len() ==> {
                let handle = #[trigger] self.kernels()[k];
                &&& handle.index < tracker.len()
                &&& tracker.descriptors[handle.index as int] == self.kind.spec_kernels()[k]
            }
    }

    /// The variant and the queue after one frame, and how the frame ended.
    ///
    /// If a kernel that the current phase waits for has failed, the frame
    /// ends with that fault and nothing changes. Otherwise the phase that the
    /// kernels allow is planned and its dispatches are offered to the queue as
    /// one batch: if the queue takes them, the variant enters that phase; if
    /// not, nothing changes and the frame ends with the queue's refusal.
    pub open spec fn step(self, tracker: TrackerView, queue: QueueView) -> (
        VariantView,
        QueueView,
        Result<(), SimulationError>,
    ) {
        match self.machine.readiness(tracker) {
            Readiness::Failed { kernel, reason } => (
                self,
                queue,
                Err(SimulationError::CompileFailure { kernel, reason }),
            ),
            _ => {
                let next = self.machine.advance(tracker);
                let (after, verdict) = queue.submit(dispatches_of(plan_spec(next.state, self)));
                if verdict is Ok {
                    (VariantView { machine: next, ..self }, after, verdict)
                } else {
                    (self, queue, verdict)
                }
            },
        }
    }

    /// The grid is tile-aligned, the buffers are those of the kind, and each
    /// kernel of the kind has a handle of its own. The numbers fit the
    /// machine types that hold them.
    pub open spec fn wf(self) -> bool {
        &&& aligned(self.width)
        &&& aligned(self.height)
        &&& self.width <= u32::MAX
        &&& self.height <= u32::MAX
        &&& self.pressure_iterations <= u32::MAX
        &&& self.buffers == self.kind.spec_buffers(self.width, self.height)
        &&& self.kernels().len() == self.kind.spec_entries().len()
        &&& forall|i: int, j: int|
            0 <= i < j < self.kernels().len() ==> self.kernels()[i] != self.kernels()[j]
    }
}

/// One simulation variant on a grid of a fixed size: its buffers, the handles
/// of its kernels, and the state machine that waits for them.
#[derive(Debug)]
pub struct VariantConfiguration {
    kind: VariantKind,
    width: u32,
    height: u32,
    pressure_iterations: u32,
    buffers: Vec<GridBuffer>,
    machine: SimulationStateMachine,
}

impl View for VariantConfiguration {
    type V = VariantView;

    closed spec fn view(&self) -> VariantView {
        VariantView {
            kind: self.kind,
            width: self.width as nat,
            height: self.height as nat,
            pressure_iterations: self.pressure_iterations as nat,
            buffers: buffer_views(self.buffers@),
            machine: self.machine@,
        }
    }
}

/// Declares the buffers of a variant, slot by slot.
fn declare_buffers(kind: VariantKind, width: u32, height: u32) -> (r: Result<
    Vec<GridBuffer>,
    ConfigurationError,
>)
    ensures
        r is Ok <==> aligned(width as nat) && aligned(height as nat),
        r matches Ok(buffers) ==> buffer_views(buffers@) == kind.spec_buffers(
            width as nat,
            height as nat,
        ),
        r matches Err(e) ==> e == (ConfigurationError::MisalignedGrid { width, height }),
{
    let formats = kind.formats();
    let slots = kind.slots();
    let mut buffers: Vec<GridBuffer> = Vec::new();
    let mut i: usize = 0;
    while i < formats.len()
        invariant
            i <= formats.len(),
            formats@ == kind.spec_formats(),
            slots@ == kind.spec_slots(),
            buffers@.len() == i,
            i > 0 ==> aligned(width as nat) && aligned(height as nat),
            forall|m: int|
                0 <= m < i ==> buffers@[m]@ == kind.spec_buffers(width as nat, height as nat)[m],
        decreases formats.len() - i,
    {
        match GridBuffer::new(width, height, formats[i], slots[i]) {
            Ok(buffer) => {
                buffers.push(buffer);
            },
            Err(e) => {
                return Err(e);
            },
        }
        i += 1;
    }
    Ok(buffers)
}

impl VariantConfiguration {
    /// Configures a variant on a grid of the given size: declares its buffers,
    /// checks the binding layout of its kernels and registers them with the
    /// tracker. Dimensions that are not positive multiples of the tile are
    /// refused, and then nothing is declared or registered.
    pub fn new(
        kind: VariantKind,
        width: u32,
        height: u32,
        tracker: &mut PipelineReadinessTracker,
    ) -> (r: Result<VariantConfiguration, ConfigurationError>)
        requires
            old(tracker)@.wf(),
        ensures
            final(tracker)@.wf(),
            r is Ok <==> aligned(width as nat) && aligned(height as nat),
            r matches Ok(v) ==> {
                &&& v@.wf()
                &&& v@.kind == kind
                &&& v@.width == width
                &&& v@.height == height
                &&& v@.pressure_iterations == PRESSURE_ITERATIONS
                &&& v@.state() == State::Loading
                &&& (final(tracker)@, v@.kernels()) == old(tracker)@.register_all(
                    kind.spec_kernels(),
                )
                &&& v@.registered_with(final(tracker)@)
            },
            r matches Err(e) ==> e == (ConfigurationError::MisalignedGrid { width, height })
                && final(tracker)@ == old(tracker)@,
    {
        let buffers = match declare_buffers(kind, width, height) {
            Ok(buffers) => buffers,
            Err(e) => {
                return Err(e);
            },
        };
        let kernels = kind.kernels();
        let mut k: usize = 0;
        while k < kernels.len()
            invariant
                k <= kernels.len(),
                views_of(kernels@) == kind.spec_kernels(),
                buffer_views(buffers@) == kind.spec_buffers(width as nat, height as nat),
            decreases kernels.len() - k,
        {
            proof {
                lemma_kernels_fit(kind, width as nat, height as nat, k as int);
            }
            match check_layout(&buffers, &kernels[k]) {
                Ok(()) => {},
                Err(e) => {
                    return Err(e);
                },
            }
            k += 1;
        }
        let mut handles = tracker.register_all(&kernels);
        proof {
            lemma_register_all_places(old(tracker)@, kind.spec_kernels());
            assert forall|i: int, j: int| 0 <= i < j < handles@.len() implies handles@[i]
                != handles@[j] by {
                lemma_kernels_distinct(kind, i, j);
            }
        }
        let init = handles.remove(0);
        let machine = SimulationStateMachine::new(init, handles);
        Ok(
            VariantConfiguration {
                kind,
                width,
                height,
                pressure_iterations: PRESSURE_ITERATIONS,
                buffers,
                machine,
            },
        )
    }

    /// Kind of simulation.
    pub fn kind(&self) -> (k: VariantKind)
        ensures
            k == self@.kind,
    {
        self.kind
    }

    /// Width of the grid in cells.
    pub fn width(&self) -> (w: u32)
        ensures
            w == self@.width,
    {
        self.width
    }

    /// Height of the grid in cells.
    pub fn height(&self) -> (h: u32)
        ensures
            h == self@.height,
    {
        self.height
    }

    /// Pressure-relaxation passes per frame. Only a fluid simulation makes
    /// them.
    pub fn pressure_iterations(&self) -> (n: u32)
        ensures
            n == self@.pressure_iterations,
    {
        self.pressure_iterations
    }

    /// Sets the number of pressure-relaxation passes per frame.
    pub fn set_pressure_iterations(&mut self, iterations: u32)
        ensures
            final(self)@ == (VariantView { pressure_iterations: iterations as nat, ..old(self)@ }),
    {
        self.pressure_iterations = iterations;
    }

    /// Current phase of the variant's state machine.
    pub fn state(&self) -> (s: State)
        ensures
            s == self@.state(),
    {
        self.machine.state()
    }

    /// Workgroups that one dispatch over the grid issues: the grid divided
    /// into tiles, exactly.
    pub fn extent(&self) -> (e: GridExtent)
        requires
            self@.wf(),
        ensures
            e == self@.extent(),
            e.groups_x * TILE == self@.width,
            e.groups_y * TILE == self@.height,
    {
        proof {
            lemma_tiles_exact(self.width as nat);
            lemma_tiles_exact(self.height as nat);
        }
        GridExtent { groups_x: tiles(self.width), groups_y: tiles(self.height) }
    }

    /// The buffers of the variant, by slot.
    pub fn buffers(&self) -> (b: &Vec<GridBuffer>)
        ensures
            buffer_views(b@) == self@.buffers,
    {
        &self.buffers
    }

    /// The buffer bound to a slot, if the variant declares the slot.
    pub fn buffer(&self, slot: u32) -> (b: Option<&GridBuffer>)
        requires
            self@.wf(),
        ensures
            b is Some <==> slot < self@.buffers.len(),
            b matches Some(buffer) ==> buffer@ == self@.buffers[slot as int] && buffer@.slot
                == slot,
    {
        if (slot as usize) < self.buffers.len() {
            let buffer = &self.buffers[slot as usize];
            Some(buffer)
        } else {
            None
        }
    }

    /// The colour buffer, bound to slot 0, which the host presents.
    pub fn display_buffer(&self) -> (b: &GridBuffer)
        requires
            self@.wf(),
        ensures
            b@ == (GridBufferView {
                width: self@.width,
                height: self@.height,
                format: ChannelFormat::Rgba8Unorm,
                slot: 0,
            }),
    {
        assert(buffer_views(self.buffers@).len() == self.kind.spec_formats().len());
        let buffer = &self.buffers[0];
        assert(buffer@ == buffer_views(self.buffers@)[0]);
        buffer
    }

    /// Runs one frame: samples the kernels that the current phase waits for,
    /// plans the phase that they allow and submits the dispatches of the plan,
    /// in order, to the queue. A frame that ends in an error leaves variant
    /// and queue as they were.
    pub fn step(&mut self, tracker: &PipelineReadinessTracker, queue: &mut SubmissionQueue) -> (r:
        Result<(), SimulationError>)
        requires
            old(self)@.wf(),
            tracker@.wf(),
            old(queue)@.wf(),
        ensures
            final(self)@.wf(),
            final(queue)@.wf(),
            (final(self)@, final(queue)@, r) == old(self)@.step(tracker@, old(queue)@),
    {
        match self.machine.readiness(tracker) {
            Readiness::Failed { kernel, reason } => {
                return Err(SimulationError::CompileFailure { kernel, reason });
            },
            _ => {},
        }
        let next = self.machine.upcoming(tracker);
        let plan = FrameSequencer::plan(next, self);
        let batch = FrameSequencer::expand(&plan);
        match queue.submit(batch) {
            Ok(()) => {
                self.machine.advance(tracker);
                Ok(())
            },
            Err(e) => Err(e),
        }
    }

    /// Reads what the kernels that the current phase waits for say.
    pub fn readiness(&self, tracker: &PipelineReadinessTracker) -> (g: Readiness)
        requires
            tracker@.wf(),
        ensures
            g == self@.machine.readiness(tracker@),
    {
        self.machine.readiness(tracker)
    }

    /// Handle of the kernel with the given entry point, if the kind has such
    /// a kernel.
    pub fn kernel(&self, entry: EntryPoint) -> (h: Option<KernelHandle>)
        requires
            self@.wf(),
        ensures
            h == self@.handle_of(entry),
    {
        let entries = self.kind.entries();
        let steady = self.machine.steady();
        let mut k: usize = 0;
        while k < entries.len()
            invariant
                k <= entries.len(),
                self@.wf(),
                entries@ == self.kind.spec_entries(),
                steady@ == self@.machine.steady,
                forall|m: int| 0 <= m < k ==> entries@[m] != entry,
            decreases entries.len() - k,
        {
            if entries[k] == entry {
                proof {
                    // No entry point stands twice in the table of a kind.
                    assert((choose|m: int| 0 <= m < entries@.len() && entries@[m] == entry) == k);
                }
                if k == 0 {
                    return Some(self.machine.init());
                } else {
                    return Some(steady[k - 1]);
                }
            }
            k += 1;
        }
        None
    }

    /// Handle of the initialising kernel.
    pub fn init_kernel(&self) -> (h: KernelHandle)
        ensures
            h == self@.machine.init,
    {
        self.machine.init()
    }

    /// Handles of the steady-state kernels, in dispatch order.
    pub fn steady_kernels(&self) -> (h: &Vec<KernelHandle>)
        ensures
            h@ == self@.machine.steady,
    {
        self.machine.steady()
    }
}

} // verus!
