//! The frame sequencer: which kernels a frame dispatches, how often and in
//! what order.

use vstd::prelude::*;
use crate::grid::GridExtent;
use crate::state::State;
use crate::tracker::KernelHandle;
use crate::kernel::EntryPoint;
use crate::variant::{VariantConfiguration, VariantKind, VariantView, PRESSURE_ITERATIONS};

verus! {

/// One step of a frame plan: a kernel, dispatched a number of times in a row
/// over the whole grid.
#[derive(Debug, Clone, Copy, PartialEq, Eq, Structural)]
pub struct PlanEntry {
    pub kernel: KernelHandle,
    pub dispatch_count: u32,
    pub extent: GridExtent,
}

/// One submission of a kernel over the whole grid.
#[derive(Debug, Clone, Copy, PartialEq, Eq, Structural)]
pub struct Dispatch {
    pub kernel: KernelHandle,
    pub extent: GridExtent,
}

impl PlanEntry {
    /// The dispatch that the entry repeats.
    pub open spec fn spec_dispatch(self) -> Dispatch {
        Dispatch { kernel: self.kernel, extent: self.extent }
    }

    /// The dispatches that the entry stands for.
    pub open spec fn spec_dispatches(self) -> Seq<Dispatch> {
        Seq::new(self.dispatch_count as nat, |i: int| self.spec_dispatch())
    }

    /// The dispatch that the entry repeats.
    pub fn dispatch(&self) -> (d: Dispatch)
        ensures
            d == self.spec_dispatch(),
    {
        Dispatch { kernel: self.kernel, extent: self.extent }
    }
}

/// The plan of a frame that a variant runs in the given phase.
///
/// Nothing while loading; the initialising kernel, once, when initialised;
/// when running, the steady-state kernels of the kind in their fixed order,
/// each once, but for the pressure kernel of a fluid, which is repeated.
pub open spec fn plan_spec(state: State, v: VariantView) -> Seq<PlanEntry> {
    let extent = v.extent();
    match state {
        State::Loading => Seq::empty(),
        State::Initialized => seq![PlanEntry { kernel: v.machine.init, dispatch_count: 1, extent }],
        State::Running => match v.kind {
            VariantKind::Lenia => seq![
                PlanEntry { kernel: v.machine.steady[0], dispatch_count: 1, extent },
            ],
            VariantKind::FlowLenia => seq![
                PlanEntry { kernel: v.machine.steady[0], dispatch_count: 1, extent },
                PlanEntry { kernel: v.machine.steady[1], dispatch_count: 1, extent },
            ],
            VariantKind::Fluid => seq![
                PlanEntry { kernel: v.machine.steady[0], dispatch_count: 1, extent },
                PlanEntry {
                    kernel: v.machine.steady[1],
                    dispatch_count: v.pressure_iterations as u32,
                    extent,
                },
            ],
        },
    }
}

/// The dispatches of a plan, one after the other: each entry gives its
/// dispatch as often as it says, and the entries keep their order.
pub open spec fn dispatches_of(plan: Seq<PlanEntry>) -> Seq<Dispatch>
    decreases plan.len(),
{
    if plan.len() == 0 {
        Seq::empty()
    } else {
        dispatches_of(plan.drop_last()) + plan.last().spec_dispatches()
    }
}

/// Number of dispatches that a plan stands for.
pub open spec fn total_dispatches(plan: Seq<PlanEntry>) -> nat
    decreases plan.len(),
{
    if plan.len() == 0 {
        0
    } else {
        total_dispatches(plan.drop_last()) + plan.last().dispatch_count as nat
    }
}

/// A plan stands for as many dispatches as its entries count together.
pub proof fn lemma_dispatches_len(plan: Seq<PlanEntry>)
    ensures
        dispatches_of(plan).len() == total_dispatches(plan),
    decreases plan.len(),
{
    if plan.len() > 0 {
        lemma_dispatches_len(plan.drop_last());
    }
}

/// A plan of one entry stands for the dispatches of that entry.
pub proof fn lemma_dispatches_single(entry: PlanEntry)
    ensures
        dispatches_of(seq![entry]) == entry.spec_dispatches(),
{
    let plan = seq![entry];
    assert(dispatches_of(plan.drop_last()) =~= Seq::<Dispatch>::empty());
}

/// A plan of two entries stands for the dispatches of the first, then those
/// of the second.
pub proof fn lemma_dispatches_pair(first: PlanEntry, second: PlanEntry)
    ensures
        dispatches_of(seq![first, second]) == first.spec_dispatches() + second.spec_dispatches(),
{
    let plan = seq![first, second];
    assert(plan.drop_last() =~= seq![first]);
    lemma_dispatches_single(first);
}

/// While a simulation loads, a frame dispatches nothing.
pub proof fn lemma_loading_plan(v: VariantView)
    ensures
        dispatches_of(plan_spec(State::Loading, v)) == Seq::<Dispatch>::empty(),
{
}

/// Whatever the variant, the frame of an initialised simulation is exactly
/// one dispatch, that of the initialising kernel over the whole grid.
pub proof fn lemma_initialized_plan(v: VariantView)
    ensures
        plan_spec(State::Initialized, v).len() == 1,
        plan_spec(State::Initialized, v)[0] == (PlanEntry {
            kernel: v.machine.init,
            dispatch_count: 1,
            extent: v.extent(),
        }),
        dispatches_of(plan_spec(State::Initialized, v)) == seq![
            Dispatch { kernel: v.machine.init, extent: v.extent() },
        ],
{
    let entry = PlanEntry { kernel: v.machine.init, dispatch_count: 1, extent: v.extent() };
    lemma_dispatches_single(entry);
    assert(entry.spec_dispatches() =~= seq![
        Dispatch { kernel: v.machine.init, extent: v.extent() },
    ]);
}

/// The frame of a running Lenia simulation is exactly one dispatch, that of
/// the update kernel.
pub proof fn lemma_lenia_plan(v: VariantView)
    requires
        v.kind == VariantKind::Lenia,
    ensures
        dispatches_of(plan_spec(State::Running, v)) == seq![
            Dispatch { kernel: v.machine.steady[0], extent: v.extent() },
        ],
        v.handle_of(EntryPoint::Update) == Some(v.kernels()[1]),
{
    let entry = PlanEntry { kernel: v.machine.steady[0], dispatch_count: 1, extent: v.extent() };
    lemma_dispatches_single(entry);
    assert(entry.spec_dispatches() =~= seq![
        Dispatch { kernel: v.machine.steady[0], extent: v.extent() },
    ]);
    lemma_handle_of(v, 1);
}

/// The frame of a running Flow-Lenia simulation is exactly two dispatches:
/// first the growth kernel, then the flow kernel.
pub proof fn lemma_flow_lenia_plan(v: VariantView)
    requires
        v.kind == VariantKind::FlowLenia,
    ensures
        dispatches_of(plan_spec(State::Running, v)) == seq![
            Dispatch { kernel: v.machine.steady[0], extent: v.extent() },
            Dispatch { kernel: v.machine.steady[1], extent: v.extent() },
        ],
        v.handle_of(EntryPoint::ComputeGrowth) == Some(v.kernels()[1]),
        v.handle_of(EntryPoint::ApplyFlow) == Some(v.kernels()[2]),
{
    let first = PlanEntry { kernel: v.machine.steady[0], dispatch_count: 1, extent: v.extent() };
    let second = PlanEntry { kernel: v.machine.steady[1], dispatch_count: 1, extent: v.extent() };
    lemma_dispatches_pair(first, second);
    assert(first.spec_dispatches() + second.spec_dispatches() =~= seq![
        Dispatch { kernel: v.machine.steady[0], extent: v.extent() },
        Dispatch { kernel: v.machine.steady[1], extent: v.extent() },
    ]);
    lemma_handle_of(v, 1);
    lemma_handle_of(v, 2);
}

/// The frame of a running fluid simulation is one dispatch of the update
/// kernel followed by as many dispatches of the pressure kernel as the
/// configuration asks for: 101 dispatches in all with the default of 100
/// passes.
pub proof fn lemma_fluid_plan(v: VariantView)
    requires
        v.kind == VariantKind::Fluid,
        v.pressure_iterations <= u32::MAX,
    ensures
        dispatches_of(plan_spec(State::Running, v)).len() == 1 + v.pressure_iterations,
        v.pressure_iterations == PRESSURE_ITERATIONS ==> dispatches_of(
            plan_spec(State::Running, v),
        ).len() == 101,
        dispatches_of(plan_spec(State::Running, v))[0] == (Dispatch {
            kernel: v.machine.steady[0],
            extent: v.extent(),
        }),
        forall|k: int|
            1 <= k <= v.pressure_iterations ==> dispatches_of(plan_spec(State::Running, v))[k]
                == (Dispatch { kernel: v.machine.steady[1], extent: v.extent() }),
        v.handle_of(EntryPoint::Update) == Some(v.kernels()[1]),
        v.handle_of(EntryPoint::UpdatePressure) == Some(v.kernels()[2]),
{
    let first = PlanEntry { kernel: v.machine.steady[0], dispatch_count: 1, extent: v.extent() };
    let second = PlanEntry {
        kernel: v.machine.steady[1],
        dispatch_count: v.pressure_iterations as u32,
        extent: v.extent(),
    };
    lemma_dispatches_pair(first, second);
    lemma_handle_of(v, 1);
    lemma_handle_of(v, 2);
}

/// The handle that stands at a place among a variant's kernels is the handle
/// of the entry point that stands at that place in the table of its kind.
pub proof fn lemma_handle_of(v: VariantView, k: int)
    requires
        0 <= k < v.kind.spec_entries().len(),
    ensures
        v.handle_of(v.kind.spec_entries()[k]) == Some(v.kernels()[k]),
{
    // No entry point stands twice in the table of a kind.
    let entries = v.kind.spec_entries();
    assert((choose|m: int| 0 <= m < entries.len() && entries[m] == entries[k]) == k);
}

/// The frame of a running simulation never dispatches the initialising
/// kernel.
pub proof fn lemma_running_plan_skips_init(v: VariantView, k: int)
    requires
        v.wf(),
        0 <= k < dispatches_of(plan_spec(State::Running, v)).len(),
    ensures
        dispatches_of(plan_spec(State::Running, v))[k].kernel != v.machine.init,
{
    assert(v.kernels()[0] == v.machine.init);
    match v.kind {
        VariantKind::Lenia => {
            lemma_lenia_plan(v);
        },
        VariantKind::FlowLenia => {
            lemma_flow_lenia_plan(v);
        },
        VariantKind::Fluid => {
            lemma_fluid_plan(v);
        },
    }
}

/// Resolves a phase into the kernels to dispatch.
pub struct FrameSequencer;

impl FrameSequencer {
    /// The plan of a frame that the variant runs in the given phase.
    pub fn plan(state: State, variant: &VariantConfiguration) -> (plan: Vec<PlanEntry>)
        requires
            variant@.wf(),
        ensures
            plan@ == plan_spec(state, variant@),
    {
        let extent = variant.extent();
        match state {
            State::Loading => Vec::new(),
            State::Initialized => vec![
                PlanEntry { kernel: variant.init_kernel(), dispatch_count: 1, extent },
            ],
            State::Running => {
                let steady = variant.steady_kernels();
                match variant.kind() {
                    VariantKind::Lenia => vec![
                        PlanEntry { kernel: steady[0], dispatch_count: 1, extent },
                    ],
                    VariantKind::FlowLenia => vec![
                        PlanEntry { kernel: steady[0], dispatch_count: 1, extent },
                        PlanEntry { kernel: steady[1], dispatch_count: 1, extent },
                    ],
                    VariantKind::Fluid => vec![
                        PlanEntry { kernel: steady[0], dispatch_count: 1, extent },
                        PlanEntry {
                            kernel: steady[1],
                            dispatch_count: variant.pressure_iterations(),
                            extent,
                        },
                    ],
                }
            },
        }
    }

    /// Writes a plan out as the dispatches it stands for, in order.
    pub fn expand(plan: &Vec<PlanEntry>) -> (dispatches: Vec<Dispatch>)
        ensures
            dispatches@ == dispatches_of(plan@),
    {
        let mut dispatches: Vec<Dispatch> = Vec::new();
        let mut i: usize = 0;
        while i < plan.len()
            invariant
                i <= plan.len(),
                dispatches@ == dispatches_of(plan@.take(i as int)),
            decreases plan.len() - i,
        {
            let entry = plan[i];
            let dispatch = entry.dispatch();
            let ghost before = dispatches@;
            let mut n: u32 = 0;
            while n < entry.dispatch_count
                invariant
                    n <= entry.dispatch_count,
                    dispatch == entry.spec_dispatch(),
                    dispatches@ == before + Seq::new(n as nat, |k: int| dispatch),
                decreases entry.dispatch_count - n,
            {
                dispatches.push(dispatch);
                n += 1;
            }
            proof {
                let grown = plan@.take(i as int + 1);
                assert(grown.drop_last() =~= plan@.take(i as int));
            }
            i += 1;
        }
        assert(plan@.take(i as int) =~= plan@);
        dispatches
    }
}

} // verus!
