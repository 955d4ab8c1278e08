use lenia_engine::grid::GridExtent;
use lenia_engine::sequencer::{Dispatch, FrameSequencer, PlanEntry};
use lenia_engine::state::State;
use lenia_engine::tracker::{KernelHandle, PipelineReadinessTracker};
use lenia_engine::variant::{VariantConfiguration, VariantKind};

fn configured(kind: VariantKind, width: u32, height: u32) -> VariantConfiguration {
    let mut tracker = PipelineReadinessTracker::new();
    VariantConfiguration::new(kind, width, height, &mut tracker).unwrap()
}

fn once(index: usize, extent: GridExtent) -> PlanEntry {
    PlanEntry { kernel: KernelHandle { index }, dispatch_count: 1, extent }
}

#[test]
fn loading_plan_is_empty() {
    for kind in [VariantKind::Lenia, VariantKind::FlowLenia, VariantKind::Fluid] {
        let variant = configured(kind, 64, 64);
        assert_eq!(FrameSequencer::plan(State::Loading, &variant), vec![]);
    }
}

#[test]
fn initialized_plan_is_one_init_dispatch_whatever_the_variant() {
    let extent = GridExtent { groups_x: 75, groups_y: 50 };
    for kind in [VariantKind::Lenia, VariantKind::FlowLenia, VariantKind::Fluid] {
        let variant = configured(kind, 600, 400);
        let plan = FrameSequencer::plan(State::Initialized, &variant);
        assert_eq!(plan, vec![once(0, extent)]);
        assert_eq!(plan[0].kernel, variant.init_kernel());
        assert_eq!(
            FrameSequencer::expand(&plan),
            vec![Dispatch { kernel: variant.init_kernel(), extent }]
        );
    }
}

#[test]
fn running_lenia_dispatches_update_once() {
    let variant = configured(VariantKind::Lenia, 64, 64);
    let extent = GridExtent { groups_x: 8, groups_y: 8 };
    assert_eq!(FrameSequencer::plan(State::Running, &variant), vec![once(1, extent)]);
}

#[test]
fn running_flow_lenia_dispatches_growth_then_flow() {
    let variant = configured(VariantKind::FlowLenia, 64, 32);
    let extent = GridExtent { groups_x: 8, groups_y: 4 };
    let plan = FrameSequencer::plan(State::Running, &variant);
    assert_eq!(plan, vec![once(1, extent), once(2, extent)]);
    let growth = variant.kernel(lenia_engine::kernel::EntryPoint::ComputeGrowth).unwrap();
    let flow = variant.kernel(lenia_engine::kernel::EntryPoint::ApplyFlow).unwrap();
    assert_eq!(
        FrameSequencer::expand(&plan),
        vec![Dispatch { kernel: growth, extent }, Dispatch { kernel: flow, extent }]
    );
}

#[test]
fn running_fluid_dispatches_update_then_pressure_a_hundred_times() {
    let variant = configured(VariantKind::Fluid, 64, 64);
    let extent = GridExtent { groups_x: 8, groups_y: 8 };
    let plan = FrameSequencer::plan(State::Running, &variant);
    assert_eq!(
        plan,
        vec![
            once(1, extent),
            PlanEntry { kernel: KernelHandle { index: 2 }, dispatch_count: 100, extent },
        ]
    );
    let update = variant.kernel(lenia_engine::kernel::EntryPoint::Update).unwrap();
    let pressure = variant.kernel(lenia_engine::kernel::EntryPoint::UpdatePressure).unwrap();
    let dispatches = FrameSequencer::expand(&plan);
    assert_eq!(dispatches.len(), 101);
    assert_eq!(dispatches[0], Dispatch { kernel: update, extent });
    for dispatch in &dispatches[1..] {
        assert_eq!(*dispatch, Dispatch { kernel: pressure, extent });
    }
}

#[test]
fn running_fluid_follows_the_configured_pressure_passes() {
    let mut variant = configured(VariantKind::Fluid, 64, 64);
    variant.set_pressure_iterations(3);
    let plan = FrameSequencer::plan(State::Running, &variant);
    assert_eq!(plan[1].dispatch_count, 3);
    assert_eq!(FrameSequencer::expand(&plan).len(), 4);
    variant.set_pressure_iterations(0);
    let plan = FrameSequencer::plan(State::Running, &variant);
    assert_eq!(plan.len(), 2);
    assert_eq!(FrameSequencer::expand(&plan).len(), 1);
}

#[test]
fn pressure_passes_do_not_touch_the_other_variants() {
    let mut variant = configured(VariantKind::Lenia, 64, 64);
    variant.set_pressure_iterations(5);
    assert_eq!(FrameSequencer::expand(&FrameSequencer::plan(State::Running, &variant)).len(), 1);
    let mut variant = configured(VariantKind::FlowLenia, 64, 64);
    variant.set_pressure_iterations(5);
    assert_eq!(FrameSequencer::expand(&FrameSequencer::plan(State::Running, &variant)).len(), 2);
}

#[test]
fn running_plan_never_names_the_init_kernel() {
    for kind in [VariantKind::Lenia, VariantKind::FlowLenia, VariantKind::Fluid] {
        let variant = configured(kind, 64, 64);
        for entry in FrameSequencer::plan(State::Running, &variant) {
            assert_ne!(entry.kernel, variant.init_kernel());
        }
    }
}

#[test]
fn expand_repeats_each_entry_and_keeps_the_order() {
    let extent = GridExtent { groups_x: 1, groups_y: 2 };
    let a = KernelHandle { index: 4 };
    let b = KernelHandle { index: 9 };
    let plan = vec![
        PlanEntry { kernel: a, dispatch_count: 2, extent },
        PlanEntry { kernel: b, dispatch_count: 0, extent },
        PlanEntry { kernel: b, dispatch_count: 1, extent },
        PlanEntry { kernel: a, dispatch_count: 1, extent },
    ];
    assert_eq!(
        FrameSequencer::expand(&plan),
        vec![
            Dispatch { kernel: a, extent },
            Dispatch { kernel: a, extent },
            Dispatch { kernel: b, extent },
            Dispatch { kernel: a, extent },
        ]
    );
    assert_eq!(FrameSequencer::expand(&vec![]), vec![]);
    assert_eq!(plan[0].dispatch(), Dispatch { kernel: a, extent });
}
