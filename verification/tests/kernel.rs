use lenia_engine::error::ConfigurationError;
use lenia_engine::grid::{ChannelFormat, GridBuffer};
use lenia_engine::kernel::{AccessMode, Binding, EntryPoint, KernelDescriptor};
use lenia_engine::layout::check_layout;

fn buffers(slots: &[u32]) -> Vec<GridBuffer> {
    slots
        .iter()
        .map(|&slot| GridBuffer::new(64, 64, ChannelFormat::R32Float, slot).unwrap())
        .collect()
}

#[test]
fn entry_points_are_named_as_the_kernel_sources_name_them() {
    assert_eq!(EntryPoint::Init.name(), "init");
    assert_eq!(EntryPoint::Update.name(), "update");
    assert_eq!(EntryPoint::ComputeGrowth.name(), "compute_growth");
    assert_eq!(EntryPoint::ApplyFlow.name(), "apply_flow");
    assert_eq!(EntryPoint::UpdatePressure.name(), "update_pressure");
}

#[test]
fn descriptor_binds_its_slots_in_order_for_reading_and_writing() {
    let d = KernelDescriptor::new(EntryPoint::Update, &vec![0, 2, 3]);
    assert_eq!(d.entry(), EntryPoint::Update);
    assert_eq!(
        d.bindings(),
        &vec![
            Binding { slot: 0, access: AccessMode::ReadWrite },
            Binding { slot: 2, access: AccessMode::ReadWrite },
            Binding { slot: 3, access: AccessMode::ReadWrite },
        ]
    );
    assert_eq!(d.tile(), (8, 8));
}

#[test]
fn descriptors_are_the_same_when_entry_and_bindings_agree() {
    let a = KernelDescriptor::new(EntryPoint::Update, &vec![0, 1]);
    assert!(a.same(&KernelDescriptor::new(EntryPoint::Update, &vec![0, 1])));
    assert!(!a.same(&KernelDescriptor::new(EntryPoint::Init, &vec![0, 1])));
    assert!(!a.same(&KernelDescriptor::new(EntryPoint::Update, &vec![1, 0])));
    assert!(!a.same(&KernelDescriptor::new(EntryPoint::Update, &vec![0])));
    assert!(!a.same(&KernelDescriptor::new(EntryPoint::Update, &vec![0, 1, 2])));
    assert!(a.same(&a.duplicate()));
    assert_eq!(a.duplicate(), a);
}

#[test]
fn layout_admits_all_slots_in_order() {
    let declared = buffers(&[0, 1, 2, 3]);
    let kernel = KernelDescriptor::new(EntryPoint::Update, &vec![0, 1, 2, 3]);
    assert_eq!(check_layout(&declared, &kernel), Ok(()));
}

#[test]
fn layout_admits_a_subset_in_order() {
    let declared = buffers(&[0, 1, 2, 3]);
    for slots in [vec![1, 3], vec![3], vec![0, 1, 3], vec![]] {
        let kernel = KernelDescriptor::new(EntryPoint::Update, &slots);
        assert_eq!(check_layout(&declared, &kernel), Ok(()));
    }
}

#[test]
fn layout_admits_slots_that_are_not_counted_from_zero() {
    let declared = buffers(&[7, 2, 9]);
    let kernel = KernelDescriptor::new(EntryPoint::Update, &vec![7, 9]);
    assert_eq!(check_layout(&declared, &kernel), Ok(()));
    assert_eq!(
        check_layout(&declared, &KernelDescriptor::new(EntryPoint::Update, &vec![2, 7])),
        Err(ConfigurationError::BindingLayoutMismatch { position: 1, slot: 7 })
    );
}

#[test]
fn layout_refuses_an_undeclared_slot() {
    let declared = buffers(&[0, 1]);
    let kernel = KernelDescriptor::new(EntryPoint::Update, &vec![0, 4]);
    assert_eq!(
        check_layout(&declared, &kernel),
        Err(ConfigurationError::BindingLayoutMismatch { position: 1, slot: 4 })
    );
}

#[test]
fn layout_refuses_slots_out_of_order() {
    let declared = buffers(&[0, 1, 2, 3]);
    let kernel = KernelDescriptor::new(EntryPoint::Update, &vec![2, 1]);
    assert_eq!(
        check_layout(&declared, &kernel),
        Err(ConfigurationError::BindingLayoutMismatch { position: 1, slot: 1 })
    );
}

#[test]
fn layout_refuses_a_slot_bound_twice() {
    let declared = buffers(&[0, 1]);
    let kernel = KernelDescriptor::new(EntryPoint::Update, &vec![0, 0, 1]);
    assert_eq!(
        check_layout(&declared, &kernel),
        Err(ConfigurationError::BindingLayoutMismatch { position: 1, slot: 0 })
    );
}

#[test]
fn layout_refuses_any_binding_when_nothing_is_declared() {
    let declared = buffers(&[]);
    let kernel = KernelDescriptor::new(EntryPoint::Init, &vec![0]);
    assert_eq!(
        check_layout(&declared, &kernel),
        Err(ConfigurationError::BindingLayoutMismatch { position: 0, slot: 0 })
    );
}
