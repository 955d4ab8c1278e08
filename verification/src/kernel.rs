//! Kernel descriptors: which entry point a compute stage runs and which
//! buffer slots it binds.

use vstd::prelude::*;
use crate::grid::TILE;

verus! {

/// Entry point of a compute kernel, as the kernel sources name it.
#[derive(Debug, Clone, Copy, PartialEq, Eq, Hash, Structural)]
pub enum EntryPoint {
    Init,
    Update,
    ComputeGrowth,
    ApplyFlow,
    UpdatePressure,
}

impl EntryPoint {
    /// The name under which the kernel sources export this entry point.
    pub open spec fn spec_name(self) -> Seq<char> {
        match self {
            EntryPoint::Init => "init"@,
            EntryPoint::Update => "update"@,
            EntryPoint::ComputeGrowth => "compute_growth"@,
            EntryPoint::ApplyFlow => "apply_flow"@,
            EntryPoint::UpdatePressure => "update_pressure"@,
        }
    }

    /// The name under which the kernel sources export this entry point.
    pub fn name(self) -> (s: &'static str)
        ensures
            s@ == self.spec_name(),
    {
        match self {
            EntryPoint::Init => "init",
            EntryPoint::Update => "update",
            EntryPoint::ComputeGrowth => "compute_growth",
            EntryPoint::ApplyFlow => "apply_flow",
            EntryPoint::UpdatePressure => "update_pressure",
        }
    }

    /// Two different entry points never share a name.
    pub proof fn lemma_names_distinct(a: EntryPoint, b: EntryPoint)
        requires
            a != b,
        ensures
            a.spec_name() != b.spec_name(),
    {
        reveal_strlit("init");
        reveal_strlit("update");
        reveal_strlit("compute_growth");
        reveal_strlit("apply_flow");
        reveal_strlit("update_pressure");
        assert(a.spec_name().len() != b.spec_name().len());
    }
}

/// How a kernel accesses a bound buffer. Every kernel reads and writes every
/// buffer that it binds.
#[derive(Debug, Clone, Copy, PartialEq, Eq, Hash, Structural)]
pub enum AccessMode {
    ReadWrite,
}

/// One buffer binding of a kernel.
#[derive(Debug, Clone, Copy, PartialEq, Eq, Hash, Structural)]
pub struct Binding {
    pub slot: u32,
    pub access: AccessMode,
}

/// Mathematical content of a [`KernelDescriptor`].
pub struct KernelDescriptorView {
    pub entry: EntryPoint,
    pub bindings: Seq<Binding>,
}

/// The bindings that a kernel declares when it binds the given slots in order.
pub open spec fn bindings_of(slots: Seq<u32>) -> Seq<Binding> {
    Seq::new(slots.len(), |i: int| Binding { slot: slots[i], access: AccessMode::ReadWrite })
}

/// The slots of a list of bindings, in order.
pub open spec fn slots_of(bindings: Seq<Binding>) -> Seq<nat> {
    Seq::new(bindings.len(), |i: int| bindings[i].slot as nat)
}

/// One named compute stage and the buffers it binds, in binding order.
#[derive(Debug, PartialEq, Eq)]
pub struct KernelDescriptor {
    entry: EntryPoint,
    bindings: Vec<Binding>,
}

impl View for KernelDescriptor {
    type V = KernelDescriptorView;

    closed spec fn view(&self) -> KernelDescriptorView {
        KernelDescriptorView { entry: self.entry, bindings: self.bindings@ }
    }
}

impl KernelDescriptor {
    /// A kernel that binds the given slots, in that order, each for reading
    /// and writing.
    pub fn new(entry: EntryPoint, slots: &Vec<u32>) -> (d: KernelDescriptor)
        ensures
            d@ == (KernelDescriptorView { entry, bindings: bindings_of(slots@) }),
    {
        let mut bindings: Vec<Binding> = Vec::new();
        let mut i: usize = 0;
        while i < slots.len()
            invariant
                i <= slots.len(),
                bindings@.len() == i,
                forall|k: int|
                    0 <= k < i ==> bindings@[k] == (Binding {
                        slot: slots@[k],
                        access: AccessMode::ReadWrite,
                    }),
            decreases slots.len() - i,
        {
            bindings.push(Binding { slot: slots[i], access: AccessMode::ReadWrite });
            i += 1;
        }
        assert(bindings@ =~= bindings_of(slots@));
        KernelDescriptor { entry, bindings }
    }

    /// Entry point that the kernel runs.
    pub fn entry(&self) -> (e: EntryPoint)
        ensures
            e == self@.entry,
    {
        self.entry
    }

    /// The buffers that the kernel binds, in binding order.
    pub fn bindings(&self) -> (b: &Vec<Binding>)
        ensures
            b@ == self@.bindings,
    {
        &self.bindings
    }

    /// Workgroup tile of the kernel, the same along both axes for every kernel.
    pub fn tile(&self) -> (t: (u32, u32))
        ensures
            t == (TILE, TILE),
    {
        (TILE, TILE)
    }

    /// Whether two descriptors describe the same kernel: the same entry point
    /// and the same bindings in the same order.
    pub fn same(&self, other: &KernelDescriptor) -> (eq: bool)
        ensures
            eq == (self@ == other@),
    {
        if self.entry != other.entry {
            return false;
        }
        if self.bindings.len() != other.bindings.len() {
            return false;
        }
        let mut i: usize = 0;
        while i < self.bindings.len()
            invariant
                i <= self.bindings.len(),
                self.bindings.len() == other.bindings.len(),
                forall|k: int| 0 <= k < i ==> self.bindings@[k] == other.bindings@[k],
            decreases self.bindings.len() - i,
        {
            if self.bindings[i] != other.bindings[i] {
                return false;
            }
            i += 1;
        }
        assert(self.bindings@ =~= other.bindings@);
        true
    }

    /// A copy of the descriptor.
    pub fn duplicate(&self) -> (d: KernelDescriptor)
        ensures
            d@ == self@,
    {
        let mut bindings: Vec<Binding> = Vec::new();
        let mut i: usize = 0;
        while i < self.bindings.len()
            invariant
                i <= self.bindings.len(),
                bindings@ == self.bindings@.take(i as int),
            decreases self.bindings.len() - i,
        {
            bindings.push(self.bindings[i]);
            assert(self.bindings@.take(i as int).push(self.bindings@[i as int])
                =~= self.bindings@.take(i + 1));
            i += 1;
        }
        assert(self.bindings@.take(i as int) =~= self.bindings@);
        KernelDescriptor { entry: self.entry, bindings }
    }
}

} // verus!
