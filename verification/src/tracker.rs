//! Compile-readiness bookkeeping for registered kernels.

use vstd::prelude::*;
use crate::kernel::{KernelDescriptor, KernelDescriptorView};

verus! {

/// Compile status of one registered kernel.
#[derive(Debug, PartialEq, Eq)]
pub enum KernelStatus {
    /// Queued or compiling; not usable yet.
    Pending,
    /// Compiled; may be dispatched.
    Ready,
    /// The build failed, for the reason given. Final for that kernel.
    Failed(String),
}

impl KernelStatus {
    /// Whether the kernel is compiled.
    pub fn is_ready(&self) -> (b: bool)
        ensures
            b == (self is Ready),
    {
        match self {
            KernelStatus::Ready => true,
            _ => false,
        }
    }

    /// Whether the build of the kernel failed.
    pub fn is_failed(&self) -> (b: bool)
        ensures
            b == (self is Failed),
    {
        match self {
            KernelStatus::Failed(_) => true,
            _ => false,
        }
    }

    /// A copy of the status.
    pub fn duplicate(&self) -> (s: KernelStatus)
        ensures
            s == *self,
    {
        match self {
            KernelStatus::Pending => KernelStatus::Pending,
            KernelStatus::Ready => KernelStatus::Ready,
            KernelStatus::Failed(reason) => KernelStatus::Failed(reason.clone()),
        }
    }
}

/// Names a kernel registered with a tracker.
#[derive(Debug, Clone, Copy, PartialEq, Eq, Hash, Structural)]
pub struct KernelHandle {
    pub index: usize,
}

/// Mathematical content of a tracker: the registered kernels in registration
/// order, each with its status.
pub struct TrackerView {
    pub descriptors: Seq<KernelDescriptorView>,
    pub statuses: Seq<KernelStatus>,
}

impl TrackerView {
    /// Every kernel has a status, and no kernel is registered twice.
    pub open spec fn wf(self) -> bool {
        &&& self.descriptors.len() == self.statuses.len()
        &&& forall|i: int, j: int|
            0 <= i < j < self.descriptors.len() ==> self.descriptors[i] != self.descriptors[j]
    }

    /// Number of registered kernels.
    pub open spec fn len(self) -> nat {
        self.descriptors.len()
    }

    /// Whether the kernel is registered.
    pub open spec fn knows(self, descriptor: KernelDescriptorView) -> bool {
        exists|i: int| 0 <= i < self.descriptors.len() && self.descriptors[i] == descriptor
    }

    /// Where a registered kernel stands.
    pub open spec fn position(self, descriptor: KernelDescriptorView) -> int {
        choose|i: int| 0 <= i < self.descriptors.len() && self.descriptors[i] == descriptor
    }

    /// The tracker and the handle that registering a kernel gives: a known
    /// kernel keeps its place, a new one is appended as pending.
    pub open spec fn register(self, descriptor: KernelDescriptorView) -> (
        TrackerView,
        KernelHandle,
    ) {
        if self.knows(descriptor) {
            (self, KernelHandle { index: self.position(descriptor) as usize })
        } else {
            (
                TrackerView {
                    descriptors: self.descriptors.push(descriptor),
                    statuses: self.statuses.push(KernelStatus::Pending),
                },
                KernelHandle { index: self.descriptors.len() as usize },
            )
        }
    }

    /// The tracker and the handles that registering a list of kernels, one
    /// after the other, gives.
    pub open spec fn register_all(self, descriptors: Seq<KernelDescriptorView>) -> (
        TrackerView,
        Seq<KernelHandle>,
    )
        decreases descriptors.len(),
    {
        if descriptors.len() == 0 {
            (self, Seq::empty())
        } else {
            let (before, handles) = self.register_all(descriptors.drop_last());
            let (after, handle) = before.register(descriptors.last());
            (after, handles.push(handle))
        }
    }

    /// The status under a handle index, if the index names a kernel.
    pub open spec fn status(self, index: int) -> Option<KernelStatus> {
        if 0 <= index < self.statuses.len() {
            Some(self.statuses[index])
        } else {
            None
        }
    }

    /// The tracker after the host reported a status. A failed kernel stays
    /// failed; a report for an unknown kernel changes nothing.
    pub open spec fn report(self, index: int, status: KernelStatus) -> TrackerView {
        if 0 <= index < self.statuses.len() && !(self.statuses[index] is Failed) {
            TrackerView { statuses: self.statuses.update(index, status), ..self }
        } else {
            self
        }
    }
}

/// The mathematical content of each descriptor of a list.
pub open spec fn views_of(descriptors: Seq<KernelDescriptor>) -> Seq<KernelDescriptorView> {
    Seq::new(descriptors.len(), |i: int| descriptors[i]@)
}

/// Registry of kernels and of the compile status that the host last reported
/// for each.
#[derive(Debug)]
pub struct PipelineReadinessTracker {
    descriptors: Vec<KernelDescriptor>,
    statuses: Vec<KernelStatus>,
}

impl View for PipelineReadinessTracker {
    type V = TrackerView;

    closed spec fn view(&self) -> TrackerView {
        TrackerView {
            descriptors: views_of(self.descriptors@),
            statuses: self.statuses@,
        }
    }
}

impl PipelineReadinessTracker {
    /// A tracker with no kernel registered.
    pub fn new() -> (t: PipelineReadinessTracker)
        ensures
            t@.len() == 0,
            t@.wf(),
    {
        PipelineReadinessTracker { descriptors: Vec::new(), statuses: Vec::new() }
    }

    /// Number of registered kernels.
    pub fn len(&self) -> (n: usize)
        ensures
            n == self@.len(),
    {
        self.descriptors.len()
    }

    /// The handle under which a kernel is registered, if it is.
    pub fn find(&self, descriptor: &KernelDescriptor) -> (h: Option<KernelHandle>)
        requires
            self@.wf(),
        ensures
            h is Some <==> self@.knows(descriptor@),
            h matches Some(handle) ==> handle.index == self@.position(descriptor@),
    {
        let mut i: usize = 0;
        while i < self.descriptors.len()
            invariant
                i <= self.descriptors.len(),
                self@.wf(),
                self@.descriptors.len() == self.descriptors@.len(),
                forall|k: int| 0 <= k < i ==> self@.descriptors[k] != descriptor@,
            decreases self.descriptors.len() - i,
        {
            if self.descriptors[i].same(descriptor) {
                proof {
                    // No kernel is registered twice: this is its only place.
                    assert(self@.descriptors[i as int] == descriptor@);
                    assert(self@.position(descriptor@) == i);
                }
                return Some(KernelHandle { index: i });
            }
            i += 1;
        }
        None
    }

    /// Registers a kernel and returns its handle. A kernel that is already
    /// registered keeps its handle and its status.
    pub fn register(&mut self, descriptor: KernelDescriptor) -> (h: KernelHandle)
        requires
            old(self)@.wf(),
        ensures
            final(self)@.wf(),
            (final(self)@, h) == old(self)@.register(descriptor@),
    {
        match self.find(&descriptor) {
            Some(handle) => handle,
            None => {
                let index = self.descriptors.len();
                self.descriptors.push(descriptor);
                self.statuses.push(KernelStatus::Pending);
                assert(self@.descriptors =~= old(self)@.descriptors.push(descriptor@));
                KernelHandle { index }
            },
        }
    }

    /// Registers the kernels in order and returns their handles in the same
    /// order.
    pub fn register_all(&mut self, descriptors: &Vec<KernelDescriptor>) -> (handles: Vec<
        KernelHandle,
    >)
        requires
            old(self)@.wf(),
        ensures
            final(self)@.wf(),
            final(self)@.len() <= usize::MAX,
            (final(self)@, handles@) == old(self)@.register_all(views_of(descriptors@)),
    {
        let ghost all = views_of(descriptors@);
        let mut handles: Vec<KernelHandle> = Vec::new();
        let mut i: usize = 0;
        while i < descriptors.len()
            invariant
                i <= descriptors.len(),
                all == views_of(descriptors@),
                self@.wf(),
                (self@, handles@) == old(self)@.register_all(all.take(i as int)),
            decreases descriptors.len() - i,
        {
            let handle = self.register(descriptors[i].duplicate());
            handles.push(handle);
            proof {
                let grown = all.take(i as int + 1);
                assert(grown.drop_last() =~= all.take(i as int));
            }
            i += 1;
        }
        assert(all.take(i as int) =~= all);
        // A vector is never longer than a machine word can count.
        let registered: usize = self.descriptors.len();
        assert(self@.len() == registered);
        handles
    }

    /// The status that the host last reported for a kernel; `None` for a
    /// handle that names no kernel of this tracker.
    pub fn status(&self, handle: KernelHandle) -> (s: Option<&KernelStatus>)
        requires
            self@.wf(),
        ensures
            s.is_some() == self@.status(handle.index as int).is_some(),
            s matches Some(status) ==> self@.status(handle.index as int) == Some(*status),
    {
        if handle.index < self.statuses.len() {
            Some(&self.statuses[handle.index])
        } else {
            None
        }
    }

    /// The kernel that a handle names, if any.
    pub fn descriptor(&self, handle: KernelHandle) -> (d: Option<&KernelDescriptor>)
        requires
            self@.wf(),
        ensures
            d.is_some() == (handle.index < self@.len()),
            d matches Some(descriptor) ==> descriptor@ == self@.descriptors[handle.index as int],
    {
        if handle.index < self.descriptors.len() {
            Some(&self.descriptors[handle.index])
        } else {
            None
        }
    }

    /// Whether the kernel under the handle is compiled and may be dispatched.
    pub fn is_ready(&self, handle: KernelHandle) -> (b: bool)
        requires
            self@.wf(),
        ensures
            b == (self@.status(handle.index as int) == Some(KernelStatus::Ready)),
    {
        handle.index < self.statuses.len() && self.statuses[handle.index].is_ready()
    }

    /// Records the status that the host found for a kernel. Returns whether
    /// the report was taken: one for a failed kernel or for an unknown handle
    /// is not.
    pub fn report(&mut self, handle: KernelHandle, status: KernelStatus) -> (taken: bool)
        requires
            old(self)@.wf(),
        ensures
            final(self)@.wf(),
            final(self)@ == old(self)@.report(handle.index as int, status),
            taken == (handle.index < old(self)@.len() && !(old(self)@.statuses[handle.index as int]
                is Failed)),
    {
        if handle.index < self.statuses.len() && !self.statuses[handle.index].is_failed() {
            self.statuses.set(handle.index, status);
            true
        } else {
            false
        }
    }
}

/// Registering a kernel a second time gives the first handle again and
/// changes nothing.
pub proof fn lemma_register_idempotent(tracker: TrackerView, descriptor: KernelDescriptorView)
    requires
        tracker.wf(),
    ensures
        tracker.register(descriptor).0.wf(),
        tracker.register(descriptor).0.register(descriptor) == tracker.register(descriptor),
{
    if !tracker.knows(descriptor) {
        let once = tracker.register(descriptor).0;
        let index = tracker.descriptors.len() as int;
        assert(once.descriptors[index] == descriptor);
        assert(once.position(descriptor) == index);
    }
}

/// Registering a kernel leaves every kernel that was registered before under
/// its handle and with its status.
pub proof fn lemma_register_keeps(
    tracker: TrackerView,
    descriptor: KernelDescriptorView,
    index: int,
)
    requires
        tracker.wf(),
        0 <= index < tracker.len(),
    ensures
        tracker.register(descriptor).0.descriptors[index] == tracker.descriptors[index],
        tracker.register(descriptor).0.statuses[index] == tracker.statuses[index],
{
}

/// Registering kernels never removes one: the tracker grows by at most the
/// number of kernels registered, and stays well formed.
pub proof fn lemma_register_all_grows(tracker: TrackerView, descriptors: Seq<KernelDescriptorView>)
    requires
        tracker.wf(),
    ensures
        tracker.register_all(descriptors).0.wf(),
        tracker.register_all(descriptors).1.len() == descriptors.len(),
        tracker.len() <= tracker.register_all(descriptors).0.len() <= tracker.len()
            + descriptors.len(),
    decreases descriptors.len(),
{
    if descriptors.len() > 0 {
        lemma_register_all_grows(tracker, descriptors.drop_last());
        let before = tracker.register_all(descriptors.drop_last()).0;
        lemma_register_idempotent(before, descriptors.last());
    }
}

/// After a list of kernels is registered, each of them stands under the
/// handle it was given, and every kernel that was registered before stands
/// where it stood, with its status. The kernels that are new are pending.
pub proof fn lemma_register_all_places(tracker: TrackerView, descriptors: Seq<KernelDescriptorView>)
    requires
        tracker.wf(),
        tracker.register_all(descriptors).0.len() <= usize::MAX,
    ensures
        ({
            let (after, handles) = tracker.register_all(descriptors);
            &&& after.wf()
            &&& handles.len() == descriptors.len()
            &&& tracker.len() <= after.len() <= tracker.len() + descriptors.len()
            &&& forall|k: int|
                0 <= k < descriptors.len() ==> 0 <= (#[trigger] handles[k]).index < after.len()
                    && after.descriptors[handles[k].index as int] == descriptors[k]
            &&& forall|i: int|
                0 <= i < tracker.len() ==> after.descriptors[i] == tracker.descriptors[i]
                    && after.statuses[i] == tracker.statuses[i]
            &&& forall|i: int|
                tracker.len() <= i < after.len() ==> after.statuses[i] == KernelStatus::Pending
        }),
    decreases descriptors.len(),
{
    lemma_register_all_grows(tracker, descriptors);
    if descriptors.len() > 0 {
        lemma_register_all_grows(tracker, descriptors.drop_last());
        let (before, front) = tracker.register_all(descriptors.drop_last());
        let (after, handle) = before.register(descriptors.last());
        lemma_register_all_places(tracker, descriptors.drop_last());
        assert(before.knows(descriptors.last()) ==> before.descriptors[before.position(
            descriptors.last(),
        )] == descriptors.last());
    }
}

/// The status of `count` kernels that were just registered.
pub open spec fn all_pending(count: nat) -> Seq<KernelStatus> {
    Seq::new(count, |i: int| KernelStatus::Pending)
}

/// Kernels that differ from one another and of which the tracker knows none
/// are appended in the order given, each as pending, and get the handles that
/// follow the last one in use.
pub proof fn lemma_register_all_fresh(tracker: TrackerView, descriptors: Seq<KernelDescriptorView>)
    requires
        tracker.wf(),
        tracker.len() + descriptors.len() <= usize::MAX,
        forall|k: int| 0 <= k < descriptors.len() ==> !tracker.knows(#[trigger] descriptors[k]),
        forall|i: int, j: int|
            0 <= i < j < descriptors.len() ==> descriptors[i] != descriptors[j],
    ensures
        ({
            let (after, handles) = tracker.register_all(descriptors);
            &&& after.descriptors == tracker.descriptors + descriptors
            &&& after.statuses == tracker.statuses + all_pending(descriptors.len())
            &&& handles == Seq::new(
                descriptors.len(),
                |k: int| KernelHandle { index: (tracker.len() + k) as usize },
            )
        }),
    decreases descriptors.len(),
{
    let (after, handles) = tracker.register_all(descriptors);
    let counted = Seq::new(
        descriptors.len(),
        |k: int| KernelHandle { index: (tracker.len() + k) as usize },
    );
    if descriptors.len() > 0 {
        let front = descriptors.drop_last();
        assert forall|k: int| 0 <= k < front.len() implies !tracker.knows(#[trigger] front[k]) by {
        }
        lemma_register_all_fresh(tracker, front);
        // The last kernel is neither among those known at the start nor
        // among those registered before it.
        assert(!tracker.register_all(front).0.knows(descriptors.last()));
    }
    assert(handles =~= counted);
}

} // verus!
