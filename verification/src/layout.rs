//! The binding-layout rule: a kernel may bind only slots that its variant
//! declares, and in the order in which the variant declares them.

use vstd::prelude::*;
use crate::error::ConfigurationError;
use crate::grid::{buffer_views, GridBuffer, GridBufferView};
use crate::kernel::{slots_of, KernelDescriptor};

verus! {

/// `places` puts the items of `bound`, one after the other, on strictly
/// increasing positions of `declared` that hold the same slot.
pub open spec fn embeds(places: Seq<int>, bound: Seq<nat>, declared: Seq<nat>) -> bool {
    &&& places.len() == bound.len()
    &&& forall|i: int|
        0 <= i < places.len() ==> 0 <= #[trigger] places[i] < declared.len() && declared[places[i]]
            == bound[i]
    &&& forall|i: int, j: int| 0 <= i < j < places.len() ==> places[i] < places[j]
}

/// The bound slots are among the declared ones, in matching order.
pub open spec fn admits(declared: Seq<nat>, bound: Seq<nat>) -> bool {
    exists|places: Seq<int>| embeds(places, bound, declared)
}

/// The slots that a list of buffers declares, in declaration order.
pub open spec fn declared_slots(buffers: Seq<GridBufferView>) -> Seq<nat> {
    Seq::new(buffers.len(), |i: int| buffers[i].slot)
}

/// Whatever a layout admits, it admits every prefix of.
pub proof fn lemma_admits_prefix(declared: Seq<nat>, bound: Seq<nat>, n: int)
    requires
        admits(declared, bound),
        0 <= n <= bound.len(),
    ensures
        admits(declared, bound.take(n)),
{
    let places = choose|places: Seq<int>| embeds(places, bound, declared);
    assert(embeds(places.take(n), bound.take(n), declared));
}

/// A layout admits its own slots, bound all and in order.
pub proof fn lemma_admits_itself(declared: Seq<nat>)
    ensures
        admits(declared, declared),
{
    let places = Seq::new(declared.len(), |i: int| i);
    assert(embeds(places, declared, declared));
}

/// Checks a kernel's bindings against the buffers that its variant declares.
/// On a mismatch the error names the first binding that finds no place.
pub fn check_layout(buffers: &Vec<GridBuffer>, kernel: &KernelDescriptor) -> (r: Result<
    (),
    ConfigurationError,
>)
    ensures
        r is Ok <==> admits(declared_slots(buffer_views(buffers@)), slots_of(kernel@.bindings)),
        r matches Err(e) ==> {
            let declared = declared_slots(buffer_views(buffers@));
            let bound = slots_of(kernel@.bindings);
            &&& e matches ConfigurationError::BindingLayoutMismatch { position, slot }
            &&& position < bound.len()
            &&& slot == kernel@.bindings[position as int].slot
            &&& admits(declared, bound.take(position as int))
            &&& !admits(declared, bound.take(position as int + 1))
        },
{
    let bindings = kernel.bindings();
    let ghost declared = declared_slots(buffer_views(buffers@));
    let ghost bound = slots_of(kernel@.bindings);
    let ghost mut places: Seq<int> = Seq::empty();
    let mut i: usize = 0;
    let mut j: usize = 0;
    while i < bindings.len() && j < buffers.len()
        invariant
            bindings@ == kernel@.bindings,
            declared == declared_slots(buffer_views(buffers@)),
            bound == slots_of(kernel@.bindings),
            i <= bindings.len(),
            j <= buffers.len(),
            embeds(places, bound.take(i as int), declared),
            forall|k: int| 0 <= k < i ==> places[k] < j,
            i < bindings.len() ==> forall|other: Seq<int>| #[trigger]
                embeds(other, bound.take(i as int + 1), declared) ==> other[i as int] >= j,
        decreases buffers.len() - j,
    {
        let ghost before = bound.take(i as int + 1);
        if buffers[j].slot() == bindings[i].slot {
            proof {
                // The binding takes the place at hand. Whatever places the
                // binding after it has placed this one no earlier, so it puts
                // the next one behind the place at hand.
                let grown = places.push(j as int);
                assert(embeds(grown, before, declared));
                if i + 1 < bindings.len() {
                    assert forall|other: Seq<int>| #[trigger]
                        embeds(other, bound.take(i as int + 2), declared) implies other[i as int
                        + 1] >= j + 1 by {
                        assert(embeds(other.take(i as int + 1), before, declared));
                    }
                }
                places = grown;
            }
            i += 1;
        }
        j += 1;
    }
    if i == bindings.len() {
        proof {
            assert(bound.take(i as int) =~= bound);
        }
        Ok(())
    } else {
        proof {
            let short = bound.take(i as int + 1);
            assert(!admits(declared, short));
            if admits(declared, bound) {
                lemma_admits_prefix(declared, bound, i as int + 1);
            }
        }
        Err(ConfigurationError::BindingLayoutMismatch { position: i, slot: bindings[i].slot })
    }
}

} // verus!
