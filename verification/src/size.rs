//! The size of a directory: the bytes of every file that a walk of it met.
//!
//! The size is best effort. A place that could not be read, or an entry whose
//! metadata could not be read, adds nothing, and directories add nothing of
//! their own: what they hold is met by the walk and counted there. A size
//! that does not fit in 64 bits is reported as `u64::MAX`.

use crate::entry::{Visit, VisitView};
use vstd::prelude::*;

verus! {

/// The bytes that one step of a walk adds to the size.
pub open spec fn counted_len(visit: VisitView) -> nat {
    match visit {
        VisitView::Entry(entry) => match entry.len {
            Some(len) if !entry.is_dir => len as nat,
            _ => 0,
        },
        VisitView::Unreadable => 0,
    }
}

/// The bytes of a whole walk.
pub open spec fn total_len(walk: Seq<VisitView>) -> nat
    decreases walk.len(),
{
    if walk.len() == 0 {
        0
    } else {
        total_len(walk.drop_last()) + counted_len(walk.last())
    }
}

/// A byte count as a `u64`: itself where it fits, else the largest `u64`.
pub open spec fn clamp(bytes: nat) -> u64 {
    if bytes <= u64::MAX {
        bytes as u64
    } else {
        u64::MAX
    }
}

/// The size reported for a directory whose walk is `walk`.
pub open spec fn dir_size(walk: Seq<VisitView>) -> u64 {
    clamp(total_len(walk))
}

/// The bytes that `visit` adds to a size.
pub fn counted(visit: &Visit) -> (len: u64)
    ensures
        len == counted_len(visit@),
{
    match visit {
        Visit::Entry(entry) => match entry.len {
            Some(len) => if entry.is_dir {
                0
            } else {
                len
            },
            None => 0,
        },
        Visit::Unreadable => 0,
    }
}

/// Adds up the walk of a directory. Never fails: what could not be read is
/// passed over, so the result may fall short of what is on disk.
pub fn size_of_dir(walk: &Vec<Visit>) -> (size: u64)
    ensures
        size == dir_size(walk.deep_view()),
{
    let ghost whole = walk.deep_view();
    let mut size: u64 = 0;
    let mut i: usize = 0;
    while i < walk.len()
        invariant
            i <= walk.len(),
            whole == walk.deep_view(),
            size == dir_size(whole.take(i as int)),
        decreases walk.len() - i,
    {
        proof {
            assert(whole.take(i + 1).drop_last() == whole.take(i as int));
        }
        size = size.saturating_add(counted(&walk[i]));
        i += 1;
    }
    proof {
        assert(whole.take(walk.len() as int) == whole);
    }
    size
}

/// Appending one step to a walk adds that step's bytes.
pub proof fn lemma_total_len_push(walk: Seq<VisitView>, visit: VisitView)
    ensures
        total_len(walk.push(visit)) == total_len(walk) + counted_len(visit),
{
    assert(walk.push(visit).drop_last() == walk);
}

/// The bytes of two walks laid end to end are the sum of their bytes.
pub proof fn lemma_total_len_add(front: Seq<VisitView>, back: Seq<VisitView>)
    ensures
        total_len(front + back) == total_len(front) + total_len(back),
    decreases back.len(),
{
    if back.len() > 0 {
        lemma_total_len_add(front, back.drop_last());
        assert((front + back).drop_last() == front + back.drop_last());
    }
}

/// A walk adds up to nothing exactly when none of its steps adds anything. So
/// a directory that holds only empty files, and directories of such, has size
/// zero.
pub proof fn lemma_size_zero(walk: Seq<VisitView>)
    ensures
        dir_size(walk) == 0 <==> forall|i: int|
            0 <= i < walk.len() ==> counted_len(#[trigger] walk[i]) == 0,
    decreases walk.len(),
{
    if walk.len() > 0 {
        lemma_size_zero(walk.drop_last());
        let front = walk.drop_last();
        if dir_size(walk) == 0 {
            assert forall|i: int| 0 <= i < walk.len() implies counted_len(#[trigger] walk[i])
                == 0 by {
                if i < front.len() {
                    assert(front[i] == walk[i]);
                }
            }
        }
    }
}

/// Putting one more step into a walk, at any place, adds that step's bytes
/// and never lowers the size. A file of `n` bytes in a directory raises the
/// reported size by exactly `n`, as long as the new size fits in 64 bits.
pub proof fn lemma_size_insert(walk: Seq<VisitView>, at: int, visit: VisitView)
    requires
        0 <= at <= walk.len(),
    ensures
        total_len(walk.insert(at, visit)) == total_len(walk) + counted_len(visit),
        dir_size(walk.insert(at, visit)) >= dir_size(walk),
        total_len(walk) + counted_len(visit) <= u64::MAX ==> dir_size(walk.insert(at, visit))
            == dir_size(walk) + counted_len(visit),
{
    let front = walk.take(at);
    let back = walk.skip(at);
    assert(walk == front + back);
    lemma_total_len_add(front, back);
    lemma_total_len_add(front.push(visit), back);
    lemma_total_len_push(front, visit);
}

} // verus!
