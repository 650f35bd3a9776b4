//! Facts about sequences that the stores share.

use vstd::prelude::*;

verus! {

/// Filtering one element more either appends that element or changes nothing.
pub proof fn filter_one_more<T>(items: Seq<T>, i: int, keep: spec_fn(T) -> bool)
    requires
        0 <= i < items.len(),
    ensures
        items.take(i + 1).filter(keep) == if keep(items[i]) {
            items.take(i).filter(keep).push(items[i])
        } else {
            items.take(i).filter(keep)
        },
{
    reveal(Seq::filter);
    assert(items.take(i + 1).drop_last() =~= items.take(i));
    assert(items.take(i + 1).last() == items[i]);
}

/// Filtering nothing gives nothing.
pub proof fn filter_of_nothing<T>(items: Seq<T>, keep: spec_fn(T) -> bool)
    ensures
        items.take(0).filter(keep) == Seq::<T>::empty(),
{
    reveal(Seq::filter);
    assert(items.take(0).filter(keep) =~= Seq::<T>::empty());
}

/// What a filter keeps, it keeps in order: the positions that the kept
/// elements came from rise, each holds an element that passes, and every
/// position with an element that passes is among them.
pub proof fn filter_origin<T>(items: Seq<T>, keep: spec_fn(T) -> bool) -> (origin: Seq<int>)
    ensures
        origin.len() == items.filter(keep).len(),
        forall|a: int|
            0 <= a < origin.len() ==> 0 <= #[trigger] origin[a] < items.len() && items.filter(
                keep,
            )[a] == items[origin[a]] && keep(items[origin[a]]),
        forall|a: int, b: int| 0 <= a < b < origin.len() ==> origin[a] < origin[b],
        forall|j: int|
            0 <= j < items.len() && keep(#[trigger] items[j]) ==> exists|a: int|
                0 <= a < origin.len() && #[trigger] origin[a] == j,
    decreases items.len(),
{
    reveal(Seq::filter);
    if items.len() == 0 {
        Seq::empty()
    } else {
        let shorter = items.drop_last();
        let earlier = filter_origin(shorter, keep);
        let last = items.len() - 1;
        let origin = if keep(items.last()) {
            earlier.push(last)
        } else {
            earlier
        };
        assert forall|a: int| 0 <= a < origin.len() implies 0 <= #[trigger] origin[a] < items.len()
            && items.filter(keep)[a] == items[origin[a]] && keep(items[origin[a]]) by {
            if a < earlier.len() {
                assert(origin[a] == earlier[a]);
                assert(shorter[earlier[a]] == items[earlier[a]]);
                assert(items.filter(keep)[a] == shorter.filter(keep)[a]);
            }
        }
        assert forall|a: int, b: int| 0 <= a < b < origin.len() implies origin[a] < origin[b] by {
            assert(origin[a] == earlier[a]);
            if b < earlier.len() {
                assert(origin[b] == earlier[b]);
            }
        }
        assert forall|j: int| 0 <= j < items.len() && keep(#[trigger] items[j]) implies exists|
            a: int,
        |
            0 <= a < origin.len() && #[trigger] origin[a] == j by {
            if j < last {
                assert(shorter[j] == items[j]);
                let a = choose|a: int| 0 <= a < earlier.len() && #[trigger] earlier[a] == j;
                assert(origin[a] == j);
            } else {
                assert(origin[earlier.len() as int] == j);
            }
        }
        origin
    }
}

} // verus!
