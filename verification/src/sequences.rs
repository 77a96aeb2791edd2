//! Facts about sequences and the sets of their members.

use vstd::prelude::*;

verus! {

/// The set of a sequence with one more member at its end.
pub proof fn lemma_push_to_set<A>(items: Seq<A>, x: A)
    ensures
        items.push(x).to_set() == items.to_set().insert(x),
{
    assert forall|y: A| items.push(x).to_set().contains(y) <==> items.to_set().insert(
        x,
    ).contains(y) by {
        if items.push(x).contains(y) {
            let i = choose|i: int| 0 <= i < items.push(x).len() && items.push(x)[i] == y;
            if i < items.len() {
                assert(items[i] == y);
            }
        }
        if items.contains(y) {
            let i = choose|i: int| 0 <= i < items.len() && items[i] == y;
            assert(items.push(x)[i] == y);
        }
        assert(items.push(x)[items.len() as int] == x);
    }
    assert(items.push(x).to_set() =~= items.to_set().insert(x));
}

/// A sequence without repetition stays so with one more member that it did
/// not hold.
pub proof fn lemma_push_no_duplicates<A>(items: Seq<A>, x: A)
    requires
        items.no_duplicates(),
        !items.contains(x),
    ensures
        items.push(x).no_duplicates(),
{
    assert forall|a: int, b: int|
        0 <= a < items.push(x).len() && 0 <= b < items.push(x).len() && a
            != b implies items.push(x)[a] != items.push(x)[b] by {
        if a < items.len() && b < items.len() {
            assert(items[a] != items[b]);
        } else if a < items.len() {
            assert(items.contains(items[a]));
        } else {
            assert(items.contains(items[b]));
        }
    }
}

/// The set of a sequence without one of its members, which occurs once.
pub proof fn lemma_remove_to_set<A>(items: Seq<A>, at: int)
    requires
        0 <= at < items.len(),
        items.no_duplicates(),
    ensures
        items.remove(at).to_set() == items.to_set().remove(items[at]),
        items.remove(at).no_duplicates(),
        !items.remove(at).contains(items[at]),
        forall|k: int| 0 <= k < items.remove(at).len() ==> items.contains(
            #[trigger] items.remove(at)[k],
        ),
{
    let rest = items.remove(at);
    assert forall|k: int| 0 <= k < rest.len() implies #[trigger] rest[k] == items[if k < at {
        k
    } else {
        k + 1
    }] by {}
    assert forall|k: int| 0 <= k < rest.len() implies items.contains(#[trigger] rest[k]) by {
        let j = if k < at {
            k
        } else {
            k + 1
        };
        assert(items[j] == rest[k]);
    }
    assert forall|y: A| rest.to_set().contains(y) <==> items.to_set().remove(items[at]).contains(
        y,
    ) by {
        if rest.contains(y) {
            let k = choose|k: int| 0 <= k < rest.len() && rest[k] == y;
            let j = if k < at {
                k
            } else {
                k + 1
            };
            assert(items[j] == y);
        }
        if items.contains(y) && y != items[at] {
            let j = choose|j: int| 0 <= j < items.len() && items[j] == y;
            let k = if j < at {
                j
            } else {
                j - 1
            };
            assert(rest[k] == y);
        }
    }
    assert(rest.to_set() =~= items.to_set().remove(items[at]));
    if rest.contains(items[at]) {
        let k = choose|k: int| 0 <= k < rest.len() && rest[k] == items[at];
        let j = if k < at {
            k
        } else {
            k + 1
        };
        assert(items[j] == items[at]);
    }
}

/// A filter over a sequence with one more member at its end.
pub proof fn lemma_filter_push<A>(items: Seq<A>, x: A, keep: spec_fn(A) -> bool)
    ensures
        items.push(x).filter(keep) == if keep(x) {
            items.filter(keep).push(x)
        } else {
            items.filter(keep)
        },
{
    reveal(Seq::filter);
    assert(items.push(x).drop_last() =~= items);
}

} // verus!
