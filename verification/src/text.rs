//! Sequences of strings, seen as sequences of their characters.

use vstd::prelude::*;

verus! {

/// The character sequences of a sequence of strings, in the same order.
pub open spec fn views(items: Seq<String>) -> Seq<Seq<char>> {
    items.map_values(|s: String| s@)
}

/// The members of a sequence without repetition, each at the place of its
/// first occurrence.
pub open spec fn first_occurrences(items: Seq<Seq<char>>) -> Seq<Seq<char>>
    decreases items.len(),
{
    if items.len() == 0 {
        Seq::empty()
    } else {
        let before = first_occurrences(items.drop_last());
        if before.contains(items.last()) {
            before
        } else {
            before.push(items.last())
        }
    }
}

/// What `first_occurrences` keeps: the same members, each once.
pub proof fn lemma_first_occurrences(items: Seq<Seq<char>>)
    ensures
        first_occurrences(items).no_duplicates(),
        first_occurrences(items).len() <= items.len(),
        forall|x: Seq<char>|
            #![trigger first_occurrences(items).contains(x)]
            #![trigger items.contains(x)]
            first_occurrences(items).contains(x) <==> items.contains(x),
    decreases items.len(),
{
    if items.len() > 0 {
        let head = items.drop_last();
        let last = items.last();
        let before = first_occurrences(head);
        let kept = first_occurrences(items);
        lemma_first_occurrences(head);
        assert(before.contains(last) <==> head.contains(last));
        assert forall|x: Seq<char>|
            #![trigger kept.contains(x)]
            #![trigger items.contains(x)]
            kept.contains(x) <==> items.contains(x) by {
            assert(before.contains(x) <==> head.contains(x));
            if head.contains(x) {
                let i = choose|i: int| 0 <= i < head.len() && head[i] == x;
                assert(items[i] == x);
            }
            if items.contains(x) {
                let i = choose|i: int| 0 <= i < items.len() && items[i] == x;
                if i < items.len() - 1 {
                    assert(head[i] == x);
                }
            }
            assert(items[items.len() - 1] == last);
            if !before.contains(last) {
                if before.contains(x) {
                    let k = choose|k: int| 0 <= k < before.len() && before[k] == x;
                    assert(kept[k] == x);
                }
                assert(kept[before.len() as int] == last);
                if kept.contains(x) {
                    let k = choose|k: int| 0 <= k < kept.len() && kept[k] == x;
                    if k < before.len() {
                        assert(before[k] == x);
                    }
                }
            }
        }
    }
}

/// A sequence has exactly one distinct member just when it is not empty and
/// every member equals the first.
pub proof fn lemma_one_distinct_member(items: Seq<Seq<char>>)
    ensures
        first_occurrences(items).len() == 1 <==> items.len() > 0 && forall|i: int|
            0 <= i < items.len() ==> #[trigger] items[i] == items[0],
{
    lemma_first_occurrences(items);
    let distinct = first_occurrences(items);
    if items.len() > 0 {
        assert(items.contains(items[0]));
        assert(distinct.contains(items[0]));
        if distinct.len() == 1 {
            assert forall|i: int| 0 <= i < items.len() implies #[trigger] items[i] == items[0] by {
                assert(items.contains(items[i]));
                let a = choose|a: int| 0 <= a < distinct.len() && distinct[a] == items[i];
                let b = choose|b: int| 0 <= b < distinct.len() && distinct[b] == items[0];
                assert(a == b);
            }
        }
        if forall|i: int| 0 <= i < items.len() ==> #[trigger] items[i] == items[0] {
            if distinct.len() >= 2 {
                assert(distinct.contains(distinct[0]));
                assert(distinct.contains(distinct[1]));
                assert(items.contains(distinct[0]));
                assert(items.contains(distinct[1]));
                assert(distinct[0] == items[0]);
                assert(distinct[1] == items[0]);
                assert(false);
            }
            assert(distinct.len() >= 1) by {
                let b = choose|b: int| 0 <= b < distinct.len() && distinct[b] == items[0];
            }
        }
    }
}

/// The place of the first string with the given characters, if there is one.
pub fn position(items: &Vec<String>, needle: &String) -> (at: Option<usize>)
    ensures
        match at {
            Some(i) => i < items@.len() && items@[i as int]@ == needle@ && forall|j: int|
                0 <= j < i ==> items@[j]@ != needle@,
            None => forall|j: int| 0 <= j < items@.len() ==> items@[j]@ != needle@,
        },
{
    let mut i: usize = 0;
    while i < items.len()
        invariant
            i <= items@.len(),
            forall|j: int| 0 <= j < i ==> items@[j]@ != needle@,
        decreases items@.len() - i,
    {
        if items[i] == *needle {
            return Some(i);
        }
        i = i + 1;
    }
    None
}

/// Whether one of the strings has the given characters.
pub fn contains(items: &Vec<String>, needle: &String) -> (found: bool)
    ensures
        found <==> views(items@).contains(needle@),
{
    match position(items, needle) {
        Some(i) => {
            assert(views(items@)[i as int] == needle@);
            true
        },
        None => false,
    }
}

/// A copy of the strings, in the same order.
pub fn duplicate(items: &Vec<String>) -> (copy: Vec<String>)
    ensures
        copy@ == items@,
{
    let mut copy: Vec<String> = Vec::new();
    let mut i: usize = 0;
    while i < items.len()
        invariant
            i <= items@.len(),
            copy@ == items@.take(i as int),
        decreases items@.len() - i,
    {
        copy.push(items[i].clone());
        assert(copy@ =~= items@.take(i + 1));
        i = i + 1;
    }
    assert(items@.take(i as int) =~= items@);
    copy
}

} // verus!
