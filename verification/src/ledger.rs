//! The set of identifiers that earlier runs have reconciled.

use vstd::prelude::*;
use crate::errors::{Error, ErrorKind};
use crate::sequences::{lemma_filter_push, lemma_push_no_duplicates, lemma_push_to_set};
use crate::text::{contains, duplicate, views};

verus! {

/// The reconciled identifiers. Each is held once; none is ever removed.
#[derive(Debug)]
pub struct Ledger {
    ids: Vec<String>,
}

/// Whether a batch can be appended to a set of identifiers: it names no
/// identifier twice and none that the set already holds.
pub open spec fn appendable(held: Set<Seq<char>>, batch: Seq<Seq<char>>) -> bool {
    &&& batch.no_duplicates()
    &&& forall|i: int| 0 <= i < batch.len() ==> !held.contains(#[trigger] batch[i])
}

/// Whether the member at a place keeps a batch from being appended: it is
/// held already, or the batch names it before that place too.
pub open spec fn refused_at(held: Set<Seq<char>>, batch: Seq<Seq<char>>, at: int) -> bool {
    held.contains(batch[at]) || exists|j: int| 0 <= j < at && batch[j] == batch[at]
}

/// What is said of a batch that is refused for the given identifier.
pub open spec fn duplicate_fault(id: Seq<char>) -> Seq<char> {
    "duplicate identifier in batch: "@ + id
}

impl Ledger {
    #[verifier::type_invariant]
    spec fn well_formed(self) -> bool {
        views(self.ids@).no_duplicates()
    }

    /// The identifiers held, as a set.
    pub closed spec fn view(&self) -> Set<Seq<char>> {
        views(self.ids@).to_set()
    }

    /// A ledger that holds nothing.
    pub fn new() -> (ledger: Ledger)
        ensures
            ledger@ == Set::<Seq<char>>::empty(),
    {
        let ids: Vec<String> = Vec::new();
        assert(views(ids@).to_set() =~= Set::<Seq<char>>::empty());
        Ledger { ids }
    }

    /// The ledger of the identifiers read from the store. One that the
    /// store gave twice is held once.
    pub fn load(stored: &Vec<String>) -> (ledger: Ledger)
        ensures
            ledger@ == views(stored@).to_set(),
    {
        let mut ids: Vec<String> = Vec::new();
        let mut i: usize = 0;
        while i < stored.len()
            invariant
                i <= stored@.len(),
                views(ids@).no_duplicates(),
                views(ids@).to_set() == views(stored@).take(i as int).to_set(),
            decreases stored@.len() - i,
        {
            let ghost kept = views(ids@);
            let ghost seen = views(stored@).take(i as int);
            assert(views(stored@).take(i + 1) =~= seen.push(stored@[i as int]@));
            if !contains(&ids, &stored[i]) {
                ids.push(stored[i].clone());
                assert(views(ids@) =~= kept.push(stored@[i as int]@));
            }
            proof {
                lemma_push_to_set(kept, stored@[i as int]@);
                lemma_push_to_set(seen, stored@[i as int]@);
                assert(kept.to_set().contains(stored@[i as int]@) <==> kept.contains(
                    stored@[i as int]@,
                ));
            }
            assert(views(ids@).to_set() =~= views(stored@).take(i + 1).to_set());
            i = i + 1;
        }
        assert(views(stored@).take(i as int) =~= views(stored@));
        Ledger { ids }
    }

    /// How many identifiers are held.
    pub fn len(&self) -> (n: usize)
        ensures
            self@.finite(),
            n == self@.len(),
    {
        proof {
            use_type_invariant(self);
            views(self.ids@).unique_seq_to_set();
        }
        self.ids.len()
    }

    /// Whether the identifier is held.
    pub fn contains(&self, id: &String) -> (held: bool)
        ensures
            held <==> self@.contains(id@),
    {
        contains(&self.ids, id)
    }

    /// Those of the given identifiers that are held, in the order given.
    pub fn contains_batch(&self, ids: &Vec<String>) -> (held: Vec<String>)
        ensures
            views(held@) == views(ids@).filter(|id: Seq<char>| self@.contains(id)),
    {
        let mut held: Vec<String> = Vec::new();
        let mut i: usize = 0;
        let ghost present = |id: Seq<char>| self@.contains(id);
        assert(views(ids@).take(0) =~= Seq::<Seq<char>>::empty());
        assert(views(held@) =~= Seq::<Seq<char>>::empty());
        while i < ids.len()
            invariant
                i <= ids@.len(),
                present == |id: Seq<char>| self@.contains(id),
                views(held@) == views(ids@).take(i as int).filter(present),
            decreases ids@.len() - i,
        {
            let ghost kept = views(held@);
            let ghost seen = views(ids@).take(i as int);
            proof {
                assert(views(ids@).take(i + 1) =~= seen.push(ids@[i as int]@));
                lemma_filter_push(seen, ids@[i as int]@, present);
            }
            if self.contains(&ids[i]) {
                held.push(ids[i].clone());
                assert(views(held@) =~= kept.push(ids@[i as int]@));
            }
            i = i + 1;
        }
        assert(views(ids@).take(i as int) =~= views(ids@));
        held
    }

    /// Appends a batch, wholly or not at all. A batch that names an
    /// identifier twice, or one that is already held, is refused as a whole
    /// and the ledger stays as it was; the failure names the first such
    /// identifier. An empty batch changes nothing and succeeds.
    pub fn append_batch(&mut self, batch: &Vec<String>) -> (done: Result<(), Error>)
        ensures
            done is Ok <==> appendable(old(self)@, views(batch@)),
            done is Ok ==> final(self)@ == old(self)@.union(views(batch@).to_set()),
            done matches Err(e) ==> {
                &&& final(self)@ == old(self)@
                &&& e@.0 == ErrorKind::Storage
                &&& exists|at: int|
                    0 <= at < batch@.len() && #[trigger] refused_at(
                        old(self)@,
                        views(batch@),
                        at,
                    ) && e@.1 == duplicate_fault(views(batch@)[at]) && forall|k: int|
                        0 <= k < at ==> !refused_at(old(self)@, views(batch@), k)
            },
    {
        proof {
            use_type_invariant(&*self);
        }
        let mut i: usize = 0;
        while i < batch.len()
            invariant
                i <= batch@.len(),
                *self == *old(self),
                appendable(self@, views(batch@).take(i as int)),
                forall|k: int| 0 <= k < i ==> !refused_at(self@, views(batch@), k),
            decreases batch@.len() - i,
        {
            let ghost seen = views(batch@).take(i as int);
            let repeated = position_before(batch, i);
            if repeated || self.contains(&batch[i]) {
                proof {
                    let all = views(batch@);
                    if repeated {
                        let j = choose|j: int| 0 <= j < i && batch@[j]@ == batch@[i as int]@;
                        assert(all[j] == all[i as int]);
                    } else {
                        assert(self@.contains(all[i as int]));
                    }
                    assert(refused_at(self@, all, i as int));
                }
                return Err(
                    Error::StorageError(
                        String::from_str("duplicate identifier in batch: ").concat(
                            batch[i].as_str(),
                        ),
                    ),
                );
            }
            proof {
                let all = views(batch@);
                if exists|j: int| 0 <= j < i && all[j] == all[i as int] {
                    let j = choose|j: int| 0 <= j < i && all[j] == all[i as int];
                    assert(batch@[j]@ == batch@[i as int]@);
                }
                assert(!refused_at(self@, all, i as int));
                let next = views(batch@).take(i + 1);
                assert forall|a: int, b: int| 0 <= a < next.len() && 0 <= b < next.len() && a
                    != b implies next[a] != next[b] by {
                    if a < i && b < i {
                        assert(seen[a] != seen[b]);
                    }
                }
                assert forall|k: int| 0 <= k < next.len() implies !self@.contains(
                    #[trigger] next[k],
                ) by {
                    if k < i {
                        assert(seen[k] == next[k]);
                    }
                }
            }
            i = i + 1;
        }
        assert(views(batch@).take(i as int) =~= views(batch@));
        let mut ids = duplicate(&self.ids);
        let mut k: usize = 0;
        assert(views(batch@).take(0).to_set() =~= Set::<Seq<char>>::empty());
        assert(self@ =~= old(self)@.union(views(batch@).take(0).to_set()));
        while k < batch.len()
            invariant
                k <= batch@.len(),
                appendable(old(self)@, views(batch@)),
                views(ids@).no_duplicates(),
                views(ids@).to_set() == old(self)@.union(
                    views(batch@).take(k as int).to_set(),
                ),
            decreases batch@.len() - k,
        {
            let ghost kept = views(ids@);
            let ghost seen = views(batch@).take(k as int);
            let ghost id = batch@[k as int]@;
            proof {
                assert(views(batch@).take(k + 1) =~= seen.push(id));
                lemma_push_to_set(seen, id);
                lemma_push_to_set(kept, id);
                assert(views(batch@)[k as int] == id);
                assert(!old(self)@.contains(id));
                if seen.contains(id) {
                    let j = choose|j: int| 0 <= j < seen.len() && seen[j] == id;
                    assert(views(batch@)[j] == id);
                }
                assert(!kept.to_set().contains(id));
                assert(!kept.contains(id));
            }
            ids.push(batch[k].clone());
            proof {
                assert(views(ids@) =~= kept.push(id));
                assert(views(ids@).to_set() =~= old(self)@.union(
                    views(batch@).take(k + 1).to_set(),
                ));
                lemma_push_no_duplicates(kept, id);
            }
            k = k + 1;
        }
        assert(views(batch@).take(k as int) =~= views(batch@));
        self.ids = ids;
        Ok(())
    }

    /// The identifiers held, each once.
    pub fn identifiers(&self) -> (ids: Vec<String>)
        ensures
            views(ids@).no_duplicates(),
            views(ids@).to_set() == self@,
    {
        proof {
            use_type_invariant(self);
        }
        duplicate(&self.ids)
    }
}

/// Whether the string at a place of a batch occurs before that place too.
fn position_before(batch: &Vec<String>, at: usize) -> (repeated: bool)
    requires
        at < batch@.len(),
    ensures
        repeated <==> exists|j: int| 0 <= j < at && batch@[j]@ == batch@[at as int]@,
{
    let mut j: usize = 0;
    while j < at
        invariant
            j <= at,
            at < batch@.len(),
            forall|k: int| 0 <= k < j ==> batch@[k]@ != batch@[at as int]@,
        decreases at - j,
    {
        if batch[j] == batch[at] {
            return true;
        }
        j = j + 1;
    }
    false
}

} // verus!
