//! What the player carries.

use vstd::prelude::*;
use crate::text::{same_text, views};

verus! {

/// The identifiers of the items the player carries, oldest first. No
/// identifier is held twice.
#[derive(Debug)]
pub struct Inventory {
    ids: Vec<String>,
}

impl View for Inventory {
    type V = Seq<Seq<char>>;

    closed spec fn view(&self) -> Seq<Seq<char>> {
        views(self.ids@)
    }
}

impl Inventory {
    #[verifier::type_invariant]
    spec fn well_formed(&self) -> bool {
        forall|i: int, j: int|
            0 <= i < j < self.ids.len() ==> (#[trigger] self.ids@[i])@ != (#[trigger] self.ids@[j])@
    }

    proof fn lemma_no_duplicates(&self)
        requires
            self.well_formed(),
        ensures
            self@.no_duplicates(),
    {
        assert forall|i: int, j: int| 0 <= i < self@.len() && 0 <= j < self@.len() && i != j implies self@[i]
            != self@[j] by {
            if i < j {
                assert(self.ids@[i]@ != self.ids@[j]@);
            } else {
                assert(self.ids@[j]@ != self.ids@[i]@);
            }
        }
    }

    /// Empty hands.
    pub fn new() -> (made: Self)
        ensures
            made@ == Seq::<Seq<char>>::empty(),
    {
        let made = Inventory { ids: Vec::new() };
        proof {
            assert(made@ =~= Seq::<Seq<char>>::empty());
        }
        made
    }

    /// The number of items carried.
    pub fn len(&self) -> (n: usize)
        ensures
            n == self@.len(),
    {
        self.ids.len()
    }

    /// Whether nothing is carried.
    pub fn is_empty(&self) -> (b: bool)
        ensures
            b == (self@.len() == 0),
    {
        self.ids.len() == 0
    }

    /// The identifiers carried, oldest first, each of them once.
    pub fn ids(&self) -> (ids: &Vec<String>)
        ensures
            views(ids@) == self@,
            self@.no_duplicates(),
    {
        proof {
            use_type_invariant(self);
            self.lemma_no_duplicates();
        }
        &self.ids
    }

    /// Whether `id` is carried.
    pub fn contains(&self, id: &str) -> (found: bool)
        ensures
            found == self@.contains(id@),
    {
        let mut i: usize = 0;
        while i < self.ids.len()
            invariant
                i <= self.ids.len(),
                forall|k: int| 0 <= k < i ==> (#[trigger] self.ids@[k])@ != id@,
            decreases self.ids.len() - i,
        {
            if same_text(self.ids[i].as_str(), id) {
                proof {
                    assert(self@[i as int] == id@);
                }
                return true;
            }
            i += 1;
        }
        proof {
            assert forall|k: int| 0 <= k < self@.len() implies self@[k] != id@ by {
                assert(self.ids@[k]@ != id@);
            }
        }
        false
    }

    /// Takes `id` into the inventory, at the end, unless it is carried
    /// already. Says whether it was new.
    pub fn insert(&mut self, id: String) -> (added: bool)
        ensures
            added == !old(self)@.contains(id@),
            final(self)@ == (if added {
                old(self)@.push(id@)
            } else {
                old(self)@
            }),
    {
        proof {
            use_type_invariant(&*self);
        }
        if self.contains(id.as_str()) {
            return false;
        }
        let mut taken = Inventory { ids: Vec::new() };
        core::mem::swap(self, &mut taken);
        let Inventory { ids: mut ids } = taken;
        proof {
            assert(views(ids@.push(id)) =~= views(ids@).push(id@));
            assert forall|i: int, j: int| 0 <= i < j < ids@.len() + 1 implies (#[trigger] ids@.push(
                id,
            )[i])@ != (#[trigger] ids@.push(id)[j])@ by {
                if j == ids@.len() {
                    assert(views(ids@)[i] == ids@[i]@);
                    assert(views(ids@).contains(ids@[i]@));
                } else {
                    assert(ids@[i]@ != ids@[j]@);
                }
            }
        }
        ids.push(id);
        *self = Inventory { ids };
        true
    }

    /// Takes the identifier at position `at` out of the inventory and hands
    /// it back.
    pub fn remove(&mut self, at: usize) -> (id: String)
        requires
            at < old(self)@.len(),
        ensures
            id@ == old(self)@[at as int],
            final(self)@ == old(self)@.remove(at as int),
    {
        proof {
            use_type_invariant(&*self);
        }
        let mut taken = Inventory { ids: Vec::new() };
        core::mem::swap(self, &mut taken);
        let Inventory { ids: mut ids } = taken;
        let ghost before = ids@;
        let id = ids.remove(at);
        proof {
            assert(views(ids@) =~= views(before).remove(at as int));
            assert forall|i: int, j: int| 0 <= i < j < ids@.len() implies (#[trigger] ids@[i])@ != (
            #[trigger] ids@[j])@ by {
                let a = if i < at { i } else { i + 1 };
                let b = if j < at { j } else { j + 1 };
                assert(before[a]@ != before[b]@);
            }
        }
        *self = Inventory { ids };
        id
    }
}

} // verus!
