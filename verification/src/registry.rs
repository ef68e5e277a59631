//! The executions that are under way.

use crate::text::same_text;
use vstd::prelude::*;

verus! {

/// An execution that is under way: the activity that it executes, the ticket under which it was
/// entered, and a handle by which it can be told to stop.
#[derive(Debug)]
pub struct Entry<T> {
    id: String,
    ticket: String,
    handle: T,
}

/// The executions that are under way, one for each activity. An execution that is entered takes the
/// place of an earlier one of the same activity.
#[derive(Debug)]
pub struct Registry<T> {
    entries: Vec<Entry<T>>,
}

/// Position `i` of `entries` is the one of the activity `id`.
pub closed spec fn entered_at<T>(entries: Seq<Entry<T>>, id: Seq<char>, i: int) -> bool {
    0 <= i < entries.len() && entries[i].id@ == id
}

impl<T> View for Registry<T> {
    type V = Map<Seq<char>, (Seq<char>, T)>;

    closed spec fn view(&self) -> Map<Seq<char>, (Seq<char>, T)> {
        let entries = self.entries@;
        Map::new(
            |id: Seq<char>| exists|i: int| entered_at(entries, id, i),
            |id: Seq<char>|
                {
                    let i = choose|i: int| entered_at(entries, id, i);
                    (entries[i].ticket@, entries[i].handle)
                },
        )
    }
}

/// The entries without that of the activity `id`, where it was entered under `ticket`.
pub open spec fn without<T>(
    entered: Map<Seq<char>, (Seq<char>, T)>,
    id: Seq<char>,
    ticket: Seq<char>,
) -> Map<Seq<char>, (Seq<char>, T)> {
    if entered.contains_key(id) && entered[id].0 == ticket {
        entered.remove(id)
    } else {
        entered
    }
}

impl<T> Registry<T> {
    #[verifier::type_invariant]
    spec fn ids_are_distinct(self) -> bool {
        distinct(self.entries@)
    }

    /// No execution.
    pub fn new() -> (r: Self)
        ensures
            r@ == Map::<Seq<char>, (Seq<char>, T)>::empty(),
    {
        let r = Registry { entries: Vec::new() };
        assert(r@ =~= Map::<Seq<char>, (Seq<char>, T)>::empty()) by {
            assert forall|id: Seq<char>| !r@.contains_key(id) by {
                assert(forall|i: int| !entered_at(r.entries@, id, i));
            }
        }
        r
    }

    /// The position of the activity `id`.
    fn position(&self, id: &str) -> (r: Option<usize>)
        ensures
            match r {
                Some(i) => entered_at(self.entries@, id@, i as int) && self@.contains_key(id@)
                    && self@[id@] == (
                    self.entries@[i as int].ticket@,
                    self.entries@[i as int].handle,
                ),
                None => !self@.contains_key(id@) && forall|i: int|
                    !entered_at(self.entries@, id@, i),
            },
    {
        proof {
            use_type_invariant(self);
        }
        let mut i: usize = 0;
        while i < self.entries.len()
            invariant
                i <= self.entries@.len(),
                forall|j: int| 0 <= j < i ==> self.entries@[j].id@ != id@,
                distinct(self.entries@),
            decreases self.entries@.len() - i,
        {
            if same_text(self.entries[i].id.as_str(), id) {
                proof {
                    assert(entered_at(self.entries@, id@, i as int));
                    let chosen = choose|k: int| entered_at(self.entries@, id@, k);
                    assert(entered_at(self.entries@, id@, chosen));
                    assert(chosen == i);
                }
                return Some(i);
            }
            i = i + 1;
        }
        None
    }

    /// The handle of the execution of the activity `id`.
    pub fn get(&self, id: &str) -> (r: Option<&T>)
        ensures
            match r {
                Some(handle) => self@.contains_key(id@) && self@[id@].1 == *handle,
                None => !self@.contains_key(id@),
            },
    {
        match self.position(id) {
            Some(i) => Some(&self.entries[i].handle),
            None => None,
        }
    }

    /// Enters an execution.
    pub fn enter(&mut self, id: String, ticket: String, handle: T)
        ensures
            final(self)@ == old(self)@.insert(id@, (ticket@, handle)),
    {
        proof {
            use_type_invariant(&*self);
        }
        let found = self.position(id.as_str());
        let ghost before = self.entries@;
        let ghost name = id@;
        let ghost value = (ticket@, handle);
        let mut entries: Vec<Entry<T>> = Vec::new();
        std::mem::swap(&mut entries, &mut self.entries);
        let entry = Entry { id, ticket, handle };
        match found {
            Some(i) => {
                entries.set(i, entry);
                assert(distinct(entries@)) by {
                    assert forall|a: int, b: int| 0 <= a < b < entries@.len() implies entries@[a].id@
                        != entries@[b].id@ by {
                        assert(entries@[a].id@ == before[a].id@);
                        assert(entries@[b].id@ == before[b].id@);
                    }
                }
                self.entries = entries;
                proof {
                    lemma_entered(*old(self), *self, name, value, i as int);
                }
            },
            None => {
                entries.push(entry);
                assert(distinct(entries@)) by {
                    assert forall|a: int, b: int| 0 <= a < b < entries@.len() implies entries@[a].id@
                        != entries@[b].id@ by {
                        assert(entries@[a] == before[a]);
                        if b == before.len() {
                            assert(!entered_at(before, name, a));
                        } else {
                            assert(entries@[b] == before[b]);
                        }
                    }
                }
                self.entries = entries;
                proof {
                    lemma_entered(*old(self), *self, name, value, before.len() as int);
                }
            },
        }
    }

    /// Takes out the execution of the activity `id` if it is the one that was entered under
    /// `ticket`; a later one of the same activity stays.
    pub fn leave(&mut self, id: &str, ticket: &str)
        ensures
            final(self)@ == without(old(self)@, id@, ticket@),
    {
        proof {
            use_type_invariant(&*self);
        }
        if let Some(i) = self.position(id) {
            if same_text(self.entries[i].ticket.as_str(), ticket) {
                let ghost before = self.entries@;
                let mut entries: Vec<Entry<T>> = Vec::new();
                std::mem::swap(&mut entries, &mut self.entries);
                entries.remove(i);
                assert(distinct(entries@)) by {
                    assert forall|a: int, b: int| 0 <= a < b < entries@.len() implies entries@[a].id@
                        != entries@[b].id@ by {
                        let x = if a < i {
                            a
                        } else {
                            a + 1
                        };
                        let y = if b < i {
                            b
                        } else {
                            b + 1
                        };
                        assert(entries@[a] == before[x]);
                        assert(entries@[b] == before[y]);
                    }
                }
                self.entries = entries;
                proof {
                    lemma_left(*old(self), *self, id@, i as int);
                }
            }
        }
    }
}

/// Every activity occurs once.
spec fn distinct<T>(entries: Seq<Entry<T>>) -> bool {
    forall|i: int, j: int| 0 <= i < j < entries.len() ==> entries[i].id@ != entries[j].id@
}

proof fn lemma_entered<T>(
    before: Registry<T>,
    after: Registry<T>,
    id: Seq<char>,
    value: (Seq<char>, T),
    at: int,
)
    requires
        distinct(before.entries@),
        distinct(after.entries@),
        0 <= at < after.entries@.len(),
        after.entries@[at].id@ == id,
        (after.entries@[at].ticket@, after.entries@[at].handle) == value,
        before.entries@.len() == after.entries@.len() && before.entries@[at].id@ == id
            || before.entries@.len() + 1 == after.entries@.len() && at == before.entries@.len(),
        forall|i: int|
            0 <= i < before.entries@.len() && i != at ==> before.entries@[i] == after.entries@[i],
    ensures
        after@ == before@.insert(id, value),
{
    let old_entries = before.entries@;
    let new_entries = after.entries@;
    assert forall|k: Seq<char>|
        #![trigger after@.contains_key(k)]
        after@.contains_key(k) == before@.insert(id, value).contains_key(k) by {
        if after@.contains_key(k) {
            let i = choose|i: int| entered_at(new_entries, k, i);
            assert(entered_at(new_entries, k, i));
            if i != at {
                assert(entered_at(old_entries, k, i));
            }
        }
        if before@.contains_key(k) {
            let i = choose|i: int| entered_at(old_entries, k, i);
            assert(entered_at(old_entries, k, i));
            assert(entered_at(new_entries, k, i));
        }
        assert(entered_at(new_entries, id, at));
    }
    assert forall|k: Seq<char>|
        #![trigger after@[k]]
        after@.contains_key(k) implies after@[k] == before@.insert(id, value)[k] by {
        let i = choose|i: int| entered_at(new_entries, k, i);
        assert(entered_at(new_entries, k, i));
        if k == id {
            assert(i == at);
        } else {
            assert(entered_at(old_entries, k, i));
            let j = choose|j: int| entered_at(old_entries, k, j);
            assert(entered_at(old_entries, k, j));
            assert(i == j);
        }
    }
    assert(after@ =~= before@.insert(id, value));
}

proof fn lemma_left<T>(before: Registry<T>, after: Registry<T>, id: Seq<char>, at: int)
    requires
        distinct(before.entries@),
        distinct(after.entries@),
        0 <= at < before.entries@.len(),
        before.entries@[at].id@ == id,
        after.entries@ == before.entries@.remove(at),
    ensures
        after@ == before@.remove(id),
{
    let old_entries = before.entries@;
    let new_entries = after.entries@;
    assert forall|k: Seq<char>|
        #![trigger after@.contains_key(k)]
        after@.contains_key(k) == before@.remove(id).contains_key(k) by {
        if after@.contains_key(k) {
            let i = choose|i: int| entered_at(new_entries, k, i);
            assert(entered_at(new_entries, k, i));
            let x = if i < at {
                i
            } else {
                i + 1
            };
            assert(new_entries[i] == old_entries[x]);
            assert(entered_at(old_entries, k, x));
        }
        if before@.contains_key(k) && k != id {
            let i = choose|i: int| entered_at(old_entries, k, i);
            assert(entered_at(old_entries, k, i));
            let y = if i < at {
                i
            } else {
                i - 1
            };
            assert(new_entries[y] == old_entries[i]);
            assert(entered_at(new_entries, k, y));
        }
    }
    assert forall|k: Seq<char>|
        #![trigger after@[k]]
        after@.contains_key(k) implies after@[k] == before@.remove(id)[k] by {
        let i = choose|i: int| entered_at(new_entries, k, i);
        assert(entered_at(new_entries, k, i));
        let x = if i < at {
            i
        } else {
            i + 1
        };
        assert(new_entries[i] == old_entries[x]);
        assert(entered_at(old_entries, k, x));
        let j = choose|j: int| entered_at(old_entries, k, j);
        assert(entered_at(old_entries, k, j));
        assert(x == j);
    }
    assert(after@ =~= before@.remove(id));
}

/// An execution that ends takes out its own entry only: where the activity was entered again under
/// another ticket, that entry stays.
pub proof fn law_later_executions_stay<T>(
    entered: Map<Seq<char>, (Seq<char>, T)>,
    id: Seq<char>,
    first: Seq<char>,
    second: Seq<char>,
    handle: T,
)
    requires
        first != second,
    ensures
        ({
            let left = without(entered.insert(id, (second, handle)), id, first);
            left.contains_key(id) && left[id] == (second, handle)
        }),
{
}

/// An execution that ends is taken out under its own ticket, and the executions of all other
/// activities stay; under a ticket that is not the entered one nothing is taken out.
pub proof fn law_leaving<T>(
    entered: Map<Seq<char>, (Seq<char>, T)>,
    id: Seq<char>,
    ticket: Seq<char>,
    other: Seq<char>,
)
    requires
        other != id,
    ensures
        ({
            let left = without(entered, id, ticket);
            &&& entered.contains_key(id) && entered[id].0 == ticket ==> !left.contains_key(id)
            &&& entered.contains_key(id) && entered[id].0 != ticket ==> left.contains_key(id)
                && left[id] == entered[id]
            &&& !entered.contains_key(id) ==> !left.contains_key(id)
            &&& left.contains_key(other) <==> entered.contains_key(other)
            &&& entered.contains_key(other) ==> left[other] == entered[other]
        }),
{
}

} // verus!
