//! The registry of recipients that have not claimed yet.
//!
//! A registry is a set: no identity is in it twice, and the order in which the identities are
//! kept means nothing. Identities only ever leave it.

use vstd::prelude::*;
use crate::error::VestingRoyaleError;
use crate::identity::Identity;

verus! {

/// The recipients of a schedule that are still enrolled.
#[derive(Debug)]
pub struct Registry {
    members: Vec<Identity>,
}

impl View for Registry {
    type V = Set<Identity>;

    /// The enrolled identities.
    closed spec fn view(&self) -> Set<Identity> {
        self.members@.to_set()
    }
}

/// What is left of a duplicate-free sequence when the element at `index` is overwritten by the
/// last one and the last one is dropped.
spec fn without_index(members: Seq<Identity>, index: int) -> Seq<Identity> {
    members.update(index, members.last()).drop_last()
}

/// Overwriting an element by the last one and dropping the last one removes exactly that
/// element, and brings in no duplicate.
proof fn lemma_without_index(members: Seq<Identity>, index: int)
    requires
        members.no_duplicates(),
        0 <= index < members.len(),
    ensures
        without_index(members, index).no_duplicates(),
        without_index(members, index).to_set() == members.to_set().remove(members[index]),
        without_index(members, index).len() == members.len() - 1,
{
    let rest = without_index(members, index);
    let last = members.len() - 1;
    assert forall|id: Identity| rest.to_set().contains(id) == members.to_set().remove(
        members[index],
    ).contains(id) by {
        if rest.contains(id) {
            let k = choose|k: int| 0 <= k < rest.len() && rest[k] == id;
            if k == index {
                assert(members[last] == id);
            } else {
                assert(members[k] == id);
            }
        }
        if members.contains(id) && id != members[index] {
            let m = choose|m: int| 0 <= m < members.len() && members[m] == id;
            if m == last {
                assert(rest[index] == id);
            } else {
                assert(rest[m] == id);
            }
        }
    }
    assert(rest.to_set() =~= members.to_set().remove(members[index]));
}

/// Whether no identity occurs twice in `list`.
pub fn all_distinct(list: &Vec<Identity>) -> (distinct: bool)
    ensures
        distinct == list@.no_duplicates(),
{
    let mut i: usize = 0;
    while i < list.len()
        invariant
            i <= list.len(),
            forall|a: int, b: int| 0 <= a < b < i ==> list@[a] != list@[b],
        decreases list.len() - i,
    {
        let mut j: usize = 0;
        while j < i
            invariant
                j <= i < list.len(),
                forall|a: int| 0 <= a < j ==> list@[a] != list@[i as int],
            decreases i - j,
        {
            if list[j] == list[i] {
                assert(list@[j as int] == list@[i as int]);
                return false;
            }
            j += 1;
        }
        i += 1;
    }
    true
}

impl Registry {
    /// Whether no identity is kept twice.
    pub closed spec fn wf(&self) -> bool {
        self.members@.no_duplicates()
    }

    /// A well-formed registry holds finitely many identities.
    pub proof fn lemma_finite(&self)
        requires
            self.wf(),
        ensures
            self@.finite(),
    {
        vstd::seq_lib::seq_to_set_is_finite(self.members@);
    }

    /// The registry with nobody enrolled.
    pub fn new() -> (registry: Registry)
        ensures
            registry.wf(),
            registry@ == Set::<Identity>::empty(),
    {
        let registry = Registry { members: Vec::new() };
        assert(registry@ =~= Set::<Identity>::empty());
        registry
    }

    /// Enrolls the identities of a list in which none occurs twice.
    pub(crate) fn from_distinct(list: Vec<Identity>) -> (registry: Registry)
        requires
            list@.no_duplicates(),
        ensures
            registry.wf(),
            registry@ == list@.to_set(),
            registry@.len() == list@.len(),
    {
        proof {
            list@.unique_seq_to_set();
        }
        Registry { members: list }
    }

    /// Enrolls the identities of `list`, unless one of them occurs twice.
    pub fn from_list(list: Vec<Identity>) -> (enrolled: Option<Registry>)
        ensures
            enrolled is Some <==> list@.no_duplicates(),
            enrolled matches Some(registry) ==> {
                &&& registry.wf()
                &&& registry@ == list@.to_set()
                &&& registry@.len() == list@.len()
            },
    {
        if all_distinct(&list) {
            Some(Registry::from_distinct(list))
        } else {
            None
        }
    }

    /// How many identities are enrolled.
    pub fn len(&self) -> (count: usize)
        requires
            self.wf(),
        ensures
            count == self@.len(),
    {
        proof {
            self.members@.unique_seq_to_set();
        }
        self.members.len()
    }

    /// Whether nobody is enrolled.
    pub fn is_empty(&self) -> (empty: bool)
        requires
            self.wf(),
        ensures
            empty == self@.is_empty(),
            empty == (self@.len() == 0),
    {
        proof {
            self.members@.unique_seq_to_set();
            if self.members@.len() > 0 {
                assert(self.members@.contains(self.members@[0]));
                assert(self@.contains(self.members@[0]));
            } else {
                assert(self@ =~= Set::<Identity>::empty());
            }
        }
        self.members.len() == 0
    }

    /// Where `identity` is kept, if it is enrolled.
    fn position(&self, identity: &Identity) -> (found: Option<usize>)
        ensures
            match found {
                Some(index) => index < self.members@.len() && self.members@[index as int]
                    == *identity,
                None => !self@.contains(*identity),
            },
    {
        let mut i: usize = 0;
        while i < self.members.len()
            invariant
                i <= self.members.len(),
                forall|k: int| 0 <= k < i ==> self.members@[k] != *identity,
            decreases self.members.len() - i,
        {
            if self.members[i] == *identity {
                return Some(i);
            }
            i += 1;
        }
        None
    }

    /// Whether `identity` is enrolled.
    pub fn contains(&self, identity: &Identity) -> (enrolled: bool)
        ensures
            enrolled == self@.contains(*identity),
    {
        match self.position(identity) {
            Some(index) => {
                assert(self.members@.contains(*identity));
                true
            },
            None => false,
        }
    }

    /// Takes `identity` out of the registry. Fails, and changes nothing, when it is not
    /// enrolled.
    pub fn remove(&mut self, identity: &Identity) -> (removed: Result<(), VestingRoyaleError>)
        requires
            old(self).wf(),
        ensures
            final(self).wf(),
            old(self)@.contains(*identity) ==> removed == Ok::<(), VestingRoyaleError>(())
                && final(self)@ == old(self)@.remove(*identity) && final(self)@.len() == old(
                self,
            )@.len() - 1,
            !old(self)@.contains(*identity) ==> removed == Err::<(), VestingRoyaleError>(
                VestingRoyaleError::RecipientNotFound,
            ) && final(self)@ == old(self)@,
    {
        match self.position(identity) {
            Some(index) => {
                proof {
                    lemma_without_index(self.members@, index as int);
                    self.members@.unique_seq_to_set();
                    without_index(self.members@, index as int).unique_seq_to_set();
                    assert(self.members@.contains(*identity));
                }
                self.members.swap_remove(index);
                Ok(())
            },
            None => Err(VestingRoyaleError::RecipientNotFound),
        }
    }

    /// The enrolled identities, each once, in no particular order.
    pub fn to_vec(&self) -> (list: Vec<Identity>)
        requires
            self.wf(),
        ensures
            list@.no_duplicates(),
            list@.to_set() == self@,
    {
        let mut list: Vec<Identity> = Vec::new();
        let mut i: usize = 0;
        while i < self.members.len()
            invariant
                i <= self.members.len(),
                list@ == self.members@.subrange(0, i as int),
            decreases self.members.len() - i,
        {
            list.push(self.members[i]);
            i += 1;
        }
        assert(list@ =~= self.members@);
        list
    }
}

} // verus!
