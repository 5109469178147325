//! The machine registry: a one-shot lookup table from machine identity to
//! owner identity, with global uniqueness of machine identities.

use crate::account::Identity;
use vstd::prelude::*;

verus! {

/// Whether some entry registers the machine identity `m`.
pub open spec fn reg_contains(entries: Seq<(Seq<u8>, Seq<u8>)>, m: Seq<u8>) -> bool {
    exists|i: int| 0 <= i < entries.len() && entries[i].0 == m
}

/// The owner under which machine identity `m` is registered (the first
/// matching entry; under the uniqueness invariant there is at most one).
pub open spec fn reg_owner_of(entries: Seq<(Seq<u8>, Seq<u8>)>, m: Seq<u8>) -> Seq<u8>
    decreases entries.len(),
{
    if entries.len() == 0 {
        Seq::empty()
    } else if entries[0].0 == m {
        entries[0].1
    } else {
        reg_owner_of(entries.drop_first(), m)
    }
}

/// No machine identity occurs in two entries.
pub open spec fn reg_unique(entries: Seq<(Seq<u8>, Seq<u8>)>) -> bool {
    forall|i: int, j: int|
        0 <= i < entries.len() && 0 <= j < entries.len() && i != j ==> entries[i].0 != entries[j].0
}

/// The registry of machines: which machine identity was registered under
/// which owner identity. An entry is created on first registration and
/// never removed.
pub struct MachineRegister {
    /// The registered (machine, owner) pairs.
    pub entries: Vec<(Identity, Identity)>,
}

impl View for MachineRegister {
    type V = Seq<(Seq<u8>, Seq<u8>)>;

    /// The registry as the sequence of its (machine, owner) byte pairs.
    open spec fn view(&self) -> Seq<(Seq<u8>, Seq<u8>)> {
        self.entries@.map_values(|e: (Identity, Identity)| (e.0@, e.1@))
    }
}

impl MachineRegister {
    /// Internal well-formedness: each machine identity appears at most once.
    pub open spec fn wf(self) -> bool {
        reg_unique(self@)
    }

    /// An empty registry.
    pub fn new() -> (r: MachineRegister)
        ensures
            r.wf(),
            r@ == Seq::<(Seq<u8>, Seq<u8>)>::empty(),
    {
        let r = MachineRegister { entries: Vec::new() };
        proof {
            assert(r@ =~= Seq::<(Seq<u8>, Seq<u8>)>::empty());
        }
        r
    }

    /// How many machines are registered.
    pub fn len(&self) -> (n: usize)
        ensures
            n == self@.len(),
    {
        self.entries.len()
    }

    /// Whether the machine identity already has an entry, under any owner.
    pub fn contains_key(&self, machine: &Identity) -> (r: bool)
        ensures
            r == reg_contains(self@, machine@),
    {
        let n = self.entries.len();
        let mut i: usize = 0;
        while i < n
            invariant
                i <= n,
                n == self@.len(),
                self@.len() == self.entries@.len(),
                forall|j: int| 0 <= j < i ==> self@[j].0 != machine@,
                forall|j: int| 0 <= j < n ==> self@[j].0 == self.entries@[j].0@,
            decreases n - i,
        {
            if self.entries[i].0.equals(machine) {
                proof {
                    assert(self@[i as int].0 == machine@);
                }
                return true;
            }
            i += 1;
        }
        false
    }

    /// The owner the machine identity is registered under, if any.
    pub fn owner_of(&self, machine: &Identity) -> (r: Option<Identity>)
        ensures
            match r {
                Some(owner) => reg_contains(self@, machine@) && owner@ == reg_owner_of(
                    self@,
                    machine@,
                ),
                None => !reg_contains(self@, machine@),
            },
    {
        let n = self.entries.len();
        let mut i: usize = 0;
        while i < n
            invariant
                i <= n,
                n == self@.len(),
                self@.len() == self.entries@.len(),
                forall|j: int| 0 <= j < i ==> self@[j].0 != machine@,
                forall|j: int|
                    0 <= j < n ==> self@[j] == (self.entries@[j].0@, self.entries@[j].1@),
            decreases n - i,
        {
            if self.entries[i].0.equals(machine) {
                proof {
                    lemma_reg_owner_of_first_match(self@, machine@, i as int);
                }
                return Some(self.entries[i].1);
            }
            i += 1;
        }
        None
    }

    /// Adds a registration for a machine identity that has none yet.
    pub fn insert(&mut self, machine: &Identity, owner: &Identity)
        requires
            old(self).wf(),
            !reg_contains(old(self)@, machine@),
        ensures
            final(self).wf(),
            final(self)@ == old(self)@.push((machine@, owner@)),
    {
        self.entries.push((*machine, *owner));
        proof {
            assert(final(self)@ =~= old(self)@.push((machine@, owner@)));
            assert forall|i: int, j: int|
                0 <= i < final(self)@.len() && 0 <= j < final(self)@.len() && i
                    != j implies final(self)@[i].0 != final(self)@[j].0 by {
                if i < old(self)@.len() && j < old(self)@.len() {
                    assert(old(self)@[i].0 != old(self)@[j].0);
                } else if i < old(self)@.len() {
                    assert(!(old(self)@[i].0 == machine@)) by {
                        assert(reg_contains(old(self)@, old(self)@[i].0));
                    }
                } else {
                    assert(!(old(self)@[j].0 == machine@)) by {
                        assert(reg_contains(old(self)@, old(self)@[j].0));
                    }
                }
            };
        }
    }
}

/// If entry `i` is the first whose machine identity is `m`, the registered
/// owner is that entry's owner.
pub proof fn lemma_reg_owner_of_first_match(entries: Seq<(Seq<u8>, Seq<u8>)>, m: Seq<u8>, i: int)
    requires
        0 <= i < entries.len(),
        entries[i].0 == m,
        forall|j: int| 0 <= j < i ==> entries[j].0 != m,
    ensures
        reg_owner_of(entries, m) == entries[i].1,
    decreases entries.len(),
{
    if i > 0 {
        lemma_reg_owner_of_first_match(entries.drop_first(), m, i - 1);
    }
}

/// Machine uniqueness: in a well-formed registry a machine identity names
/// at most one entry, whatever owner each entry carries.
pub proof fn lemma_machine_uniqueness(r: MachineRegister, m: Seq<u8>, i: int, j: int)
    requires
        r.wf(),
        0 <= i < r@.len(),
        0 <= j < r@.len(),
        r@[i].0 == m,
        r@[j].0 == m,
    ensures
        i == j,
{
}

} // verus!
