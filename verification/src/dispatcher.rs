//! The per-attach-point dispatcher state machine.
//!
//! A dispatcher owns the ordered list of programs sharing one attach point
//! and the single in-kernel program that tail-calls them.  The list is kept
//! strictly sorted by `(priority, kernel id)`, so a program's slot position
//! is its index; positions are therefore always the dense range `0..n`.
//! The in-kernel dispatcher is sized by a discrete capacity class, and every
//! mutation reports the kernel work it requires as a [`DispatcherAction`],
//! which never detaches the attach point while programs remain.

use vstd::prelude::*;

use crate::errors::BpfmanError;

verus! {

/// The largest capacity class: no dispatcher holds more programs.
pub const DISPATCHER_MAX_SLOTS: usize = 16;

/// One slot-owning program: its ordering priority and its kernel id.
#[derive(Clone, Copy, Debug, PartialEq, Eq, Structural)]
pub struct DispatcherEntry {
    pub priority: i32,
    pub id: u32,
}

/// The strict `(priority, id)` order; the id breaks priority ties, so two
/// distinct programs are always ordered.
pub open spec fn entry_lt(a: DispatcherEntry, b: DispatcherEntry) -> bool {
    a.priority < b.priority || (a.priority == b.priority && a.id < b.id)
}

/// The smallest capacity class that holds `n` programs.
pub open spec fn spec_capacity_class(n: int) -> int
    recommends
        1 <= n <= DISPATCHER_MAX_SLOTS,
{
    if n <= 1 {
        1
    } else if n <= 2 {
        2
    } else if n <= 4 {
        4
    } else if n <= 8 {
        8
    } else {
        16
    }
}

/// Exec counterpart of [`spec_capacity_class`].
pub fn capacity_class(n: usize) -> (r: usize)
    requires
        1 <= n <= DISPATCHER_MAX_SLOTS,
    ensures
        r == spec_capacity_class(n as int),
{
    if n <= 1 {
        1
    } else if n <= 2 {
        2
    } else if n <= 4 {
        4
    } else if n <= 8 {
        8
    } else {
        16
    }
}

/// The in-kernel work a dispatcher mutation requires.  There is no action
/// that leaves the attach point without a dispatcher while programs remain:
/// a rebuild replaces the old dispatcher atomically.
#[derive(Clone, Copy, Debug, PartialEq, Eq, Structural)]
pub enum DispatcherAction {
    /// Load a dispatcher sized for `size` slots, fill its tail-call map
    /// with every program in list order, and atomically replace the old one.
    Rebuild { size: usize },
    /// Overwrite the tail-call map entries for positions `pos..n`; the
    /// in-kernel dispatcher itself is unchanged.
    PatchFrom { pos: usize },
    /// The list is empty: detach and unpin the dispatcher.
    Destroy,
}

/// The dispatcher state for one attach-point key.
#[derive(Clone, Debug)]
pub struct Dispatcher {
    pub entries: Vec<DispatcherEntry>,
    pub capacity: usize,
}

impl Dispatcher {
    /// The list is non-empty, strictly sorted by `(priority, id)`, holds
    /// each id once, and the capacity class fits it exactly.
    pub open spec fn wf(&self) -> bool {
        &&& 1 <= self.entries@.len() <= DISPATCHER_MAX_SLOTS
        &&& forall|i: int, j: int|
            #![trigger self.entries@[i], self.entries@[j]]
            0 <= i < j < self.entries@.len() ==> entry_lt(self.entries@[i], self.entries@[j])
        &&& forall|i: int, j: int|
            #![trigger self.entries@[i].id, self.entries@[j].id]
            0 <= i < j < self.entries@.len() ==> self.entries@[i].id != self.entries@[j].id
        &&& self.capacity == spec_capacity_class(self.entries@.len() as int)
    }

    /// Whether some entry carries this id.
    pub open spec fn spec_contains_id(&self, id: u32) -> bool {
        exists|i: int| 0 <= i < self.entries@.len() && self.entries@[i].id == id
    }

    /// A dispatcher for the first program on an attach point; the kernel
    /// work is a rebuild at the smallest class.
    pub fn new(entry: DispatcherEntry) -> (r: (Dispatcher, DispatcherAction))
        ensures
            r.0.wf(),
            r.0.entries@ =~= seq![entry],
            r.1 == (DispatcherAction::Rebuild { size: 1usize }),
    {
        let mut entries: Vec<DispatcherEntry> = Vec::new();
        entries.push(entry);
        (Dispatcher { entries, capacity: 1 }, DispatcherAction::Rebuild { size: 1 })
    }

    /// The slot position of the program with this id.
    pub fn position_of(&self, id: u32) -> (r: Option<usize>)
        ensures
            r matches Some(pos) ==> pos < self.entries@.len() && self.entries@[pos as int].id
                == id,
            r is None <==> !self.spec_contains_id(id),
    {
        let mut k: usize = 0;
        while k < self.entries.len()
            invariant
                k <= self.entries@.len(),
                forall|i: int| 0 <= i < k ==> self.entries@[i].id != id,
            decreases self.entries@.len() - k,
        {
            if self.entries[k].id == id {
                return Some(k);
            }
            k += 1;
        }
        None
    }

    /// Inserts a program into the ordered list.
    ///
    /// On success the pair gives the new program's position and the kernel
    /// work: a rebuild at the next class when the list outgrew the current
    /// dispatcher, else a patch of the slots from the new position on.
    /// When the largest class is already full the insert fails with
    /// `NoCapacity` and the state is unchanged.
    pub fn insert(&mut self, entry: DispatcherEntry) -> (r: Result<
        (usize, DispatcherAction),
        BpfmanError,
    >)
        requires
            old(self).wf(),
            !old(self).spec_contains_id(entry.id),
        ensures
            r is Err <==> old(self).entries@.len() == DISPATCHER_MAX_SLOTS,
            r matches Err(e) ==> e matches BpfmanError::NoCapacity && *final(self) == *old(self),
            r matches Ok((pos, act)) ==> {
                &&& final(self).wf()
                &&& 0 <= pos <= old(self).entries@.len()
                &&& final(self).entries@ =~= old(self).entries@.subrange(0, pos as int).push(
                    entry,
                ) + old(self).entries@.subrange(pos as int, old(self).entries@.len() as int)
                &&& final(self).entries@.len() == old(self).entries@.len() + 1
                &&& final(self).entries@[pos as int] == entry
                &&& forall|i: int| 0 <= i < pos ==> entry_lt(#[trigger] old(self).entries@[i], entry)
                &&& forall|i: int|
                    pos <= i < old(self).entries@.len() ==> entry_lt(
                        entry,
                        #[trigger] old(self).entries@[i],
                    )
                &&& act == if final(self).capacity > old(self).capacity {
                    DispatcherAction::Rebuild { size: final(self).capacity }
                } else {
                    DispatcherAction::PatchFrom { pos }
                }
                &&& final(self).capacity >= old(self).capacity
            },
    {
        if self.entries.len() >= DISPATCHER_MAX_SLOTS {
            return Err(BpfmanError::NoCapacity);
        }
        let ghost old_entries = self.entries@;
        let mut pos: usize = 0;
        loop
            invariant
                self.entries@ == old_entries,
                pos <= self.entries@.len(),
                self.entries@.len() < DISPATCHER_MAX_SLOTS,
                forall|i: int| 0 <= i < pos ==> entry_lt(#[trigger] self.entries@[i], entry),
                forall|i: int, j: int|
                    #![trigger self.entries@[i], self.entries@[j]]
                    0 <= i < j < self.entries@.len() ==> entry_lt(
                        self.entries@[i],
                        self.entries@[j],
                    ),
                forall|i: int| 0 <= i < self.entries@.len() ==> #[trigger] self.entries@[i].id
                    != entry.id,
            ensures
                self.entries@ == old_entries,
                pos <= self.entries@.len(),
                forall|i: int| 0 <= i < pos ==> entry_lt(#[trigger] self.entries@[i], entry),
                pos < self.entries@.len() ==> !entry_lt(self.entries@[pos as int], entry),
            decreases self.entries@.len() - pos,
        {
            if pos >= self.entries.len() {
                break ;
            }
            let e = self.entries[pos];
            if e.priority < entry.priority || (e.priority == entry.priority && e.id < entry.id) {
                pos += 1;
            } else {
                break ;
            }
        }
        proof {
            assert forall|i: int|
                pos <= i < self.entries@.len() implies entry_lt(
                entry,
                #[trigger] self.entries@[i],
            ) by {
                assert(!entry_lt(self.entries@[pos as int], entry));
                assert(self.entries@[pos as int].id != entry.id);
                assert(entry_lt(entry, self.entries@[pos as int]));
                if i > pos {
                    assert(entry_lt(self.entries@[pos as int], self.entries@[i]));
                }
            }
        }
        self.entries.insert(pos, entry);
        let n = self.entries.len();
        let old_capacity = self.capacity;
        let new_capacity = capacity_class(n);
        self.capacity = new_capacity;
        proof {
            assert(final(self).entries@ =~= old_entries.subrange(0, pos as int).push(entry)
                + old_entries.subrange(pos as int, old_entries.len() as int));
        }
        if new_capacity > old_capacity {
            Ok((pos, DispatcherAction::Rebuild { size: new_capacity }))
        } else {
            proof {
                assert(new_capacity == old_capacity);
            }
            Ok((pos, DispatcherAction::PatchFrom { pos }))
        }
    }

    /// Removes the program with this id from the ordered list.
    ///
    /// On success the pair gives the vacated position and the kernel work:
    /// a destroy when the list emptied, a rebuild at the smaller class when
    /// one now suffices, else a patch of the slots from the vacated
    /// position on.  An unknown id returns `None` and changes nothing.
    pub fn remove(&mut self, id: u32) -> (r: Option<(usize, DispatcherAction)>)
        requires
            old(self).wf(),
        ensures
            r is None <==> !old(self).spec_contains_id(id),
            r is None ==> *final(self) == *old(self),
            r matches Some((pos, act)) ==> {
                &&& 0 <= pos < old(self).entries@.len()
                &&& old(self).entries@[pos as int].id == id
                &&& final(self).entries@ =~= old(self).entries@.subrange(0, pos as int) + old(
                    self,
                ).entries@.subrange(pos as int + 1, old(self).entries@.len() as int)
                &&& final(self).entries@.len() + 1 == old(self).entries@.len()
                &&& act == if old(self).entries@.len() == 1 {
                    DispatcherAction::Destroy
                } else if spec_capacity_class(final(self).entries@.len() as int) < old(
                    self,
                ).capacity {
                    DispatcherAction::Rebuild {
                        size: spec_capacity_class(final(self).entries@.len() as int) as usize,
                    }
                } else {
                    DispatcherAction::PatchFrom { pos }
                }
                &&& final(self).entries@.len() > 0 ==> final(self).wf()
                &&& final(self).entries@.len() == 0 <==> act == DispatcherAction::Destroy
            },
    {
        let pos = match self.position_of(id) {
            Some(p) => p,
            None => {
                return None;
            },
        };
        let ghost old_entries = self.entries@;
        self.entries.remove(pos);
        proof {
            assert(self.entries@ =~= old_entries.subrange(0, pos as int) + old_entries.subrange(
                pos as int + 1,
                old_entries.len() as int,
            ));
        }
        if self.entries.len() == 0 {
            return Some((pos, DispatcherAction::Destroy));
        }
        let old_capacity = self.capacity;
        let new_capacity = capacity_class(self.entries.len());
        self.capacity = new_capacity;
        proof {
            assert forall|i: int, j: int|
                #![trigger final(self).entries@[i], final(self).entries@[j]]
                0 <= i < j < final(self).entries@.len() implies entry_lt(
                final(self).entries@[i],
                final(self).entries@[j],
            ) by {
                let oi = if i < pos {
                    i
                } else {
                    i + 1
                };
                let oj = if j < pos {
                    j
                } else {
                    j + 1
                };
                assert(final(self).entries@[i] == old_entries[oi]);
                assert(final(self).entries@[j] == old_entries[oj]);
            }
            assert forall|i: int, j: int|
                #![trigger final(self).entries@[i].id, final(self).entries@[j].id]
                0 <= i < j < final(self).entries@.len() implies final(self).entries@[i].id
                != final(self).entries@[j].id by {
                let oi = if i < pos {
                    i
                } else {
                    i + 1
                };
                let oj = if j < pos {
                    j
                } else {
                    j + 1
                };
                assert(final(self).entries@[i] == old_entries[oi]);
                assert(final(self).entries@[j] == old_entries[oj]);
            }
        }
        if new_capacity < old_capacity {
            Some((pos, DispatcherAction::Rebuild { size: new_capacity }))
        } else {
            proof {
                assert(new_capacity == old_capacity);
            }
            Some((pos, DispatcherAction::PatchFrom { pos }))
        }
    }
}

/// Two well-formed dispatchers holding the same programs hold them in the
/// same order: the `(priority, id)` sort is deterministic, so a rebuild
/// from persisted state reproduces the original slot assignment.
pub proof fn lemma_order_deterministic(a: Dispatcher, b: Dispatcher)
    requires
        a.wf(),
        b.wf(),
        a.entries@.to_multiset() == b.entries@.to_multiset(),
    ensures
        a.entries@ =~= b.entries@,
    decreases a.entries@.len(),
{
    lemma_sorted_multiset_eq(a.entries@, b.entries@);
}

/// Strictly sorted sequences with equal multisets are equal.
proof fn lemma_sorted_multiset_eq(a: Seq<DispatcherEntry>, b: Seq<DispatcherEntry>)
    requires
        forall|i: int, j: int|
            #![trigger a[i], a[j]]
            0 <= i < j < a.len() ==> entry_lt(a[i], a[j]),
        forall|i: int, j: int|
            #![trigger b[i], b[j]]
            0 <= i < j < b.len() ==> entry_lt(b[i], b[j]),
        a.to_multiset() == b.to_multiset(),
    ensures
        a =~= b,
    decreases a.len(),
{
    broadcast use vstd::seq_lib::group_to_multiset_ensures;

    if a.len() == 0 {
        assert(b.to_multiset().len() == 0);
        assert(b.len() == 0);
    } else {
        assert(a.to_multiset().contains(a[0]));
        assert(b.to_multiset().contains(a[0]));
        let j0 = choose|j: int| 0 <= j < b.len() && b[j] == a[0];
        assert(b.to_multiset().contains(b[0]));
        assert(a.to_multiset().contains(b[0]));
        let i0 = choose|i: int| 0 <= i < a.len() && a[i] == b[0];
        // the least element of equal multisets is the same
        if j0 > 0 {
            assert(entry_lt(b[0], b[j0]));
        }
        if i0 > 0 {
            assert(entry_lt(a[0], a[i0]));
        }
        assert(a[0] == b[0]) by {
            if a[0] != b[0] {
                assert(entry_lt(b[0], a[0]) || entry_lt(a[0], b[0]) || a[0] == b[0]);
            }
        }
        assert(a.drop_first() =~= a.remove(0));
        assert(b.drop_first() =~= b.remove(0));
        assert(a.remove(0).to_multiset() =~= a.to_multiset().remove(a[0]));
        assert(b.remove(0).to_multiset() =~= b.to_multiset().remove(b[0]));
        assert(a.drop_first().to_multiset() =~= a.to_multiset().remove(a[0]));
        assert(b.drop_first().to_multiset() =~= b.to_multiset().remove(b[0]));
        assert(forall|i: int, j: int|
            #![trigger a.drop_first()[i], a.drop_first()[j]]
            0 <= i < j < a.drop_first().len() ==> entry_lt(a.drop_first()[i], a.drop_first()[j]));
        assert(forall|i: int, j: int|
            #![trigger b.drop_first()[i], b.drop_first()[j]]
            0 <= i < j < b.drop_first().len() ==> entry_lt(b.drop_first()[i], b.drop_first()[j]));
        lemma_sorted_multiset_eq(a.drop_first(), b.drop_first());
        assert(a =~= seq![a[0]] + a.drop_first());
        assert(b =~= seq![b[0]] + b.drop_first());
    }
}

} // verus!
