//! The single-writer coordinator owning every tracked program.
//!
//! The manager serializes all mutation: it owns the catalog mirror, the
//! per-attach-point dispatchers and the map-pin registry, and every
//! operation leaves the joint well-formedness invariant intact.  Kernel
//! work is reported to the caller as [`DispatcherAction`] values; the
//! surrounding process performs the syscalls and hands back plain values.

use vstd::prelude::*;

use crate::dispatcher::{entry_lt, Dispatcher, DispatcherAction, DispatcherEntry};
use crate::errors::BpfmanError;
use crate::strutil::u32_to_string;
use crate::types::{DispatcherId, KernelProgramInfo, Program};

verus! {

/// One shared map-pin directory: the owning program id and every program
/// (owner included) currently using it.
#[derive(Clone, Debug)]
pub struct BpfMap {
    pub used_by: Vec<u32>,
}

/// The manager state: catalog mirror, dispatcher registry, map registry.
pub struct BpfManager {
    pub programs: Vec<Program>,
    pub dispatchers: Vec<(DispatcherId, Dispatcher)>,
    pub maps: Vec<(u32, BpfMap)>,
}

/// Whether some program in the list carries this kernel id.
pub open spec fn progs_contain_id(programs: Seq<Program>, id: u32) -> bool {
    exists|i: int| 0 <= i < programs.len() && programs[i].spec_id() == Some(id)
}

/// Whether a program of the list backs this slot entry of this key:
/// same id, same key, same priority.
pub open spec fn entry_backed(
    programs: Seq<Program>,
    key: DispatcherId,
    ent: DispatcherEntry,
) -> bool {
    exists|p: int|
        0 <= p < programs.len() && (#[trigger] programs[p]).spec_id() == Some(ent.id)
            && programs[p].spec_dispatcher_id() == Some(key) && programs[p].spec_priority()
            == Some(ent.priority)
}

impl BpfManager {
    /// Kernel ids are unique and every tracked program has one.
    pub open spec fn ids_ok(&self) -> bool {
        &&& forall|i: int|
            0 <= i < self.programs@.len() ==> (#[trigger] self.programs@[i]).spec_id() is Some
        &&& forall|i: int, j: int|
            #![trigger self.programs@[i].spec_id(), self.programs@[j].spec_id()]
            0 <= i < j < self.programs@.len() ==> self.programs@[i].spec_id()
                != self.programs@[j].spec_id()
    }

    /// Dispatcher keys are unique and each dispatcher is well-formed.
    pub open spec fn dispatchers_ok(&self) -> bool {
        &&& forall|i: int, j: int|
            #![trigger self.dispatchers@[i].0, self.dispatchers@[j].0]
            0 <= i < j < self.dispatchers@.len() ==> self.dispatchers@[i].0
                != self.dispatchers@[j].0
        &&& forall|i: int|
            0 <= i < self.dispatchers@.len() ==> (#[trigger] self.dispatchers@[i].1).wf()
    }

    /// Every dispatcher slot is backed by a tracked program.
    pub open spec fn slots_backed(&self) -> bool {
        forall|d: int, k: int|
            0 <= d < self.dispatchers@.len() && 0 <= k < (
            #[trigger] self.dispatchers@[d].1.entries@[k],
            self.dispatchers@[d].1.entries@.len(),
            ).1 ==> entry_backed(
                self.programs@,
                self.dispatchers@[d].0,
                self.dispatchers@[d].1.entries@[k],
            )
    }

    /// Every tracked XDP or TC program is attached through its key's
    /// dispatcher, and its recorded position is its slot index there.
    pub open spec fn prog_position_ok(&self, p: int) -> bool {
        match self.programs@[p].spec_mp_state() {
            Some((pos, ifx, att)) => {
                &&& ifx is Some
                &&& att
                &&& pos is Some
                &&& exists|d: int|
                    0 <= d < self.dispatchers@.len() && (#[trigger] self.dispatchers@[d]).0
                        == self.programs@[p].spec_dispatcher_id()->Some_0
                &&& forall|d: int|
                    0 <= d < self.dispatchers@.len() && (#[trigger] self.dispatchers@[d]).0
                        == self.programs@[p].spec_dispatcher_id()->Some_0 ==> {
                        &&& pos->Some_0 < self.dispatchers@[d].1.entries@.len()
                        &&& self.dispatchers@[d].1.entries@[pos->Some_0 as int].id
                            == self.programs@[p].spec_id()->Some_0
                        &&& Some(self.dispatchers@[d].1.entries@[pos->Some_0 as int].priority)
                            == self.programs@[p].spec_priority()
                    }
            },
            None => true,
        }
    }

    /// All positions are consistent with the dispatchers.
    pub open spec fn positions_ok(&self) -> bool {
        forall|p: int| 0 <= p < self.programs@.len() ==> #[trigger] self.prog_position_ok(p)
    }

    /// Map registry entries are keyed uniquely and each directory's user
    /// list starts with its owner.
    pub open spec fn maps_ok(&self) -> bool {
        &&& forall|i: int, j: int|
            #![trigger self.maps@[i].0, self.maps@[j].0]
            0 <= i < j < self.maps@.len() ==> self.maps@[i].0 != self.maps@[j].0
        &&& forall|i: int|
            0 <= i < self.maps@.len() ==> (#[trigger] self.maps@[i]).1.used_by@.len() >= 1
                && self.maps@[i].1.used_by@[0] == self.maps@[i].0
        &&& forall|i: int|
            0 <= i < self.maps@.len() ==> progs_contain_id(
                self.programs@,
                (#[trigger] self.maps@[i]).0,
            )
    }

    /// The joint invariant every operation preserves.
    pub open spec fn wf(&self) -> bool {
        &&& self.ids_ok()
        &&& self.dispatchers_ok()
        &&& self.slots_backed()
        &&& self.positions_ok()
        &&& self.maps_ok()
    }

    /// Whether this kernel id is tracked.
    pub open spec fn spec_contains_id(&self, id: u32) -> bool {
        progs_contain_id(self.programs@, id)
    }

    /// An empty manager, as a fresh daemon starts with.
    pub fn new() -> (r: Self)
        ensures
            r.wf(),
            r.programs@.len() == 0,
            r.dispatchers@.len() == 0,
            r.maps@.len() == 0,
    {
        BpfManager { programs: Vec::new(), dispatchers: Vec::new(), maps: Vec::new() }
    }

    /// The index of the tracked program with this id.
    pub fn find_program_index(&self, id: u32) -> (r: Option<usize>)
        ensures
            r matches Some(i) ==> i < self.programs@.len() && self.programs@[i as int].spec_id()
                == Some(id),
            r is None <==> !self.spec_contains_id(id),
    {
        let mut k: usize = 0;
        while k < self.programs.len()
            invariant
                k <= self.programs@.len(),
                forall|i: int| 0 <= i < k ==> (#[trigger] self.programs@[i]).spec_id() != Some(id),
            decreases self.programs@.len() - k,
        {
            let found = match &self.programs[k] {
                Program::Unsupported(i) => i.id == id,
                p => {
                    match p.data() {
                        Ok(d) => {
                            match d.id {
                                Some(pid) => pid == id,
                                None => false,
                            }
                        },
                        Err(_) => false,
                    }
                },
            };
            if found {
                return Some(k);
            }
            k += 1;
        }
        None
    }

    /// The index of the dispatcher owning this attach-point key.
    pub fn find_dispatcher_index(&self, key: DispatcherId) -> (r: Option<usize>)
        ensures
            r matches Some(i) ==> i < self.dispatchers@.len() && self.dispatchers@[i as int].0
                == key,
            r is None <==> !(exists|i: int|
                0 <= i < self.dispatchers@.len() && (#[trigger] self.dispatchers@[i]).0 == key),
    {
        let mut k: usize = 0;
        while k < self.dispatchers.len()
            invariant
                k <= self.dispatchers@.len(),
                forall|i: int| 0 <= i < k ==> (#[trigger] self.dispatchers@[i]).0 != key,
            decreases self.dispatchers@.len() - k,
        {
            if self.dispatchers[k].0 == key {
                return Some(k);
            }
            k += 1;
        }
        None
    }

    /// The index of the map registry entry owned by this id.
    pub fn find_map_index(&self, owner: u32) -> (r: Option<usize>)
        ensures
            r matches Some(i) ==> i < self.maps@.len() && self.maps@[i as int].0 == owner,
            r is None <==> !(exists|i: int|
                0 <= i < self.maps@.len() && (#[trigger] self.maps@[i]).0 == owner),
    {
        let mut k: usize = 0;
        while k < self.maps.len()
            invariant
                k <= self.maps@.len(),
                forall|i: int| 0 <= i < k ==> (#[trigger] self.maps@[i]).0 != owner,
            decreases self.maps@.len() - k,
        {
            if self.maps[k].0 == owner {
                return Some(k);
            }
            k += 1;
        }
        None
    }

    /// Serves `Get`: the tracked program with this id, or `NotFound`.
    pub fn get_program(&self, id: u32) -> (r: Result<&Program, BpfmanError>)
        ensures
            r matches Ok(p) ==> self.spec_contains_id(id) && p.spec_id() == Some(id) && exists|
                i: int,
            | 0 <= i < self.programs@.len() && *p == self.programs@[i],
            r is Err <==> !self.spec_contains_id(id),
            r matches Err(e) ==> e matches BpfmanError::NotFound,
    {
        match self.find_program_index(id) {
            Some(i) => {
                let p = &self.programs[i];
                proof {
                    assert(*p == self.programs@[i as int]);
                }
                Ok(p)
            },
            None => Err(BpfmanError::NotFound),
        }
    }

    /// Serves `List`: every tracked program, in catalog order.  Filtering
    /// happens at the response layer.
    pub fn list_programs(&self) -> (r: &Vec<Program>)
        ensures
            r@ == self.programs@,
    {
        &self.programs
    }

    /// The map-pin directory for an owner id.
    pub fn map_pin_dir(owner: u32) -> (r: String)
        ensures
            r@ == "/run/bpfman/fs/maps/"@ + crate::strutil::dec_str(owner as int),
    {
        let mut s = String::from_str("/run/bpfman/fs/maps/");
        let d = u32_to_string(owner);
        s.append(d.as_str());
        s
    }
}


/// Whether two programs differ at most in position and attached flag.
pub open spec fn same_except_mp(a: Program, b: Program) -> bool {
    &&& crate::types::same_shape(a, b)
    &&& b.spec_id() == a.spec_id()
    &&& b.spec_data() == a.spec_data()
    &&& b.spec_priority() == a.spec_priority()
    &&& b.spec_dispatcher_id() == a.spec_dispatcher_id()
    &&& b.spec_kernel_info() == a.spec_kernel_info()
    &&& b.spec_iface() == a.spec_iface()
    &&& b.spec_xdp_proceed_on() == a.spec_xdp_proceed_on()
    &&& b.spec_tc_proceed_on() == a.spec_tc_proceed_on()
    &&& b.spec_direction() == a.spec_direction()
    &&& match (a.spec_mp_state(), b.spec_mp_state()) {
        (Some(sa), Some(sb)) => sb.1 == sa.1,
        (None, None) => true,
        _ => false,
    }
}

impl BpfManager {
    /// The attach-point key of a program, when its interface is resolved.
    fn key_of(program: &Program) -> (r: Option<DispatcherId>)
        ensures
            r == program.spec_dispatcher_id(),
    {
        match program {
            Program::Xdp(p) => match p.if_index {
                Some(i) => Some(DispatcherId::Xdp { if_index: i }),
                None => None,
            },
            Program::Tc(p) => match p.if_index {
                Some(i) => Some(DispatcherId::Tc { if_index: i, direction: p.direction }),
                None => None,
            },
            _ => None,
        }
    }

    /// The kernel id of a tracked program.
    fn id_of(program: &Program) -> (r: Option<u32>)
        ensures
            r == program.spec_id(),
    {
        match program {
            Program::Unsupported(i) => Some(i.id),
            p => {
                match p.data() {
                    Ok(d) => d.id,
                    Err(_) => None,
                }
            },
        }
    }

    /// Rewrites the recorded position of every program sharing dispatcher
    /// `d`'s attach point to its slot index there, and marks it attached.
    fn sync_positions(&mut self, d: usize)
        requires
            d < old(self).dispatchers@.len(),
            forall|p: int|
                0 <= p < old(self).programs@.len() && (#[trigger] old(self).programs@[p]).spec_dispatcher_id() == Some(old(self).dispatchers@[d as int].0)
                    ==> old(self).programs@[p].spec_id() is Some && old(self).dispatchers@[d as int].1.spec_contains_id(old(self).programs@[p].spec_id()->Some_0),
        ensures
            final(self).dispatchers@ == old(self).dispatchers@,
            final(self).maps@ == old(self).maps@,
            final(self).programs@.len() == old(self).programs@.len(),
            forall|p: int|
                0 <= p < old(self).programs@.len() ==> same_except_mp(
                    old(self).programs@[p],
                    #[trigger] final(self).programs@[p],
                ),
            forall|p: int|
                0 <= p < old(self).programs@.len() && (#[trigger] old(self).programs@[p]).spec_dispatcher_id() != Some(old(self).dispatchers@[d as int].0)
                    ==> final(self).programs@[p] == old(self).programs@[p],
            forall|p: int|
                0 <= p < old(self).programs@.len() && (#[trigger] old(self).programs@[p]).spec_dispatcher_id() == Some(old(self).dispatchers@[d as int].0)
                    ==> (final(self).programs@[p].spec_mp_state() matches Some((pos, ifx, att))
                    && att && (pos matches Some(k) && k < old(self).dispatchers@[d as int].1.entries@.len() && old(self).dispatchers@[d as int].1.entries@[k as int].id == old(self).programs@[p].spec_id()->Some_0)),
    {
        let ghost old_programs = self.programs@;
        let key = self.dispatchers[d].0;
        let mut i: usize = 0;
        while i < self.programs.len()
            invariant
                d < self.dispatchers@.len(),
                self.dispatchers@ == old(self).dispatchers@,
                self.maps@ == old(self).maps@,
                key == self.dispatchers@[d as int].0,
                i <= self.programs@.len(),
                self.programs@.len() == old_programs.len(),
                old_programs == old(self).programs@,
                forall|p: int|
                    0 <= p < old_programs.len() && (#[trigger] old_programs[p]).spec_dispatcher_id()
                        == Some(key) ==> old_programs[p].spec_id() is Some && self.dispatchers@[d
                        as int].1.spec_contains_id(old_programs[p].spec_id()->Some_0),
                forall|p: int| i <= p < old_programs.len() ==> self.programs@[p] == old_programs[p],
                forall|p: int|
                    0 <= p < i ==> same_except_mp(old_programs[p], #[trigger] self.programs@[p]),
                forall|p: int|
                    0 <= p < i && (#[trigger] old_programs[p]).spec_dispatcher_id() != Some(key)
                        ==> self.programs@[p] == old_programs[p],
                forall|p: int|
                    0 <= p < i && (#[trigger] old_programs[p]).spec_dispatcher_id() == Some(key)
                        ==> (self.programs@[p].spec_mp_state() matches Some((pos, ifx, att)) && att
                        && (pos matches Some(k) && k
                            < self.dispatchers@[d as int].1.entries@.len()
                        && self.dispatchers@[d as int].1.entries@[k as int].id
                        == old_programs[p].spec_id()->Some_0)),
            decreases self.programs@.len() - i,
        {
            let pkey = Self::key_of(&self.programs[i]);
            let is_on_key = match pkey {
                Some(pk) => pk == key,
                None => false,
            };
            if is_on_key {
                proof {
                    assert(self.programs@[i as int] == old_programs[i as int]);
                    assert(old_programs[i as int].spec_dispatcher_id() == Some(key));
                    assert(old_programs[i as int].spec_id() is Some);
                    assert(self.dispatchers@[d as int].1.spec_contains_id(old_programs[i
                        as int].spec_id()->Some_0));
                }
                let pid = match Self::id_of(&self.programs[i]) {
                    Some(x) => x,
                    None => {
                        proof {
                            assert(false);
                        }
                        0
                    },
                };
                match self.dispatchers[d].1.position_of(pid) {
                    Some(k) => {
                        self.programs[i].set_position(Some(k));
                        self.programs[i].set_attached();
                    },
                    None => {
                        proof {
                            assert(false);
                        }
                    },
                }
            }
            i += 1;
        }
    }
}


/// The validation outcome of a load request against the current state:
/// 0 accepts; each other value names the check that rejects it.
pub open spec fn spec_add_outcome(m: &BpfManager, program: Program, id: u32) -> int {
    if program matches Program::Unsupported(_) {
        1
    } else if m.spec_contains_id(id) {
        2
    } else if (program matches Program::Xdp(_) || program matches Program::Tc(_))
        && program.spec_dispatcher_id() is None {
        3
    } else if program.spec_data()->Some_0.map_owner_id matches Some(o) && !(exists|i: int|
        0 <= i < m.maps@.len() && (#[trigger] m.maps@[i]).0 == o) {
        4
    } else if program.spec_dispatcher_id() matches Some(key) && (exists|dd: int|
        0 <= dd < m.dispatchers@.len() && (#[trigger] m.dispatchers@[dd]).0 == key
            && m.dispatchers@[dd].1.entries@.len() >= 16) {
        5
    } else {
        0
    }
}

impl BpfManager {
    /// Commits a multi-program load: inserts the program into its attach
    /// point's dispatcher (creating the dispatcher for a first program),
    /// records it in the catalog, and rewrites positions.  The map
    /// registry is untouched.
    #[verifier::rlimit(60)]
    #[verifier::spinoff_prover]
    fn commit_mp(
        &mut self,
        program: Program,
        key: DispatcherId,
        priority: i32,
        id: u32,
        di_opt: Option<usize>,
    ) -> (act: DispatcherAction)
        requires
            old(self).wf(),
            program matches Program::Xdp(_) || program matches Program::Tc(_),
            program.spec_dispatcher_id() == Some(key),
            program.spec_priority() == Some(priority),
            program.spec_id() == Some(id),
            !old(self).spec_contains_id(id),
            di_opt matches Some(di) ==> di < old(self).dispatchers@.len() && old(self).dispatchers@[di as int].0 == key && old(self).dispatchers@[di as int].1.entries@.len()
                < 16,
            di_opt is None ==> forall|d: int|
                0 <= d < old(self).dispatchers@.len() ==> (#[trigger] old(self).dispatchers@[d]).0
                    != key,
        ensures
            final(self).wf(),
            final(self).maps@ == old(self).maps@,
            final(self).programs@.len() == old(self).programs@.len() + 1,
            forall|p: int|
                0 <= p < old(self).programs@.len() ==> same_except_mp(
                    old(self).programs@[p],
                    #[trigger] final(self).programs@[p],
                ),
            same_except_mp(program, final(self).programs@[old(self).programs@.len() as int]),
            (final(self).programs@[old(self).programs@.len() as int].spec_mp_state() matches Some(
                st,
            ) && st.2 && st.0 is Some),
            act != DispatcherAction::Destroy,
    {
        let entry = DispatcherEntry { priority, id };
        let act: DispatcherAction;
        let di: usize;
        let ghost pos_g: int;
        let ghost programs0 = self.programs@;
        let ghost pushed = program;
        match di_opt {
            Some(d0) => {
                di = d0;
                let ghost old_entries = self.dispatchers@[di as int].1.entries@;
                proof {
                    assert forall|i: int|
                        0 <= i < old_entries.len() implies #[trigger] old_entries[i].id != id by {
                        assert(entry_backed(old(self).programs@, key, old_entries[i]));
                        let q = choose|q: int|
                            0 <= q < old(self).programs@.len() && (#[trigger] old(self).programs@[q]).spec_id() == Some(old_entries[i].id) && old(self).programs@[q].spec_dispatcher_id() == Some(key) && old(self).programs@[q].spec_priority() == Some(old_entries[i].priority);
                        assert(progs_contain_id(old(self).programs@, old_entries[i].id));
                    }
                }
                match self.dispatchers[di].1.insert(entry) {
                    Ok((pos0, a)) => {
                        act = a;
                        proof {
                            pos_g = pos0 as int;
                        }
                    },
                    Err(_) => {
                        proof {
                            assert(false);
                        }
                        act = DispatcherAction::Destroy;
                    },
                }
            },
            None => {
                let (disp, a) = Dispatcher::new(entry);
                self.dispatchers.push((key, disp));
                di = self.dispatchers.len() - 1;
                act = a;
                proof {
                    pos_g = 0;
                }
            },
        }
        self.programs.push(program);
        let ghost progs_mid = self.programs@;
        proof {
            lemma_commit_mp_pre_sync(*old(self), *self, pushed, key, entry, di as int, pos_g);
        }
        self.sync_positions(di);
        proof {
            assert(progs_mid[programs0.len() as int] == pushed);
            assert(progs_mid[programs0.len() as int].spec_dispatcher_id() == Some(key));
            lemma_commit_mp_post_sync(
                *old(self),
                progs_mid,
                *self,
                pushed,
                key,
                entry,
                di as int,
                pos_g,
            );
        }
        act
    }

    /// Commits a single-attach load: records the program in the catalog.
    #[verifier::spinoff_prover]
    fn commit_simple(&mut self, program: Program, id: u32)
        requires
            old(self).wf(),
            program.spec_mp_state() is None,
            program.spec_id() == Some(id),
            !old(self).spec_contains_id(id),
        ensures
            final(self).wf(),
            final(self).maps@ == old(self).maps@,
            final(self).dispatchers@ == old(self).dispatchers@,
            final(self).programs@ == old(self).programs@.push(program),
    {
        self.programs.push(program);
        proof {
            let fin = *self;
            let n0 = old(self).programs@.len() as int;
            assert forall|i: int, j: int|
                #![trigger fin.programs@[i].spec_id(), fin.programs@[j].spec_id()]
                0 <= i < j < fin.programs@.len() implies fin.programs@[i].spec_id()
                != fin.programs@[j].spec_id() by {
                if j < n0 {
                    assert(old(self).programs@[i].spec_id() != old(self).programs@[j].spec_id());
                } else {
                    assert(fin.programs@[j].spec_id() == Some(id));
                    assert(old(self).programs@[i].spec_id() != Some(id));
                }
            }
            assert forall|d: int, k: int|
                0 <= d < fin.dispatchers@.len() && 0 <= k < (
                #[trigger] fin.dispatchers@[d].1.entries@[k],
                fin.dispatchers@[d].1.entries@.len(),
                ).1 implies entry_backed(
                fin.programs@,
                fin.dispatchers@[d].0,
                fin.dispatchers@[d].1.entries@[k],
            ) by {
                let ent = fin.dispatchers@[d].1.entries@[k];
                assert(entry_backed(old(self).programs@, old(self).dispatchers@[d].0, ent));
                let q = choose|q: int|
                    0 <= q < old(self).programs@.len() && (#[trigger] old(self).programs@[q]).spec_id() == Some(ent.id) && old(self).programs@[q].spec_dispatcher_id() == Some(old(self).dispatchers@[d].0) && old(self).programs@[q].spec_priority() == Some(ent.priority);
                assert(fin.programs@[q] == old(self).programs@[q]);
            }
            assert forall|p: int| 0 <= p < fin.programs@.len() implies #[trigger] fin.prog_position_ok(
                p,
            ) by {
                if p < n0 {
                    assert(fin.programs@[p] == old(self).programs@[p]);
                    assert(old(self).prog_position_ok(p));
                } else {
                    assert(fin.programs@[p] == program);
                }
            }
            assert forall|i: int| 0 <= i < fin.maps@.len() implies progs_contain_id(
                fin.programs@,
                (#[trigger] fin.maps@[i]).0,
            ) by {
                assert(progs_contain_id(old(self).programs@, old(self).maps@[i].0));
                let q = choose|q: int|
                    0 <= q < old(self).programs@.len() && old(self).programs@[q].spec_id() == Some(
                        old(self).maps@[i].0,
                    );
                assert(fin.programs@[q].spec_id() == Some(fin.maps@[i].0));
            }
        }
    }

    /// Registers the new program's use of its map-pin directory: a
    /// borrower joins its owner's user list, a self-owned program opens a
    /// fresh directory.
    #[verifier::spinoff_prover]
    fn finish_map_registry(&mut self, owner_idx: Option<usize>, id: u32)
        requires
            old(self).wf(),
            old(self).spec_contains_id(id),
            owner_idx matches Some(mi) ==> mi < old(self).maps@.len(),
            owner_idx is None ==> forall|i: int|
                0 <= i < old(self).maps@.len() ==> (#[trigger] old(self).maps@[i]).0 != id,
        ensures
            final(self).wf(),
            final(self).programs@ == old(self).programs@,
            final(self).dispatchers@ == old(self).dispatchers@,
            owner_idx matches Some(mi) ==> final(self).maps@.len() == old(self).maps@.len()
                && final(self).maps@[mi as int].0 == old(self).maps@[mi as int].0 && final(self).maps@[mi as int].1.used_by@ =~= old(self).maps@[mi as int].1.used_by@.push(id) && (
            forall|i: int|
                0 <= i < old(self).maps@.len() && i != mi ==> final(self).maps@[i] == #[trigger] old(self).maps@[i]),
            owner_idx is None ==> final(self).maps@.len() == old(self).maps@.len() + 1 && final(self).maps@[old(self).maps@.len() as int].0 == id && final(self).maps@[old(self).maps@.len() as int].1.used_by@ =~= seq![id] && forall|i: int|
                0 <= i < old(self).maps@.len() ==> final(self).maps@[i] == #[trigger] old(self).maps@[i],
    {
        match owner_idx {
            Some(mi) => {
                self.maps[mi].1.used_by.push(id);
                proof {
                    let fin = *self;
                    assert forall|i: int, j: int|
                        #![trigger fin.maps@[i].0, fin.maps@[j].0]
                        0 <= i < j < fin.maps@.len() implies fin.maps@[i].0 != fin.maps@[j].0 by {
                        assert(old(self).maps@[i].0 != old(self).maps@[j].0);
                    }
                    assert forall|i: int| 0 <= i < fin.maps@.len() implies (
                    #[trigger] fin.maps@[i]).1.used_by@.len() >= 1 && fin.maps@[i].1.used_by@[0]
                        == fin.maps@[i].0 by {
                        assert(old(self).maps@[i].1.used_by@.len() >= 1 && old(self).maps@[i].1.used_by@[0] == old(self).maps@[i].0);
                    }
                    assert forall|i: int| 0 <= i < fin.maps@.len() implies progs_contain_id(
                        fin.programs@,
                        (#[trigger] fin.maps@[i]).0,
                    ) by {
                        assert(progs_contain_id(old(self).programs@, old(self).maps@[i].0));
                    }
                    assert forall|p: int| 0 <= p < fin.programs@.len() implies
                        #[trigger] fin.prog_position_ok(p) by {
                        assert(old(self).prog_position_ok(p));
                        assert(fin.programs@ == old(self).programs@);
                        assert(fin.dispatchers@ == old(self).dispatchers@);
                    }
                }
            },
            None => {
                let mut ub: Vec<u32> = Vec::new();
                ub.push(id);
                self.maps.push((id, BpfMap { used_by: ub }));
                proof {
                    let fin = *self;
                    let n = old(self).maps@.len() as int;
                    assert forall|i: int, j: int|
                        #![trigger fin.maps@[i].0, fin.maps@[j].0]
                        0 <= i < j < fin.maps@.len() implies fin.maps@[i].0 != fin.maps@[j].0 by {
                        if j < n {
                            assert(old(self).maps@[i].0 != old(self).maps@[j].0);
                        } else {
                            assert(fin.maps@[j].0 == id);
                            assert(old(self).maps@[i].0 != id);
                        }
                    }
                    assert forall|i: int| 0 <= i < fin.maps@.len() implies (
                    #[trigger] fin.maps@[i]).1.used_by@.len() >= 1 && fin.maps@[i].1.used_by@[0]
                        == fin.maps@[i].0 by {
                        if i < n {
                            assert(old(self).maps@[i].1.used_by@.len() >= 1 && old(self).maps@[i].1.used_by@[0] == old(self).maps@[i].0);
                        }
                    }
                    assert forall|i: int| 0 <= i < fin.maps@.len() implies progs_contain_id(
                        fin.programs@,
                        (#[trigger] fin.maps@[i]).0,
                    ) by {
                        if i < n {
                            assert(progs_contain_id(old(self).programs@, old(self).maps@[i].0));
                        } else {
                            assert(fin.maps@[i].0 == id);
                        }
                    }
                    assert forall|p: int| 0 <= p < fin.programs@.len() implies
                        #[trigger] fin.prog_position_ok(p) by {
                        assert(old(self).prog_position_ok(p));
                        assert(fin.programs@ == old(self).programs@);
                        assert(fin.dispatchers@ == old(self).dispatchers@);
                    }
                }
            },
        }
    }

    /// Serves `Load` once the kernel has assigned an id: validates the
    /// request against the current state, registers the map-pin directory,
    /// inserts the program into its attach point's dispatcher, records the
    /// catalog entry, and reports the kernel work still owed.
    ///
    /// A `map_owner_id` naming an unregistered owner fails the load; a full
    /// dispatcher fails it with `NoCapacity`; every failure leaves the
    /// state exactly as it was.  The reported action never destroys a
    /// dispatcher: growing across a capacity-class boundary is an atomic
    /// replace.
    #[verifier::rlimit(60)]
    #[verifier::spinoff_prover]
    pub fn add_program(&mut self, program: Program, kernel_info: KernelProgramInfo) -> (r: Result<
        Option<DispatcherAction>,
        BpfmanError,
    >)
        requires
            old(self).wf(),
        ensures
            final(self).wf(),
            r is Err ==> *final(self) == *old(self),
            r is Ok <==> spec_add_outcome(old(self), program, kernel_info.id) == 0,
            spec_add_outcome(old(self), program, kernel_info.id) == 1 ==> r matches Err(
                BpfmanError::InvalidArgument(_),
            ),
            spec_add_outcome(old(self), program, kernel_info.id) == 2 ==> r matches Err(
                BpfmanError::Error(_),
            ),
            spec_add_outcome(old(self), program, kernel_info.id) == 3 ==> r matches Err(
                BpfmanError::InvalidArgument(_),
            ),
            spec_add_outcome(old(self), program, kernel_info.id) == 4 ==> (r matches Err(
                BpfmanError::MapOwnerNotFound(o),
            ) && program.spec_data()->Some_0.map_owner_id == Some(o)),
            spec_add_outcome(old(self), program, kernel_info.id) == 5 ==> r matches Err(
                BpfmanError::NoCapacity,
            ),
            r matches Ok(act) ==> {
                &&& final(self).spec_contains_id(kernel_info.id)
                &&& final(self).programs@.len() == old(self).programs@.len() + 1
                &&& forall|p: int|
                    0 <= p < old(self).programs@.len() ==> same_except_mp(
                        old(self).programs@[p],
                        #[trigger] final(self).programs@[p],
                    )
                &&& forall|id2: u32|
                    old(self).spec_contains_id(id2) ==> final(self).spec_contains_id(id2)
                &&& final(self).programs@[old(self).programs@.len() as int].spec_id() == Some(
                    kernel_info.id,
                )
                &&& final(self).programs@[old(self).programs@.len() as int].spec_kernel_info()
                    == Some(kernel_info@)
                &&& (final(self).programs@[old(self).programs@.len() as int].spec_data()
                    matches Some(dv) && dv.map_owner_id == program.spec_data()->Some_0.map_owner_id
                    && dv.name == program.spec_data()->Some_0.name && dv.metadata
                    == program.spec_data()->Some_0.metadata && dv.global_data
                    == program.spec_data()->Some_0.global_data && dv.location
                    == program.spec_data()->Some_0.location)
                &&& act != Some(DispatcherAction::Destroy)
                &&& ((program matches Program::Xdp(_) || program matches Program::Tc(_)) <==> act
                    is Some)
                // the stored entry carries the request's attach parameters
                &&& crate::types::same_shape(
                    program,
                    final(self).programs@[old(self).programs@.len() as int],
                )
                &&& final(self).programs@[old(self).programs@.len() as int].spec_priority()
                    == program.spec_priority()
                &&& final(self).programs@[old(self).programs@.len() as int].spec_dispatcher_id()
                    == program.spec_dispatcher_id()
                &&& final(self).programs@[old(self).programs@.len() as int].spec_iface()
                    == program.spec_iface()
                &&& final(self).programs@[old(self).programs@.len() as int].spec_xdp_proceed_on()
                    == program.spec_xdp_proceed_on()
                &&& final(self).programs@[old(self).programs@.len() as int].spec_tc_proceed_on()
                    == program.spec_tc_proceed_on()
                &&& final(self).programs@[old(self).programs@.len() as int].spec_direction()
                    == program.spec_direction()
                &&& ((program matches Program::Xdp(_) || program matches Program::Tc(_)) ==> (
                final(self).programs@[old(self).programs@.len() as int].spec_mp_state()
                    matches Some(st) && st.2 && st.0 is Some))
                // the map registry records the new program's directory use
                &&& (match program.spec_data()->Some_0.map_owner_id {
                    Some(o) => exists|mi: int|
                        0 <= mi < old(self).maps@.len() && (#[trigger] old(self).maps@[mi]).0 == o
                            && final(self).maps@.len() == old(self).maps@.len() && final(self).maps@[mi].0 == o && final(self).maps@[mi].1.used_by@ =~= old(self).maps@[mi].1.used_by@.push(kernel_info.id),
                    None => final(self).maps@.len() == old(self).maps@.len() + 1 && final(self).maps@[old(self).maps@.len() as int].0 == kernel_info.id && final(self).maps@[old(self).maps@.len() as int].1.used_by@ =~= seq![kernel_info.id] && (
                    forall|i: int|
                        0 <= i < old(self).maps@.len() ==> final(self).maps@[i] == #[trigger] old(self).maps@[i]),
                })
            },
    {
        let id = kernel_info.id;
        match &program {
            Program::Unsupported(_) => {
                return Err(
                    BpfmanError::InvalidArgument(
                        String::from_str("cannot load an unsupported program"),
                    ),
                );
            },
            _ => {},
        }
        if self.find_program_index(id).is_some() {
            return Err(BpfmanError::Error(String::from_str("kernel id already tracked")));
        }
        let key_opt = Self::key_of(&program);
        let is_mp = match &program {
            Program::Xdp(_) => true,
            Program::Tc(_) => true,
            _ => false,
        };
        if is_mp && key_opt.is_none() {
            return Err(
                BpfmanError::InvalidArgument(String::from_str("interface index not resolved")),
            );
        }
        let owner = match program.data() {
            Ok(d) => d.map_owner_id,
            Err(_) => None,
        };
        let owner_map_idx = match owner {
            Some(o) => {
                match self.find_map_index(o) {
                    Some(mi) => Some(mi),
                    None => {
                        return Err(BpfmanError::MapOwnerNotFound(o));
                    },
                }
            },
            None => None,
        };
        let di_opt = match key_opt {
            Some(key) => self.find_dispatcher_index(key),
            None => None,
        };
        if let Some(di) = di_opt {
            if self.dispatchers[di].1.entries.len() >= crate::dispatcher::DISPATCHER_MAX_SLOTS {
                return Err(BpfmanError::NoCapacity);
            }
        }
        proof {
            assert(spec_add_outcome(old(self), program, kernel_info.id) == 0);
            // a fresh id owns no registered directory yet
            assert forall|i: int| 0 <= i < self.maps@.len() implies (#[trigger] self.maps@[i]).0
                != id by {
                assert(progs_contain_id(self.programs@, self.maps@[i].0));
            }
        }
        // all checks passed; from here on every step succeeds
        let mut program = program;
        // the map-pin directory and user list the program will record
        let dir: String;
        let mut used_by: Vec<u32>;
        match owner_map_idx {
            Some(mi) => {
                let o = self.maps[mi].0;
                dir = Self::map_pin_dir(o);
                used_by = Vec::new();
                let mut k: usize = 0;
                let n = self.maps[mi].1.used_by.len();
                while k < n
                    invariant
                        mi < self.maps@.len(),
                        n == self.maps@[mi as int].1.used_by@.len(),
                        k <= n,
                        used_by@ =~= self.maps@[mi as int].1.used_by@.subrange(0, k as int),
                    decreases n - k,
                {
                    let v = self.maps[mi].1.used_by[k];
                    used_by.push(v);
                    k += 1;
                }
                used_by.push(id);
            },
            None => {
                dir = Self::map_pin_dir(id);
                used_by = Vec::new();
                used_by.push(id);
            },
        }
        // populate the shared data
        match program.data_mut() {
            Ok(d) => {
                d.load_kernel_info(kernel_info);
                d.set_map_pin_path(dir);
                d.set_maps_used_by(used_by);
            },
            Err(_) => {
                proof {
                    assert(false);
                }
            },
        }
        let ghost popd = program;
        let ghost n0 = self.programs@.len() as int;
        // dispatcher and catalog
        let mut act: Option<DispatcherAction> = None;
        match key_opt {
            Some(key) => {
                let priority = match program.priority() {
                    Some(p) => p,
                    None => {
                        proof {
                            assert(false);
                        }
                        0
                    },
                };
                let a = self.commit_mp(program, key, priority, id, di_opt);
                act = Some(a);
            },
            None => {
                self.commit_simple(program, id);
            },
        }
        proof {
            assert(same_except_mp(popd, self.programs@[n0]));
            assert(self.programs@[n0].spec_id() == Some(id));
            assert(self.spec_contains_id(id));
            assert(self.programs@[n0].spec_kernel_info() == Some(kernel_info@));
            assert(self.programs@[n0].spec_data() matches Some(dv) && dv.map_owner_id
                == program.spec_data()->Some_0.map_owner_id && dv.name
                == program.spec_data()->Some_0.name && dv.metadata
                == program.spec_data()->Some_0.metadata && dv.global_data
                == program.spec_data()->Some_0.global_data && dv.location
                == program.spec_data()->Some_0.location);
            assert forall|id2: u32| old(self).spec_contains_id(id2) implies progs_contain_id(
                self.programs@,
                id2,
            ) by {
                let q = choose|q: int|
                    0 <= q < old(self).programs@.len() && old(self).programs@[q].spec_id() == Some(
                        id2,
                    );
                assert(same_except_mp(old(self).programs@[q], self.programs@[q]));
                assert(self.programs@[q].spec_id() == Some(id2));
            }
        }
        self.finish_map_registry(owner_map_idx, id);
        Ok(act)
    }
}

/// After the dispatcher update and the catalog push, every program on the
/// key is present in the dispatcher: the precondition of the position
/// rewrite.
#[verifier::spinoff_prover]
proof fn lemma_commit_mp_pre_sync(
    m0: BpfManager,
    mid: BpfManager,
    pushed: Program,
    key: DispatcherId,
    entry: DispatcherEntry,
    di: int,
    pos: int,
)
    requires
        m0.wf(),
        0 <= di < mid.dispatchers@.len(),
        mid.dispatchers@[di].0 == key,
        mid.programs@ =~= m0.programs@.push(pushed),
        pushed.spec_id() == Some(entry.id),
        pushed.spec_dispatcher_id() == Some(key),
        // the dispatcher update: either grown from the old one, or fresh
        (di < m0.dispatchers@.len() && m0.dispatchers@[di].0 == key && 0 <= pos
            <= m0.dispatchers@[di].1.entries@.len() && mid.dispatchers@[di].1.entries@
            =~= m0.dispatchers@[di].1.entries@.subrange(0, pos).push(entry)
            + m0.dispatchers@[di].1.entries@.subrange(
            pos,
            m0.dispatchers@[di].1.entries@.len() as int,
        )) || (di == m0.dispatchers@.len() && mid.dispatchers@[di].1.entries@ =~= seq![entry]
            && forall|d: int|
            0 <= d < m0.dispatchers@.len() ==> (#[trigger] m0.dispatchers@[d]).0 != key),
        forall|d: int| 0 <= d < m0.dispatchers@.len() ==> #[trigger] mid.dispatchers@[d].0
            == m0.dispatchers@[d].0,
    ensures
        forall|p: int|
            0 <= p < mid.programs@.len() && (#[trigger] mid.programs@[p]).spec_dispatcher_id()
                == Some(mid.dispatchers@[di].0) ==> mid.programs@[p].spec_id() is Some
                && mid.dispatchers@[di].1.spec_contains_id(mid.programs@[p].spec_id()->Some_0),
{
    let n0 = m0.programs@.len() as int;
    assert forall|p: int|
        0 <= p < mid.programs@.len() && (#[trigger] mid.programs@[p]).spec_dispatcher_id() == Some(
            mid.dispatchers@[di].0,
        ) implies mid.programs@[p].spec_id() is Some && mid.dispatchers@[di].1.spec_contains_id(
        mid.programs@[p].spec_id()->Some_0,
    ) by {
        if p < n0 {
            assert(mid.programs@[p] == m0.programs@[p]);
            assert(m0.prog_position_ok(p));
            if di < m0.dispatchers@.len() {
                let st = m0.programs@[p].spec_mp_state()->Some_0;
                let kpos = st.0->Some_0 as int;
                assert(m0.dispatchers@[di].0 == key);
                let old_es = m0.dispatchers@[di].1.entries@;
                assert(kpos < old_es.len() && old_es[kpos].id == m0.programs@[p].spec_id()->Some_0);
                if kpos < pos {
                    assert(mid.dispatchers@[di].1.entries@[kpos] == old_es[kpos]);
                } else {
                    assert(mid.dispatchers@[di].1.entries@[kpos + 1] == old_es[kpos]);
                }
            } else {
                // no dispatcher owned this key before, so no program sat on it
                let dd = choose|dd: int|
                    0 <= dd < m0.dispatchers@.len() && (#[trigger] m0.dispatchers@[dd]).0
                        == m0.programs@[p].spec_dispatcher_id()->Some_0;
                assert(false);
            }
        } else {
            assert(mid.programs@[p] == pushed);
            assert(mid.dispatchers@[di].1.spec_contains_id(entry.id)) by {
                if di < m0.dispatchers@.len() {
                    assert(mid.dispatchers@[di].1.entries@[pos] == entry);
                } else {
                    assert(mid.dispatchers@[di].1.entries@[0] == entry);
                }
            }
        }
    }
}

/// After the position rewrite the joint invariant holds again.
#[verifier::rlimit(100)]
#[verifier::spinoff_prover]
proof fn lemma_commit_mp_post_sync(
    m0: BpfManager,
    progs_mid: Seq<Program>,
    fin: BpfManager,
    pushed: Program,
    key: DispatcherId,
    entry: DispatcherEntry,
    di: int,
    pos: int,
)
    requires
        m0.wf(),
        !m0.spec_contains_id(entry.id),
        pushed.spec_id() == Some(entry.id),
        pushed.spec_dispatcher_id() == Some(key),
        pushed.spec_priority() == Some(entry.priority),
        pushed matches Program::Xdp(_) || pushed matches Program::Tc(_),
        progs_mid =~= m0.programs@.push(pushed),
        0 <= di < fin.dispatchers@.len(),
        fin.dispatchers@[di].0 == key,
        fin.dispatchers@[di].1.wf(),
        fin.maps@ == m0.maps@,
        // dispatcher relation
        (di < m0.dispatchers@.len() && m0.dispatchers@[di].0 == key && 0 <= pos
            <= m0.dispatchers@[di].1.entries@.len() && fin.dispatchers@[di].1.entries@
            =~= m0.dispatchers@[di].1.entries@.subrange(0, pos).push(entry)
            + m0.dispatchers@[di].1.entries@.subrange(
            pos,
            m0.dispatchers@[di].1.entries@.len() as int,
        ) && fin.dispatchers@.len() == m0.dispatchers@.len()) || (di == m0.dispatchers@.len()
            && fin.dispatchers@[di].1.entries@ =~= seq![entry] && fin.dispatchers@.len() == di + 1
            && forall|d: int|
            0 <= d < m0.dispatchers@.len() ==> (#[trigger] m0.dispatchers@[d]).0 != key),
        forall|d: int|
            0 <= d < m0.dispatchers@.len() ==> #[trigger] fin.dispatchers@[d] == if d == di {
                fin.dispatchers@[di]
            } else {
                m0.dispatchers@[d]
            },
        // the position rewrite's guarantees
        fin.programs@.len() == progs_mid.len(),
        forall|p: int|
            0 <= p < progs_mid.len() ==> same_except_mp(progs_mid[p], #[trigger] fin.programs@[p]),
        forall|p: int|
            0 <= p < progs_mid.len() && (#[trigger] progs_mid[p]).spec_dispatcher_id() != Some(key)
                ==> fin.programs@[p] == progs_mid[p],
        forall|p: int|
            0 <= p < progs_mid.len() && (#[trigger] progs_mid[p]).spec_dispatcher_id() == Some(key)
                ==> (fin.programs@[p].spec_mp_state() matches Some((posn, ifx, att)) && att && (
            posn matches Some(k) && k < fin.dispatchers@[di].1.entries@.len()
                && fin.dispatchers@[di].1.entries@[k as int].id == progs_mid[p].spec_id()->Some_0)),
    ensures
        fin.wf(),
{
    let n0 = m0.programs@.len() as int;
    assert(fin.programs@.len() == n0 + 1);
    assert forall|p: int| 0 <= p < fin.programs@.len() implies (
    #[trigger] fin.programs@[p]).spec_id() is Some by {
        if p < n0 {
            assert(same_except_mp(progs_mid[p], fin.programs@[p]));
            assert(progs_mid[p] == m0.programs@[p]);
        } else {
            assert(same_except_mp(pushed, fin.programs@[p]));
        }
    }
    assert forall|i: int, j: int|
        #![trigger fin.programs@[i].spec_id(), fin.programs@[j].spec_id()]
        0 <= i < j < fin.programs@.len() implies fin.programs@[i].spec_id()
        != fin.programs@[j].spec_id() by {
        if j < n0 {
            assert(m0.programs@[i].spec_id() != m0.programs@[j].spec_id());
        } else {
            assert(fin.programs@[j].spec_id() == Some(entry.id));
            assert(m0.programs@[i].spec_id() != Some(entry.id));
        }
    }
    // dispatcher keys stay unique
    assert forall|i: int, j: int|
        #![trigger fin.dispatchers@[i].0, fin.dispatchers@[j].0]
        0 <= i < j < fin.dispatchers@.len() implies fin.dispatchers@[i].0 != fin.dispatchers@[j].0
        by {
        if j < m0.dispatchers@.len() {
            if i == di {
                assert(fin.dispatchers@[j].0 == m0.dispatchers@[j].0);
            } else if j == di {
                assert(fin.dispatchers@[i].0 == m0.dispatchers@[i].0);
            } else {
                assert(fin.dispatchers@[i].0 == m0.dispatchers@[i].0);
                assert(fin.dispatchers@[j].0 == m0.dispatchers@[j].0);
            }
        } else {
            assert(j == di);
            assert(fin.dispatchers@[i].0 == m0.dispatchers@[i].0);
            assert(fin.dispatchers@[i].0 != key);
        }
    }
    assert forall|d: int| 0 <= d < fin.dispatchers@.len() implies (
    #[trigger] fin.dispatchers@[d].1).wf() by {
        if d != di {
            assert(fin.dispatchers@[d] == m0.dispatchers@[d]);
        }
    }
    // every slot is backed
    assert forall|d: int, k: int|
        0 <= d < fin.dispatchers@.len() && 0 <= k < (
        #[trigger] fin.dispatchers@[d].1.entries@[k],
        fin.dispatchers@[d].1.entries@.len(),
        ).1 implies entry_backed(fin.programs@, fin.dispatchers@[d].0, fin.dispatchers@[d].1.entries@[k])
        by {
        if d == di {
            if k == pos || di == m0.dispatchers@.len() {
                assert(fin.dispatchers@[d].1.entries@[k] == entry);
                assert(fin.programs@[n0].spec_id() == Some(entry.id));
                assert(fin.programs@[n0].spec_dispatcher_id() == Some(key));
                assert(fin.programs@[n0].spec_priority() == Some(entry.priority));
            } else {
                let ko = if k < pos {
                    k
                } else {
                    k - 1
                };
                let old_ent = m0.dispatchers@[di].1.entries@[ko];
                assert(fin.dispatchers@[d].1.entries@[k] == old_ent);
                assert(entry_backed(m0.programs@, key, old_ent));
                let q = choose|q: int|
                    0 <= q < m0.programs@.len() && (#[trigger] m0.programs@[q]).spec_id() == Some(
                        old_ent.id,
                    ) && m0.programs@[q].spec_dispatcher_id() == Some(key)
                        && m0.programs@[q].spec_priority() == Some(old_ent.priority);
                assert(same_except_mp(m0.programs@[q], fin.programs@[q]));
                assert(fin.programs@[q].spec_id() == Some(old_ent.id));
            }
        } else {
            assert(fin.dispatchers@[d] == m0.dispatchers@[d]);
            let ent = fin.dispatchers@[d].1.entries@[k];
            assert(entry_backed(m0.programs@, m0.dispatchers@[d].0, ent));
            let q = choose|q: int|
                0 <= q < m0.programs@.len() && (#[trigger] m0.programs@[q]).spec_id() == Some(
                    ent.id,
                ) && m0.programs@[q].spec_dispatcher_id() == Some(m0.dispatchers@[d].0)
                    && m0.programs@[q].spec_priority() == Some(ent.priority);
            assert(same_except_mp(m0.programs@[q], fin.programs@[q]));
            assert(fin.programs@[q].spec_id() == Some(ent.id));
        }
    }
    // every recorded position is its slot
    assert forall|p: int| 0 <= p < fin.programs@.len() implies #[trigger] fin.prog_position_ok(p)
        by {
        if progs_mid[p].spec_dispatcher_id() == Some(key) {
            let st = fin.programs@[p].spec_mp_state()->Some_0;
            let kpos = st.0->Some_0 as int;
            let pid = progs_mid[p].spec_id()->Some_0;
            assert(fin.dispatchers@[di].1.entries@[kpos].id == pid);
            assert(entry_backed(fin.programs@, key, fin.dispatchers@[di].1.entries@[kpos]));
            let q = choose|q: int|
                0 <= q < fin.programs@.len() && (#[trigger] fin.programs@[q]).spec_id() == Some(
                    fin.dispatchers@[di].1.entries@[kpos].id,
                ) && fin.programs@[q].spec_dispatcher_id() == Some(key)
                    && fin.programs@[q].spec_priority() == Some(
                    fin.dispatchers@[di].1.entries@[kpos].priority,
                );
            assert(fin.programs@[p].spec_id() == Some(pid));
            if q != p {
                assert(fin.programs@[q].spec_id() != fin.programs@[p].spec_id());
            }
            assert(fin.programs@[p].spec_priority() == Some(
                fin.dispatchers@[di].1.entries@[kpos].priority,
            ));
            assert forall|d: int|
                0 <= d < fin.dispatchers@.len() && (#[trigger] fin.dispatchers@[d]).0
                    == fin.programs@[p].spec_dispatcher_id()->Some_0 implies d == di by {
                if d != di {
                    assert(fin.dispatchers@[d].0 != fin.dispatchers@[di].0);
                }
            }
        } else if p < n0 {
            assert(fin.programs@[p] == progs_mid[p]);
            assert(progs_mid[p] == m0.programs@[p]);
            assert(m0.prog_position_ok(p));
            match fin.programs@[p].spec_mp_state() {
                Some(st) => {
                    let pkey = fin.programs@[p].spec_dispatcher_id()->Some_0;
                    assert(pkey != key);
                    let dd = choose|dd: int|
                        0 <= dd < m0.dispatchers@.len() && (#[trigger] m0.dispatchers@[dd]).0
                            == pkey;
                    assert(dd != di);
                    assert(fin.dispatchers@[dd] == m0.dispatchers@[dd]);
                    assert(fin.dispatchers@[dd].0 == pkey);
                    assert forall|d2: int|
                        0 <= d2 < fin.dispatchers@.len() && (#[trigger] fin.dispatchers@[d2]).0
                            == pkey implies {
                        &&& st.0->Some_0 < fin.dispatchers@[d2].1.entries@.len()
                        &&& fin.dispatchers@[d2].1.entries@[st.0->Some_0 as int].id
                            == fin.programs@[p].spec_id()->Some_0
                        &&& Some(fin.dispatchers@[d2].1.entries@[st.0->Some_0 as int].priority)
                            == fin.programs@[p].spec_priority()
                    } by {
                        assert(d2 != di);
                        assert(fin.dispatchers@[d2] == m0.dispatchers@[d2]);
                    }
                },
                None => {},
            }
        } else {
            assert(progs_mid[p] == pushed);
            assert(progs_mid[p].spec_dispatcher_id() == Some(key));
        }
    }
    // map registry untouched; owners are still tracked
    assert forall|i: int| 0 <= i < fin.maps@.len() implies progs_contain_id(
        fin.programs@,
        (#[trigger] fin.maps@[i]).0,
    ) by {
        assert(progs_contain_id(m0.programs@, m0.maps@[i].0));
        let q = choose|q: int|
            0 <= q < m0.programs@.len() && m0.programs@[q].spec_id() == Some(m0.maps@[i].0);
        assert(same_except_mp(m0.programs@[q], fin.programs@[q]));
        assert(fin.programs@[q].spec_id() == Some(fin.maps@[i].0));
    }
}


/// The validation outcome of an unload request: 0 accepts; each other
/// value names the check that rejects it.
pub open spec fn spec_remove_outcome(m: &BpfManager, id: u32) -> int {
    if !m.spec_contains_id(id) {
        1
    } else if exists|p: int|
        0 <= p < m.programs@.len() && (#[trigger] m.programs@[p]).spec_id() == Some(id)
            && m.programs@[p] matches Program::Unsupported(_) {
        2
    } else if exists|i: int|
        0 <= i < m.maps@.len() && (#[trigger] m.maps@[i]).0 == id && m.maps@[i].1.used_by@.len()
            > 1 {
        3
    } else {
        0
    }
}

impl BpfManager {
    /// Releases the program's use of every map-pin directory: its own
    /// directory entry leaves the registry (it has no borrowers by then),
    /// and it leaves every directory's user list.
    #[verifier::rlimit(60)]
    #[verifier::spinoff_prover]
    fn registry_release(&mut self, id: u32)
        requires
            old(self).wf(),
            forall|i: int|
                0 <= i < old(self).maps@.len() && (#[trigger] old(self).maps@[i]).0 == id ==> old(self).maps@[i].1.used_by@.len() == 1,
        ensures
            final(self).wf(),
            final(self).programs@ == old(self).programs@,
            final(self).dispatchers@ == old(self).dispatchers@,
            forall|i: int| 0 <= i < final(self).maps@.len() ==> (#[trigger] final(self).maps@[i]).0
                != id,
            forall|i: int, j: int|
                #![trigger final(self).maps@[i].1.used_by@[j]]
                0 <= i < final(self).maps@.len() && 1 <= j
                    < final(self).maps@[i].1.used_by@.len() ==> final(self).maps@[i].1.used_by@[j]
                    != id,
    {
        match self.find_map_index(id) {
            Some(mi) => {
                self.maps.remove(mi);
                proof {
                    let fin = *self;
                    assert forall|i: int, j: int|
                        #![trigger fin.maps@[i].0, fin.maps@[j].0]
                        0 <= i < j < fin.maps@.len() implies fin.maps@[i].0 != fin.maps@[j].0 by {
                        let oi = if i < mi {
                            i
                        } else {
                            i + 1
                        };
                        let oj = if j < mi {
                            j
                        } else {
                            j + 1
                        };
                        assert(fin.maps@[i] == old(self).maps@[oi]);
                        assert(fin.maps@[j] == old(self).maps@[oj]);
                    }
                    assert forall|i: int| 0 <= i < fin.maps@.len() implies ((
                    #[trigger] fin.maps@[i]).1.used_by@.len() >= 1 && fin.maps@[i].1.used_by@[0]
                        == fin.maps@[i].0 && progs_contain_id(fin.programs@, fin.maps@[i].0)
                        && fin.maps@[i].0 != id) by {
                        let oi = if i < mi {
                            i
                        } else {
                            i + 1
                        };
                        assert(fin.maps@[i] == old(self).maps@[oi]);
                        if fin.maps@[i].0 == id {
                            assert(oi != mi);
                            assert(old(self).maps@[oi].0 == old(self).maps@[mi as int].0);
                        }
                    }
                    assert forall|p: int| 0 <= p < fin.programs@.len() implies
                        #[trigger] fin.prog_position_ok(p) by {
                        assert(old(self).prog_position_ok(p));
                        assert(fin.programs@ == old(self).programs@);
                        assert(fin.dispatchers@ == old(self).dispatchers@);
                    }
                }
            },
            None => {},
        }
        let ghost maps1 = self.maps@;
        let ghost progs1 = self.programs@;
        let ghost disps1 = self.dispatchers@;
        let mut m: usize = 0;
        while m < self.maps.len()
            invariant
                self.programs@ == progs1,
                self.dispatchers@ == disps1,
                self.maps@.len() == maps1.len(),
                m <= maps1.len(),
                forall|i: int, j: int|
                    #![trigger maps1[i].0, maps1[j].0]
                    0 <= i < j < maps1.len() ==> maps1[i].0 != maps1[j].0,
                forall|i: int|
                    0 <= i < maps1.len() ==> (#[trigger] maps1[i]).1.used_by@.len() >= 1
                        && maps1[i].1.used_by@[0] == maps1[i].0 && progs_contain_id(
                        progs1,
                        maps1[i].0,
                    ) && maps1[i].0 != id,
                forall|i: int| m <= i < maps1.len() ==> #[trigger] self.maps@[i] == maps1[i],
                forall|i: int|
                    0 <= i < m ==> (#[trigger] self.maps@[i]).0 == maps1[i].0
                        && self.maps@[i].1.used_by@.len() >= 1 && self.maps@[i].1.used_by@[0]
                        == maps1[i].1.used_by@[0],
                forall|i: int, j: int|
                    #![trigger self.maps@[i].1.used_by@[j]]
                    0 <= i < m && 1 <= j < self.maps@[i].1.used_by@.len()
                        ==> self.maps@[i].1.used_by@[j] != id,
            decreases maps1.len() - m,
        {
            let n = self.maps[m].1.used_by.len();
            let mut kept: Vec<u32> = Vec::new();
            kept.push(self.maps[m].1.used_by[0]);
            let mut j: usize = 1;
            while j < n
                invariant
                    m < self.maps@.len(),
                    self.maps@[m as int] == maps1[m as int],
                    m < maps1.len(),
                    n == self.maps@[m as int].1.used_by@.len(),
                    n >= 1,
                    1 <= j <= n,
                    kept@.len() >= 1,
                    kept@[0] == self.maps@[m as int].1.used_by@[0],
                    forall|q: int| 1 <= q < kept@.len() ==> #[trigger] kept@[q] != id,
                decreases n - j,
            {
                let v = self.maps[m].1.used_by[j];
                if v != id {
                    kept.push(v);
                }
                j += 1;
            }
            self.maps[m].1.used_by = kept;
            m += 1;
        }
        proof {
            let fin = *self;
            assert forall|i: int, j: int|
                #![trigger fin.maps@[i].0, fin.maps@[j].0]
                0 <= i < j < fin.maps@.len() implies fin.maps@[i].0 != fin.maps@[j].0 by {
                assert(maps1[i].0 != maps1[j].0);
            }
            assert forall|i: int| 0 <= i < fin.maps@.len() implies ((
            #[trigger] fin.maps@[i]).1.used_by@.len() >= 1 && fin.maps@[i].1.used_by@[0]
                == fin.maps@[i].0 && progs_contain_id(fin.programs@, fin.maps@[i].0)
                && fin.maps@[i].0 != id) by {
                assert(maps1[i].1.used_by@[0] == maps1[i].0);
                assert(progs_contain_id(progs1, maps1[i].0));
            }
            assert forall|p: int| 0 <= p < fin.programs@.len() implies #[trigger] fin.prog_position_ok(
                p,
            ) by {
                assert(old(self).prog_position_ok(p));
                assert(fin.programs@ == old(self).programs@);
                assert(fin.dispatchers@ == old(self).dispatchers@);
            }
        }
    }

    /// Removes the program at `idx` from the catalog and detaches it from
    /// its dispatcher, destroying the dispatcher when it empties and
    /// rewriting the remaining positions otherwise.
    #[verifier::rlimit(60)]
    #[verifier::spinoff_prover]
    fn uncommit(&mut self, idx: usize) -> (act: Option<DispatcherAction>)
        requires
            old(self).wf(),
            idx < old(self).programs@.len(),
            !(old(self).programs@[idx as int] matches Program::Unsupported(_)),
            forall|i: int| 0 <= i < old(self).maps@.len() ==> (#[trigger] old(self).maps@[i]).0
                != old(self).programs@[idx as int].spec_id()->Some_0,
        ensures
            final(self).wf(),
            final(self).maps@ == old(self).maps@,
            final(self).programs@.len() + 1 == old(self).programs@.len(),
            forall|p: int|
                0 <= p < final(self).programs@.len() ==> same_except_mp(
                    old(self).programs@[shift_up(p, idx as int)],
                    #[trigger] final(self).programs@[p],
                ),
            !final(self).spec_contains_id(old(self).programs@[idx as int].spec_id()->Some_0),
            forall|id2: u32|
                id2 != old(self).programs@[idx as int].spec_id()->Some_0 && old(self).spec_contains_id(id2) ==> final(self).spec_contains_id(id2),
            act is Some <==> old(self).programs@[idx as int].spec_dispatcher_id() is Some,
            act == Some(DispatcherAction::Destroy) ==> forall|d: int|
                0 <= d < final(self).dispatchers@.len() ==> (#[trigger] final(self).dispatchers@[d]).0 != old(self).programs@[idx as int].spec_dispatcher_id()->Some_0,
            (act matches Some(a2) && a2 != DispatcherAction::Destroy) ==> exists|d: int|
                0 <= d < final(self).dispatchers@.len() && (#[trigger] final(self).dispatchers@[d]).0 == old(self).programs@[idx as int].spec_dispatcher_id()->Some_0,
    {
        let key_opt = Self::key_of(&self.programs[idx]);
        let removed_id = match Self::id_of(&self.programs[idx]) {
            Some(x) => x,
            None => {
                proof {
                    assert(false);
                }
                0
            },
        };
        let ghost removed = self.programs@[idx as int];
        self.programs.remove(idx);
        let ghost progs_mid = self.programs@;
        proof {
            lemma_removed_not_contained(old(self).programs@, progs_mid, idx as int, removed_id);
        }
        let result: Option<DispatcherAction> = match key_opt {
            None => {
                proof {
                    lemma_uncommit_no_key(*old(self), *self, idx as int, removed);
                }
                None
            },
            Some(key) => {
                let di = match self.find_dispatcher_index(key) {
                    Some(d) => d,
                    None => {
                        proof {
                            assert(old(self).prog_position_ok(idx as int));
                            let dd = choose|dd: int|
                                0 <= dd < old(self).dispatchers@.len() && (#[trigger] old(self).dispatchers@[dd]).0 == key;
                            assert(false);
                        }
                        0
                    },
                };
                let ghost old_entries = self.dispatchers@[di as int].1.entries@;
                let res = self.dispatchers[di].1.remove(removed_id);
                match res {
                    Some((pos, act)) => {
                        proof {
                            assert(old(self).prog_position_ok(idx as int));
                        }
                        if self.dispatchers[di].1.entries.len() == 0 {
                            self.dispatchers.remove(di);
                            proof {
                                lemma_uncommit_destroy(
                                    *old(self),
                                    *self,
                                    idx as int,
                                    removed,
                                    key,
                                    di as int,
                                );
                                assert forall|d: int|
                                    0 <= d < self.dispatchers@.len() implies (
                                #[trigger] self.dispatchers@[d]).0 != key by {
                                    let od = shift_up(d, di as int);
                                    assert(self.dispatchers@[d] == old(self).dispatchers@[od]);
                                    assert(old(self).dispatchers@[od].0 != old(self).dispatchers@[di as int].0);
                                }
                            }
                        } else {
                            proof {
                                lemma_uncommit_pre_sync(
                                    *old(self),
                                    *self,
                                    idx as int,
                                    removed,
                                    key,
                                    di as int,
                                    pos as int,
                                );
                            }
                            self.sync_positions(di);
                            proof {
                                lemma_uncommit_post_sync(
                                    *old(self),
                                    progs_mid,
                                    *self,
                                    idx as int,
                                    removed,
                                    key,
                                    di as int,
                                    pos as int,
                                );
                            }
                        }
                        Some(act)
                    },
                    None => {
                        proof {
                            assert(old(self).prog_position_ok(idx as int));
                            assert(old_entries[old(self).programs@[idx
                                as int].spec_mp_state()->Some_0.0->Some_0 as int].id
                                == removed_id);
                            assert(false);
                        }
                        None
                    },
                }
            },
        };
        proof {
            assert forall|p: int| 0 <= p < self.programs@.len() implies same_except_mp(
                old(self).programs@[shift_up(p, idx as int)],
                #[trigger] self.programs@[p],
            ) by {
                assert(progs_mid[p] == old(self).programs@[shift_up(p, idx as int)]);
                if self.programs@[p] == progs_mid[p] {
                    assert(same_except_mp(progs_mid[p], self.programs@[p]));
                } else {
                    assert(same_except_mp(progs_mid[p], self.programs@[p]));
                }
            }
            assert forall|p: int| 0 <= p < self.programs@.len() implies (
            #[trigger] self.programs@[p]).spec_id() == progs_mid[p].spec_id() by {
                assert(same_except_mp(progs_mid[p], self.programs@[p]));
            }
            assert forall|p: int| 0 <= p < self.programs@.len() implies (
            #[trigger] self.programs@[p]).spec_id() != Some(removed_id) by {
                assert(progs_mid[p].spec_id() != Some(removed_id));
            }
            assert forall|id2: u32|
                id2 != removed_id && progs_contain_id(old(self).programs@, id2) implies
                progs_contain_id(self.programs@, id2) by {
                assert(progs_contain_id(progs_mid, id2));
                let q = choose|q: int|
                    0 <= q < progs_mid.len() && progs_mid[q].spec_id() == Some(id2);
                assert(self.programs@[q].spec_id() == Some(id2));
            }
        }
        result
    }

    /// Serves `Unload`: checks the id is tracked, daemon-owned and not an
    /// owner with live borrowers, then releases its map-pin use, removes
    /// it from its dispatcher and deletes its catalog entry.  Every
    /// failure leaves the state exactly as it was.
    #[verifier::spinoff_prover]
    pub fn remove_program(&mut self, id: u32) -> (r: Result<Option<DispatcherAction>, BpfmanError>)
        requires
            old(self).wf(),
        ensures
            final(self).wf(),
            r is Err ==> *final(self) == *old(self),
            r is Ok <==> spec_remove_outcome(old(self), id) == 0,
            spec_remove_outcome(old(self), id) == 1 ==> r matches Err(BpfmanError::NotFound),
            spec_remove_outcome(old(self), id) == 2 ==> r matches Err(
                BpfmanError::InvalidArgument(_),
            ),
            spec_remove_outcome(old(self), id) == 3 ==> (r matches Err(
                BpfmanError::MapOwnerInUse(o),
            ) && o == id),
            r is Ok ==> {
                &&& !final(self).spec_contains_id(id)
                &&& final(self).programs@.len() + 1 == old(self).programs@.len()
                &&& forall|id2: u32|
                    id2 != id && old(self).spec_contains_id(id2) ==> final(self).spec_contains_id(
                        id2,
                    )
                // the unloaded id holds no map directory and uses none
                &&& forall|i: int|
                    0 <= i < final(self).maps@.len() ==> (#[trigger] final(self).maps@[i]).0 != id
                &&& forall|i: int, j: int|
                    #![trigger final(self).maps@[i].1.used_by@[j]]
                    0 <= i < final(self).maps@.len() && 1 <= j < final(self).maps@[i].1.used_by@.len() ==> final(self).maps@[i].1.used_by@[j] != id
                // the survivors are the old programs minus the unloaded one,
                // changed at most in position and attached flag
                &&& exists|idx: int|
                    {
                        &&& 0 <= idx < old(self).programs@.len()
                        &&& (#[trigger] old(self).programs@[idx]).spec_id() == Some(id)
                        &&& forall|p: int|
                            0 <= p < final(self).programs@.len() ==> same_except_mp(
                                old(self).programs@[shift_up(p, idx)],
                                #[trigger] final(self).programs@[p],
                            )
                        &&& (r->Ok_0 is Some <==> old(self).programs@[idx].spec_dispatcher_id()
                            is Some)
                        &&& (r->Ok_0 == Some(DispatcherAction::Destroy) ==> forall|d: int|
                            0 <= d < final(self).dispatchers@.len() ==> (#[trigger] final(self).dispatchers@[d]).0 != old(self).programs@[idx].spec_dispatcher_id()->Some_0)
                    }
            },
    {
        let idx = match self.find_program_index(id) {
            Some(i) => i,
            None => {
                return Err(BpfmanError::NotFound);
            },
        };
        match &self.programs[idx] {
            Program::Unsupported(_) => {
                return Err(
                    BpfmanError::InvalidArgument(
                        String::from_str("program is not owned by the daemon"),
                    ),
                );
            },
            _ => {},
        }
        if let Some(mi) = self.find_map_index(id) {
            if self.maps[mi].1.used_by.len() > 1 {
                return Err(BpfmanError::MapOwnerInUse(id));
            }
        }
        proof {
            assert(spec_remove_outcome(old(self), id) == 0) by {
                assert forall|p: int|
                    0 <= p < old(self).programs@.len() && (#[trigger] old(self).programs@[p]).spec_id() == Some(id) implies !(old(self).programs@[p] matches Program::Unsupported(_)) by {
                    if p != idx {
                        assert(old(self).programs@[p].spec_id() != old(self).programs@[idx
                            as int].spec_id());
                    }
                }
            }
        }
        self.registry_release(id);
        let ghost mid = *self;
        let act = self.uncommit(idx);
        proof {
            assert(mid.programs@ == old(self).programs@);
            assert(mid.dispatchers@ == old(self).dispatchers@);
            assert(0 <= idx < old(self).programs@.len() && old(self).programs@[idx
                as int].spec_id() == Some(id));
        }
        Ok(act)
    }
}

/// Removing the only program carrying an id leaves the id untracked.
proof fn lemma_removed_not_contained(
    progs0: Seq<Program>,
    progs1: Seq<Program>,
    idx: int,
    id: u32,
)
    requires
        0 <= idx < progs0.len(),
        progs0[idx].spec_id() == Some(id),
        forall|i: int, j: int|
            #![trigger progs0[i].spec_id(), progs0[j].spec_id()]
            0 <= i < j < progs0.len() ==> progs0[i].spec_id() != progs0[j].spec_id(),
        progs1 =~= progs0.subrange(0, idx) + progs0.subrange(idx + 1, progs0.len() as int),
    ensures
        !progs_contain_id(progs1, id),
        forall|id2: u32| id2 != id && progs_contain_id(progs0, id2) ==> progs_contain_id(
            progs1,
            id2,
        ),
{
    assert forall|p: int| 0 <= p < progs1.len() implies (#[trigger] progs1[p]).spec_id() != Some(
        id,
    ) by {
        let op = if p < idx {
            p
        } else {
            p + 1
        };
        assert(progs1[p] == progs0[op]);
        assert(progs0[op].spec_id() != progs0[idx].spec_id());
    }
    assert forall|id2: u32|
        id2 != id && progs_contain_id(progs0, id2) implies progs_contain_id(progs1, id2) by {
        let q = choose|q: int| 0 <= q < progs0.len() && progs0[q].spec_id() == Some(id2);
        assert(q != idx);
        if q < idx {
            assert(progs1[q] == progs0[q]);
        } else {
            assert(progs1[q - 1] == progs0[q]);
        }
    }
}


/// Index into the original list for a position in the list with `idx`
/// removed.
pub open spec fn shift_up(p: int, idx: int) -> int {
    if p < idx {
        p
    } else {
        p + 1
    }
}

/// Removing a program with no attach-point key preserves the invariant.
#[verifier::spinoff_prover]
proof fn lemma_uncommit_no_key(m0: BpfManager, fin: BpfManager, idx: int, removed: Program)
    requires
        m0.wf(),
        0 <= idx < m0.programs@.len(),
        removed == m0.programs@[idx],
        removed.spec_dispatcher_id() is None,
        forall|i: int| 0 <= i < m0.maps@.len() ==> (#[trigger] m0.maps@[i]).0
            != removed.spec_id()->Some_0,
        fin.programs@ =~= m0.programs@.subrange(0, idx) + m0.programs@.subrange(
            idx + 1,
            m0.programs@.len() as int,
        ),
        fin.dispatchers@ == m0.dispatchers@,
        fin.maps@ == m0.maps@,
    ensures
        fin.wf(),
{
    assert(m0.prog_position_ok(idx));
    assert forall|p: int| 0 <= p < fin.programs@.len() implies #[trigger] fin.programs@[p]
        == m0.programs@[shift_up(p, idx)] by {}
    assert forall|i: int, j: int|
        #![trigger fin.programs@[i].spec_id(), fin.programs@[j].spec_id()]
        0 <= i < j < fin.programs@.len() implies fin.programs@[i].spec_id()
        != fin.programs@[j].spec_id() by {
        assert(m0.programs@[shift_up(i, idx)].spec_id() != m0.programs@[shift_up(
            j,
            idx,
        )].spec_id());
    }
    assert forall|d: int, k: int|
        0 <= d < fin.dispatchers@.len() && 0 <= k < (
        #[trigger] fin.dispatchers@[d].1.entries@[k],
        fin.dispatchers@[d].1.entries@.len(),
        ).1 implies entry_backed(fin.programs@, fin.dispatchers@[d].0, fin.dispatchers@[d].1.entries@[k])
        by {
        let ent = fin.dispatchers@[d].1.entries@[k];
        assert(entry_backed(m0.programs@, m0.dispatchers@[d].0, ent));
        let q = choose|q: int|
            0 <= q < m0.programs@.len() && (#[trigger] m0.programs@[q]).spec_id() == Some(ent.id)
                && m0.programs@[q].spec_dispatcher_id() == Some(m0.dispatchers@[d].0)
                && m0.programs@[q].spec_priority() == Some(ent.priority);
        assert(q != idx);
        let qn = if q < idx {
            q
        } else {
            q - 1
        };
        assert(fin.programs@[qn] == m0.programs@[q]);
    }
    assert forall|p: int| 0 <= p < fin.programs@.len() implies #[trigger] fin.prog_position_ok(p)
        by {
        assert(fin.programs@[p] == m0.programs@[shift_up(p, idx)]);
        assert(m0.prog_position_ok(shift_up(p, idx)));
    }
    assert forall|i: int| 0 <= i < fin.maps@.len() implies progs_contain_id(
        fin.programs@,
        (#[trigger] fin.maps@[i]).0,
    ) by {
        assert(progs_contain_id(m0.programs@, m0.maps@[i].0));
        let q = choose|q: int|
            0 <= q < m0.programs@.len() && m0.programs@[q].spec_id() == Some(m0.maps@[i].0);
        assert(q != idx);
        let qn = if q < idx {
            q
        } else {
            q - 1
        };
        assert(fin.programs@[qn] == m0.programs@[q]);
    }
}

/// Removing the last program on an attach point destroys its dispatcher
/// and preserves the invariant.
#[verifier::rlimit(60)]
#[verifier::spinoff_prover]
proof fn lemma_uncommit_destroy(
    m0: BpfManager,
    fin: BpfManager,
    idx: int,
    removed: Program,
    key: DispatcherId,
    di: int,
)
    requires
        m0.wf(),
        0 <= idx < m0.programs@.len(),
        removed == m0.programs@[idx],
        removed.spec_dispatcher_id() == Some(key),
        forall|i: int| 0 <= i < m0.maps@.len() ==> (#[trigger] m0.maps@[i]).0
            != removed.spec_id()->Some_0,
        0 <= di < m0.dispatchers@.len(),
        m0.dispatchers@[di].0 == key,
        m0.dispatchers@[di].1.entries@.len() == 1,
        fin.programs@ =~= m0.programs@.subrange(0, idx) + m0.programs@.subrange(
            idx + 1,
            m0.programs@.len() as int,
        ),
        fin.dispatchers@ =~= m0.dispatchers@.subrange(0, di) + m0.dispatchers@.subrange(
            di + 1,
            m0.dispatchers@.len() as int,
        ),
        fin.maps@ == m0.maps@,
    ensures
        fin.wf(),
{
    assert(m0.prog_position_ok(idx));
    assert forall|p: int| 0 <= p < fin.programs@.len() implies #[trigger] fin.programs@[p]
        == m0.programs@[shift_up(p, idx)] by {}
    assert forall|d: int| 0 <= d < fin.dispatchers@.len() implies #[trigger] fin.dispatchers@[d]
        == m0.dispatchers@[shift_up(d, di)] by {}
    assert forall|i: int, j: int|
        #![trigger fin.programs@[i].spec_id(), fin.programs@[j].spec_id()]
        0 <= i < j < fin.programs@.len() implies fin.programs@[i].spec_id()
        != fin.programs@[j].spec_id() by {
        assert(m0.programs@[shift_up(i, idx)].spec_id() != m0.programs@[shift_up(
            j,
            idx,
        )].spec_id());
    }
    assert forall|i: int, j: int|
        #![trigger fin.dispatchers@[i].0, fin.dispatchers@[j].0]
        0 <= i < j < fin.dispatchers@.len() implies fin.dispatchers@[i].0 != fin.dispatchers@[j].0
        by {
        assert(m0.dispatchers@[shift_up(i, di)].0 != m0.dispatchers@[shift_up(j, di)].0);
    }
    // no other program sat on the destroyed attach point
    assert forall|p: int|
        0 <= p < m0.programs@.len() && p != idx implies (
    #[trigger] m0.programs@[p]).spec_dispatcher_id() != Some(key) by {
        if m0.programs@[p].spec_dispatcher_id() == Some(key) {
            assert(m0.prog_position_ok(p));
            let st = m0.programs@[p].spec_mp_state()->Some_0;
            assert(st.0->Some_0 < 1);
            assert(m0.dispatchers@[di].1.entries@[0].id == m0.programs@[p].spec_id()->Some_0);
            assert(m0.dispatchers@[di].1.entries@[0].id == removed.spec_id()->Some_0);
            assert(m0.programs@[p].spec_id() != m0.programs@[idx].spec_id());
        }
    }
    assert forall|d: int, k: int|
        0 <= d < fin.dispatchers@.len() && 0 <= k < (
        #[trigger] fin.dispatchers@[d].1.entries@[k],
        fin.dispatchers@[d].1.entries@.len(),
        ).1 implies entry_backed(fin.programs@, fin.dispatchers@[d].0, fin.dispatchers@[d].1.entries@[k])
        by {
        let od = shift_up(d, di);
        let ent = fin.dispatchers@[d].1.entries@[k];
        assert(fin.dispatchers@[d] == m0.dispatchers@[od]);
        assert(entry_backed(m0.programs@, m0.dispatchers@[od].0, ent));
        let q = choose|q: int|
            0 <= q < m0.programs@.len() && (#[trigger] m0.programs@[q]).spec_id() == Some(ent.id)
                && m0.programs@[q].spec_dispatcher_id() == Some(m0.dispatchers@[od].0)
                && m0.programs@[q].spec_priority() == Some(ent.priority);
        assert(m0.dispatchers@[od].0 != key);
        assert(q != idx);
        let qn = if q < idx {
            q
        } else {
            q - 1
        };
        assert(fin.programs@[qn] == m0.programs@[q]);
    }
    assert forall|p: int| 0 <= p < fin.programs@.len() implies #[trigger] fin.prog_position_ok(p)
        by {
        let op = shift_up(p, idx);
        assert(fin.programs@[p] == m0.programs@[op]);
        assert(m0.prog_position_ok(op));
        match fin.programs@[p].spec_mp_state() {
            Some(st) => {
                let pkey = fin.programs@[p].spec_dispatcher_id()->Some_0;
                assert(pkey != key);
                let dd = choose|dd: int|
                    0 <= dd < m0.dispatchers@.len() && (#[trigger] m0.dispatchers@[dd]).0 == pkey;
                assert(dd != di);
                let ddn = if dd < di {
                    dd
                } else {
                    dd - 1
                };
                assert(fin.dispatchers@[ddn] == m0.dispatchers@[dd]);
                assert forall|d2: int|
                    0 <= d2 < fin.dispatchers@.len() && (#[trigger] fin.dispatchers@[d2]).0 == pkey
                        implies {
                    &&& st.0->Some_0 < fin.dispatchers@[d2].1.entries@.len()
                    &&& fin.dispatchers@[d2].1.entries@[st.0->Some_0 as int].id == fin.programs@[
                        p
                    ].spec_id()->Some_0
                    &&& Some(fin.dispatchers@[d2].1.entries@[st.0->Some_0 as int].priority)
                        == fin.programs@[p].spec_priority()
                } by {
                    let od2 = shift_up(d2, di);
                    assert(fin.dispatchers@[d2] == m0.dispatchers@[od2]);
                }
            },
            None => {},
        }
    }
    assert forall|i: int| 0 <= i < fin.maps@.len() implies progs_contain_id(
        fin.programs@,
        (#[trigger] fin.maps@[i]).0,
    ) by {
        assert(progs_contain_id(m0.programs@, m0.maps@[i].0));
        let q = choose|q: int|
            0 <= q < m0.programs@.len() && m0.programs@[q].spec_id() == Some(m0.maps@[i].0);
        assert(q != idx);
        let qn = if q < idx {
            q
        } else {
            q - 1
        };
        assert(fin.programs@[qn] == m0.programs@[q]);
    }
}

/// After the catalog and dispatcher removals, every remaining program on
/// the key is still present in the dispatcher.
#[verifier::spinoff_prover]
proof fn lemma_uncommit_pre_sync(
    m0: BpfManager,
    mid: BpfManager,
    idx: int,
    removed: Program,
    key: DispatcherId,
    di: int,
    pos: int,
)
    requires
        m0.wf(),
        0 <= idx < m0.programs@.len(),
        removed == m0.programs@[idx],
        removed.spec_dispatcher_id() == Some(key),
        0 <= di < m0.dispatchers@.len(),
        m0.dispatchers@[di].0 == key,
        mid.dispatchers@.len() == m0.dispatchers@.len(),
        mid.dispatchers@[di].0 == key,
        0 <= pos < m0.dispatchers@[di].1.entries@.len(),
        m0.dispatchers@[di].1.entries@[pos].id == removed.spec_id()->Some_0,
        mid.dispatchers@[di].1.entries@ =~= m0.dispatchers@[di].1.entries@.subrange(0, pos)
            + m0.dispatchers@[di].1.entries@.subrange(
            pos + 1,
            m0.dispatchers@[di].1.entries@.len() as int,
        ),
        mid.programs@ =~= m0.programs@.subrange(0, idx) + m0.programs@.subrange(
            idx + 1,
            m0.programs@.len() as int,
        ),
    ensures
        forall|p: int|
            0 <= p < mid.programs@.len() && (#[trigger] mid.programs@[p]).spec_dispatcher_id()
                == Some(mid.dispatchers@[di].0) ==> mid.programs@[p].spec_id() is Some
                && mid.dispatchers@[di].1.spec_contains_id(mid.programs@[p].spec_id()->Some_0),
{
    assert forall|p: int|
        0 <= p < mid.programs@.len() && (#[trigger] mid.programs@[p]).spec_dispatcher_id() == Some(
            mid.dispatchers@[di].0,
        ) implies mid.programs@[p].spec_id() is Some && mid.dispatchers@[di].1.spec_contains_id(
        mid.programs@[p].spec_id()->Some_0,
    ) by {
        let op = shift_up(p, idx);
        assert(mid.programs@[p] == m0.programs@[op]);
        assert(m0.prog_position_ok(op));
        let st = m0.programs@[op].spec_mp_state()->Some_0;
        let kp = st.0->Some_0 as int;
        let old_es = m0.dispatchers@[di].1.entries@;
        assert(kp < old_es.len() && old_es[kp].id == m0.programs@[op].spec_id()->Some_0);
        assert(op != idx);
        assert(m0.programs@[op].spec_id() != m0.programs@[idx].spec_id());
        assert(kp != pos);
        if kp < pos {
            assert(mid.dispatchers@[di].1.entries@[kp] == old_es[kp]);
        } else {
            assert(mid.dispatchers@[di].1.entries@[kp - 1] == old_es[kp]);
        }
    }
}

/// After the position rewrite that follows a removal, the joint
/// invariant holds again.
#[verifier::rlimit(100)]
#[verifier::spinoff_prover]
proof fn lemma_uncommit_post_sync(
    m0: BpfManager,
    progs_mid: Seq<Program>,
    fin: BpfManager,
    idx: int,
    removed: Program,
    key: DispatcherId,
    di: int,
    pos: int,
)
    requires
        m0.wf(),
        0 <= idx < m0.programs@.len(),
        removed == m0.programs@[idx],
        removed.spec_dispatcher_id() == Some(key),
        forall|i: int| 0 <= i < m0.maps@.len() ==> (#[trigger] m0.maps@[i]).0
            != removed.spec_id()->Some_0,
        progs_mid =~= m0.programs@.subrange(0, idx) + m0.programs@.subrange(
            idx + 1,
            m0.programs@.len() as int,
        ),
        0 <= di < m0.dispatchers@.len(),
        m0.dispatchers@[di].0 == key,
        fin.dispatchers@.len() == m0.dispatchers@.len(),
        fin.dispatchers@[di].0 == key,
        fin.dispatchers@[di].1.wf(),
        0 <= pos < m0.dispatchers@[di].1.entries@.len(),
        m0.dispatchers@[di].1.entries@[pos].id == removed.spec_id()->Some_0,
        fin.dispatchers@[di].1.entries@ =~= m0.dispatchers@[di].1.entries@.subrange(0, pos)
            + m0.dispatchers@[di].1.entries@.subrange(
            pos + 1,
            m0.dispatchers@[di].1.entries@.len() as int,
        ),
        forall|d: int|
            0 <= d < m0.dispatchers@.len() && d != di ==> #[trigger] fin.dispatchers@[d]
                == m0.dispatchers@[d],
        fin.maps@ == m0.maps@,
        fin.programs@.len() == progs_mid.len(),
        forall|p: int|
            0 <= p < progs_mid.len() ==> same_except_mp(progs_mid[p], #[trigger] fin.programs@[p]),
        forall|p: int|
            0 <= p < progs_mid.len() && (#[trigger] progs_mid[p]).spec_dispatcher_id() != Some(key)
                ==> fin.programs@[p] == progs_mid[p],
        forall|p: int|
            0 <= p < progs_mid.len() && (#[trigger] progs_mid[p]).spec_dispatcher_id() == Some(key)
                ==> (fin.programs@[p].spec_mp_state() matches Some((posn, ifx, att)) && att && (
            posn matches Some(k) && k < fin.dispatchers@[di].1.entries@.len()
                && fin.dispatchers@[di].1.entries@[k as int].id == progs_mid[p].spec_id()->Some_0)),
    ensures
        fin.wf(),
{
    assert(m0.prog_position_ok(idx));
    assert forall|p: int| 0 <= p < progs_mid.len() implies #[trigger] progs_mid[p]
        == m0.programs@[shift_up(p, idx)] by {}
    assert forall|i: int, j: int|
        #![trigger fin.programs@[i].spec_id(), fin.programs@[j].spec_id()]
        0 <= i < j < fin.programs@.len() implies fin.programs@[i].spec_id()
        != fin.programs@[j].spec_id() by {
        assert(same_except_mp(progs_mid[i], fin.programs@[i]));
        assert(same_except_mp(progs_mid[j], fin.programs@[j]));
        assert(m0.programs@[shift_up(i, idx)].spec_id() != m0.programs@[shift_up(
            j,
            idx,
        )].spec_id());
    }
    assert forall|p: int| 0 <= p < fin.programs@.len() implies (
    #[trigger] fin.programs@[p]).spec_id() is Some by {
        assert(same_except_mp(progs_mid[p], fin.programs@[p]));
    }
    assert forall|i: int, j: int|
        #![trigger fin.dispatchers@[i].0, fin.dispatchers@[j].0]
        0 <= i < j < fin.dispatchers@.len() implies fin.dispatchers@[i].0 != fin.dispatchers@[j].0
        by {
        assert(fin.dispatchers@[i].0 == m0.dispatchers@[i].0);
        assert(fin.dispatchers@[j].0 == m0.dispatchers@[j].0);
    }
    assert forall|d: int| 0 <= d < fin.dispatchers@.len() implies (
    #[trigger] fin.dispatchers@[d].1).wf() by {
        if d != di {
            assert(fin.dispatchers@[d] == m0.dispatchers@[d]);
        }
    }
    assert forall|d: int, k: int|
        0 <= d < fin.dispatchers@.len() && 0 <= k < (
        #[trigger] fin.dispatchers@[d].1.entries@[k],
        fin.dispatchers@[d].1.entries@.len(),
        ).1 implies entry_backed(fin.programs@, fin.dispatchers@[d].0, fin.dispatchers@[d].1.entries@[k])
        by {
        let ent = fin.dispatchers@[d].1.entries@[k];
        let ko = if d == di {
            if k < pos {
                k
            } else {
                k + 1
            }
        } else {
            k
        };
        assert(ent == m0.dispatchers@[d].1.entries@[ko]);
        assert(entry_backed(m0.programs@, m0.dispatchers@[d].0, ent));
        let q = choose|q: int|
            0 <= q < m0.programs@.len() && (#[trigger] m0.programs@[q]).spec_id() == Some(ent.id)
                && m0.programs@[q].spec_dispatcher_id() == Some(m0.dispatchers@[d].0)
                && m0.programs@[q].spec_priority() == Some(ent.priority);
        assert(q != idx) by {
            if d == di {
                assert(m0.dispatchers@[di].1.entries@[ko].id != m0.dispatchers@[di].1.entries@[pos].id);
            } else {
                assert(m0.dispatchers@[d].0 != key);
            }
        }
        let qn = if q < idx {
            q
        } else {
            q - 1
        };
        assert(progs_mid[qn] == m0.programs@[q]);
        assert(same_except_mp(progs_mid[qn], fin.programs@[qn]));
    }
    assert forall|p: int| 0 <= p < fin.programs@.len() implies #[trigger] fin.prog_position_ok(p)
        by {
        let op = shift_up(p, idx);
        assert(progs_mid[p] == m0.programs@[op]);
        if progs_mid[p].spec_dispatcher_id() == Some(key) {
            let st = fin.programs@[p].spec_mp_state()->Some_0;
            let kpos = st.0->Some_0 as int;
            let pid = progs_mid[p].spec_id()->Some_0;
            assert(fin.dispatchers@[di].1.entries@[kpos].id == pid);
            assert(entry_backed(fin.programs@, key, fin.dispatchers@[di].1.entries@[kpos]));
            let q = choose|q: int|
                0 <= q < fin.programs@.len() && (#[trigger] fin.programs@[q]).spec_id() == Some(
                    fin.dispatchers@[di].1.entries@[kpos].id,
                ) && fin.programs@[q].spec_dispatcher_id() == Some(key)
                    && fin.programs@[q].spec_priority() == Some(
                    fin.dispatchers@[di].1.entries@[kpos].priority,
                );
            assert(fin.programs@[p].spec_id() == Some(pid));
            if q != p {
                assert(fin.programs@[q].spec_id() != fin.programs@[p].spec_id());
            }
            assert(fin.programs@[p].spec_priority() == Some(
                fin.dispatchers@[di].1.entries@[kpos].priority,
            ));
            assert forall|d: int|
                0 <= d < fin.dispatchers@.len() && (#[trigger] fin.dispatchers@[d]).0
                    == fin.programs@[p].spec_dispatcher_id()->Some_0 implies d == di by {
                if d != di {
                    assert(fin.dispatchers@[d].0 != fin.dispatchers@[di].0);
                }
            }
        } else {
            assert(fin.programs@[p] == progs_mid[p]);
            assert(m0.prog_position_ok(op));
            match fin.programs@[p].spec_mp_state() {
                Some(st) => {
                    let pkey = fin.programs@[p].spec_dispatcher_id()->Some_0;
                    assert(pkey != key);
                    let dd = choose|dd: int|
                        0 <= dd < m0.dispatchers@.len() && (#[trigger] m0.dispatchers@[dd]).0
                            == pkey;
                    assert(dd != di);
                    assert(fin.dispatchers@[dd] == m0.dispatchers@[dd]);
                    assert forall|d2: int|
                        0 <= d2 < fin.dispatchers@.len() && (#[trigger] fin.dispatchers@[d2]).0
                            == pkey implies {
                        &&& st.0->Some_0 < fin.dispatchers@[d2].1.entries@.len()
                        &&& fin.dispatchers@[d2].1.entries@[st.0->Some_0 as int].id
                            == fin.programs@[p].spec_id()->Some_0
                        &&& Some(fin.dispatchers@[d2].1.entries@[st.0->Some_0 as int].priority)
                            == fin.programs@[p].spec_priority()
                    } by {
                        assert(d2 != di);
                        assert(fin.dispatchers@[d2] == m0.dispatchers@[d2]);
                    }
                },
                None => {},
            }
        }
    }
    assert forall|i: int| 0 <= i < fin.maps@.len() implies progs_contain_id(
        fin.programs@,
        (#[trigger] fin.maps@[i]).0,
    ) by {
        assert(progs_contain_id(m0.programs@, m0.maps@[i].0));
        let q = choose|q: int|
            0 <= q < m0.programs@.len() && m0.programs@[q].spec_id() == Some(m0.maps@[i].0);
        assert(q != idx);
        let qn = if q < idx {
            q
        } else {
            q - 1
        };
        assert(progs_mid[qn] == m0.programs@[q]);
        assert(same_except_mp(progs_mid[qn], fin.programs@[qn]));
    }
}


/// Whether slot `k` of dispatcher `d` is held by a tracked program whose
/// recorded position is that slot.
pub open spec fn slot_held(m: &BpfManager, d: int, k: int) -> bool {
    exists|p: int|
        0 <= p < m.programs@.len() && (#[trigger] m.programs@[p]).spec_id() == Some(
            m.dispatchers@[d].1.entries@[k].id,
        ) && m.programs@[p].spec_dispatcher_id() == Some(m.dispatchers@[d].0) && (
        m.programs@[p].spec_mp_state() matches Some(st) && st.0 == Some(k as usize) && st.2)
}

/// For every attach-point key: the programs sharing it hold exactly the
/// positions `0..n` (each slot is held by a tracked program whose recorded
/// position is that slot), and the slot order is the strict
/// `(priority, id)` sort.
pub proof fn lemma_positions_dense_and_sorted(m: &BpfManager, d: int)
    requires
        m.wf(),
        0 <= d < m.dispatchers@.len(),
    ensures
        forall|k: int| 0 <= k < m.dispatchers@[d].1.entries@.len() ==> #[trigger] slot_held(
            m,
            d,
            k,
        ),
        forall|k1: int, k2: int|
            #![trigger m.dispatchers@[d].1.entries@[k1], m.dispatchers@[d].1.entries@[k2]]
            0 <= k1 < k2 < m.dispatchers@[d].1.entries@.len() ==> entry_lt(
                m.dispatchers@[d].1.entries@[k1],
                m.dispatchers@[d].1.entries@[k2],
            ),
{
    let key = m.dispatchers@[d].0;
    assert forall|k: int| 0 <= k < m.dispatchers@[d].1.entries@.len() implies #[trigger] slot_held(
        m,
        d,
        k,
    ) by {
        let ent = m.dispatchers@[d].1.entries@[k];
        assert(entry_backed(m.programs@, key, ent));
        let q = choose|q: int|
            0 <= q < m.programs@.len() && (#[trigger] m.programs@[q]).spec_id() == Some(ent.id)
                && m.programs@[q].spec_dispatcher_id() == Some(key)
                && m.programs@[q].spec_priority() == Some(ent.priority);
        assert(m.prog_position_ok(q));
        let st = m.programs@[q].spec_mp_state()->Some_0;
        let kq = st.0->Some_0 as int;
        assert(m.dispatchers@[d].1.entries@[kq].id == ent.id);
        assert(kq == k) by {
            if kq != k {
                assert(m.dispatchers@[d].1.entries@[kq].id != m.dispatchers@[d].1.entries@[k].id);
            }
        }
    }
}

/// A tracked id is observable: some catalog index carries it, so `Get`
/// succeeds on it and `List` includes it.
pub proof fn lemma_tracked_observable(m: &BpfManager, id: u32)
    requires
        m.spec_contains_id(id),
    ensures
        exists|i: int|
            0 <= i < m.programs@.len() && (#[trigger] m.programs@[i]).spec_id() == Some(id),
{
}


impl BpfManager {
    /// Records a kernel-visible program the daemon did not load.  On
    /// restart the daemon reconciles the kernel's program list against the
    /// catalog by observing each entry: afterwards every kernel-loaded id
    /// is tracked, daemon-owned entries as they were and foreign ones as
    /// `Unsupported`; an id already tracked is left untouched.
    pub fn observe_kernel_program(&mut self, info: KernelProgramInfo)
        requires
            old(self).wf(),
        ensures
            final(self).wf(),
            final(self).spec_contains_id(info.id),
            forall|id2: u32|
                old(self).spec_contains_id(id2) ==> final(self).spec_contains_id(id2),
            final(self).maps@ == old(self).maps@,
            final(self).dispatchers@ == old(self).dispatchers@,
            old(self).spec_contains_id(info.id) ==> *final(self) == *old(self),
            !old(self).spec_contains_id(info.id) ==> final(self).programs@ == old(
                self,
            ).programs@.push(Program::Unsupported(info)),
    {
        let id = info.id;
        if self.find_program_index(id).is_some() {
            return ;
        }
        let program = Program::Unsupported(info);
        self.commit_simple(program, id);
        proof {
            assert(self.programs@[self.programs@.len() - 1].spec_id() == Some(id));
            assert forall|id2: u32|
                old(self).spec_contains_id(id2) implies progs_contain_id(self.programs@, id2) by {
                let q = choose|q: int|
                    0 <= q < old(self).programs@.len() && old(self).programs@[q].spec_id() == Some(
                        id2,
                    );
                assert(self.programs@[q].spec_id() == Some(id2));
            }
        }
    }
}

} // verus!
