//! The flattened key-value encoding of tracked programs.
//!
//! Every attribute of a program is one key-value pair, keyed
//! `"<id>_<field>"`; string values are stored as UTF-8 text and integers
//! and booleans big-endian fixed-width, booleans as a signed byte holding
//! 0 or 1.  Collections use indexed sub-keys and are preceded by a count
//! pair, so a record is self-delimiting when read back in order.

use vstd::prelude::*;

use crate::encoding::{
    be_bytes_of_i32, be_bytes_of_u32, be_bytes_of_u64, be_u32, bool_to_bytes, byte_of_bool,
    bytes_to_bool, bytes_to_u32, i32_to_bytes, u32_to_bytes, u64_to_bytes,
};
use crate::strutil::{dec_str, u32_to_string};
use crate::types::{KernelProgramInfo, ProgramData, TracepointProgram, XdpProgram};

verus! {

/// A stored value: UTF-8 text or raw big-endian bytes.
#[derive(Clone, Debug)]
pub enum CatValue {
    S(String),
    B(Vec<u8>),
}

/// The mathematical value of a [`CatValue`].
pub enum CatValueV {
    S(Seq<char>),
    B(Seq<u8>),
}

impl View for CatValue {
    type V = CatValueV;

    open spec fn view(&self) -> CatValueV {
        match self {
            CatValue::S(s) => CatValueV::S(s@),
            CatValue::B(b) => CatValueV::B(b@),
        }
    }
}

impl DeepView for CatValue {
    type V = CatValueV;

    open spec fn deep_view(&self) -> CatValueV {
        self@
    }
}

/// One catalog pair.
#[derive(Clone, Debug)]
pub struct CatEntry {
    pub key: String,
    pub value: CatValue,
}

/// The mathematical value of a [`CatEntry`].
pub struct CatEntryV {
    pub key: Seq<char>,
    pub value: CatValueV,
}

impl View for CatEntry {
    type V = CatEntryV;

    open spec fn view(&self) -> CatEntryV {
        CatEntryV { key: self.key@, value: self.value@ }
    }
}

impl DeepView for CatEntry {
    type V = CatEntryV;

    open spec fn deep_view(&self) -> CatEntryV {
        self@
    }
}

/// The key for one field of one program: the id in decimal, then the
/// field suffix.
pub open spec fn key_view(id: u32, suffix: Seq<char>) -> Seq<char> {
    dec_str(id as int) + suffix
}

/// Builds a field key.
pub fn key_for(id: u32, suffix: &str) -> (r: String)
    ensures
        r@ == key_view(id, suffix@),
{
    let mut s = u32_to_string(id);
    s.append(suffix);
    s
}

/// The pairs that persist a kernel-info record, in storage order; the
/// kernel-assigned map ids come last, behind their count.
pub open spec fn spec_flatten_kernel_info(k: crate::types::KernelProgramInfoV, id: u32) -> Seq<
    CatEntryV,
> {
    seq![
        CatEntryV { key: key_view(id, "_kernel_info_id"@), value: CatValueV::B(be_bytes_of_u32(k.id)) },
        CatEntryV { key: key_view(id, "_kernel_info_name"@), value: CatValueV::S(k.name) },
        CatEntryV {
            key: key_view(id, "_kernel_info_program_type"@),
            value: CatValueV::B(be_bytes_of_u32(k.program_type)),
        },
        CatEntryV { key: key_view(id, "_kernel_info_loaded_at"@), value: CatValueV::S(k.loaded_at) },
        CatEntryV { key: key_view(id, "_kernel_info_tag"@), value: CatValueV::S(k.tag) },
        CatEntryV {
            key: key_view(id, "_kernel_info_gpl_compatible"@),
            value: CatValueV::B(seq![byte_of_bool(k.gpl_compatible)]),
        },
        CatEntryV {
            key: key_view(id, "_kernel_info_btf_id"@),
            value: CatValueV::B(be_bytes_of_u32(k.btf_id)),
        },
        CatEntryV {
            key: key_view(id, "_kernel_info_bytes_xlated"@),
            value: CatValueV::B(be_bytes_of_u32(k.bytes_xlated)),
        },
        CatEntryV {
            key: key_view(id, "_kernel_info_jited"@),
            value: CatValueV::B(seq![byte_of_bool(k.jited)]),
        },
        CatEntryV {
            key: key_view(id, "_kernel_info_bytes_jited"@),
            value: CatValueV::B(be_bytes_of_u32(k.bytes_jited)),
        },
        CatEntryV {
            key: key_view(id, "_kernel_info_bytes_memlock"@),
            value: CatValueV::B(be_bytes_of_u32(k.bytes_memlock)),
        },
        CatEntryV {
            key: key_view(id, "_kernel_info_verified_insns"@),
            value: CatValueV::B(be_bytes_of_u32(k.verified_insns)),
        },
        CatEntryV {
            key: key_view(id, "_kernel_info_map_ids_count"@),
            value: CatValueV::B(be_bytes_of_u32(k.map_ids.len() as u32)),
        },
    ] + Seq::new(
        k.map_ids.len(),
        |i: int|
            CatEntryV {
                key: key_view(id, "_kernel_info_map_ids_"@ + dec_str(i)),
                value: CatValueV::B(be_bytes_of_u32(k.map_ids[i])),
            },
    )
}

/// A record that the encoding can persist exactly: the map-id list fits
/// the count field.
pub open spec fn kernel_info_encodable(k: crate::types::KernelProgramInfoV) -> bool {
    k.map_ids.len() < 0x1_0000_0000
}


/// Flattens a kernel-info record into its catalog pairs.
pub fn flatten_kernel_info(k: &KernelProgramInfo, id: u32) -> (r: Vec<CatEntry>)
    requires
        k@.map_ids.len() < 0x1_0000_0000,
    ensures
        r.deep_view() =~= spec_flatten_kernel_info(k@, id),
{
    let mut out: Vec<CatEntry> = Vec::new();
    out.push(
        CatEntry {
            key: key_for(id, "_kernel_info_id"),
            value: CatValue::B(u32_to_bytes(k.id)),
        },
    );
    out.push(
        CatEntry { key: key_for(id, "_kernel_info_name"), value: CatValue::S(k.name.clone()) },
    );
    out.push(
        CatEntry {
            key: key_for(id, "_kernel_info_program_type"),
            value: CatValue::B(u32_to_bytes(k.program_type)),
        },
    );
    out.push(
        CatEntry {
            key: key_for(id, "_kernel_info_loaded_at"),
            value: CatValue::S(k.loaded_at.clone()),
        },
    );
    out.push(
        CatEntry { key: key_for(id, "_kernel_info_tag"), value: CatValue::S(k.tag.clone()) },
    );
    out.push(
        CatEntry {
            key: key_for(id, "_kernel_info_gpl_compatible"),
            value: CatValue::B(bool_to_bytes(k.gpl_compatible)),
        },
    );
    out.push(
        CatEntry {
            key: key_for(id, "_kernel_info_btf_id"),
            value: CatValue::B(u32_to_bytes(k.btf_id)),
        },
    );
    out.push(
        CatEntry {
            key: key_for(id, "_kernel_info_bytes_xlated"),
            value: CatValue::B(u32_to_bytes(k.bytes_xlated)),
        },
    );
    out.push(
        CatEntry {
            key: key_for(id, "_kernel_info_jited"),
            value: CatValue::B(bool_to_bytes(k.jited)),
        },
    );
    out.push(
        CatEntry {
            key: key_for(id, "_kernel_info_bytes_jited"),
            value: CatValue::B(u32_to_bytes(k.bytes_jited)),
        },
    );
    out.push(
        CatEntry {
            key: key_for(id, "_kernel_info_bytes_memlock"),
            value: CatValue::B(u32_to_bytes(k.bytes_memlock)),
        },
    );
    out.push(
        CatEntry {
            key: key_for(id, "_kernel_info_verified_insns"),
            value: CatValue::B(u32_to_bytes(k.verified_insns)),
        },
    );
    out.push(
        CatEntry {
            key: key_for(id, "_kernel_info_map_ids_count"),
            value: CatValue::B(u32_to_bytes(k.map_ids.len() as u32)),
        },
    );
    let ghost fixed = out.deep_view();
    proof {
        assert(fixed =~= spec_flatten_kernel_info(k@, id).subrange(0, 13));
    }
    let mut i: usize = 0;
    while i < k.map_ids.len()
        invariant
            k.map_ids@.len() < 0x1_0000_0000,
            fixed =~= spec_flatten_kernel_info(k@, id).subrange(0, 13),
            i <= k.map_ids@.len(),
            out.deep_view().len() == 13 + i,
            forall|q: int| 0 <= q < 13 ==> out.deep_view()[q] == fixed[q],
            fixed.len() == 13,
            forall|q: int|
                0 <= q < i ==> out.deep_view()[13 + q] == (CatEntryV {
                    key: key_view(id, "_kernel_info_map_ids_"@ + dec_str(q)),
                    value: CatValueV::B(be_bytes_of_u32(k.map_ids@[q])),
                }),
        decreases k.map_ids@.len() - i,
    {
        let mut suffix = String::from_str("_kernel_info_map_ids_");
        let idx = u32_to_string(i as u32);
        suffix.append(idx.as_str());
        let key = key_for(id, suffix.as_str());
        proof {
            assert(i as u32 as int == i as int);
            assert(key@ == key_view(id, "_kernel_info_map_ids_"@ + dec_str(i as int)));
        }
        out.push(CatEntry { key, value: CatValue::B(u32_to_bytes(k.map_ids[i])) });
        i += 1;
    }
    proof {
        let spec_seq = spec_flatten_kernel_info(k@, id);
        assert(out.deep_view().len() == spec_seq.len());
        assert forall|j: int| 0 <= j < out.deep_view().len() implies out.deep_view()[j]
            == spec_seq[j] by {
            if j < 13 {
                assert(out.deep_view()[j] == fixed[j]);
            } else {
                let q = j - 13;
                assert(out.deep_view()[13 + q] == (CatEntryV {
                    key: key_view(id, "_kernel_info_map_ids_"@ + dec_str(q)),
                    value: CatValueV::B(be_bytes_of_u32(k.map_ids@[q])),
                }));
            }
        }
        assert(out.deep_view() =~= spec_seq);
    }
    out
}

/// Reads a stored `u32` field.
fn entry_u32(e: &CatEntry) -> (r: Option<u32>)
    ensures
        r matches Some(v) ==> (e@.value matches CatValueV::B(b) && b.len() == 4 && v == be_u32(b)),
        r is None <==> !(e@.value matches CatValueV::B(b) && b.len() == 4),
{
    match &e.value {
        CatValue::B(b) => {
            if b.len() == 4 {
                Some(bytes_to_u32(b.as_slice()))
            } else {
                None
            }
        },
        CatValue::S(_) => None,
    }
}

/// Reads a stored boolean field.
fn entry_bool(e: &CatEntry) -> (r: Option<bool>)
    ensures
        r matches Some(v) ==> (e@.value matches CatValueV::B(b) && b.len() == 1 && v
            == crate::encoding::bool_of_byte(b[0])),
        r is None <==> !(e@.value matches CatValueV::B(b) && b.len() == 1),
{
    match &e.value {
        CatValue::B(b) => {
            if b.len() == 1 {
                Some(bytes_to_bool(b.as_slice()))
            } else {
                None
            }
        },
        CatValue::S(_) => None,
    }
}

/// Reads a stored text field.
fn entry_str(e: &CatEntry) -> (r: Option<String>)
    ensures
        r matches Some(v) ==> e@.value == CatValueV::S(v@),
        r is None <==> !(e@.value matches CatValueV::S(_)),
{
    match &e.value {
        CatValue::S(v) => Some(v.clone()),
        CatValue::B(_) => None,
    }
}

/// Reads a kernel-info record back from its catalog pairs.
///
/// This is the inverse of [`flatten_kernel_info`]: on any list it
/// produced, reconstruction succeeds and returns the exact record;
/// flatten, scan, reconstruct is the identity.
#[verifier::rlimit(90)]
#[verifier::spinoff_prover]
pub fn reconstruct_kernel_info(id: u32, entries: &Vec<CatEntry>) -> (r: Option<KernelProgramInfo>)
    ensures
        forall|kv: crate::types::KernelProgramInfoV|
            kernel_info_encodable(kv) && entries.deep_view() == spec_flatten_kernel_info(kv, id)
                ==> (r matches Some(k) && k@ == kv),
{
    if entries.len() < 13 {
        proof {
            assert forall|kv: crate::types::KernelProgramInfoV|
                kernel_info_encodable(kv) && entries.deep_view() == spec_flatten_kernel_info(
                    kv,
                    id,
                ) implies false by {
                assert(spec_flatten_kernel_info(kv, id).len() >= 13);
            }
        }
        return None;
    }
    let f0 = entry_u32(&entries[0]);
    let f1 = entry_str(&entries[1]);
    let f2 = entry_u32(&entries[2]);
    let f3 = entry_str(&entries[3]);
    let f4 = entry_str(&entries[4]);
    let f5 = entry_bool(&entries[5]);
    let f6 = entry_u32(&entries[6]);
    let f7 = entry_u32(&entries[7]);
    let f8 = entry_bool(&entries[8]);
    let f9 = entry_u32(&entries[9]);
    let f10 = entry_u32(&entries[10]);
    let f11 = entry_u32(&entries[11]);
    let f12 = entry_u32(&entries[12]);
    proof {
        assert forall|kv: crate::types::KernelProgramInfoV|
            kernel_info_encodable(kv) && entries.deep_view() == spec_flatten_kernel_info(kv, id)
            implies (f0 is Some && f1 is Some && f2 is Some && f3 is Some && f4 is Some
            && f5 is Some && f6 is Some && f7 is Some && f8 is Some && f9 is Some && f10 is Some
            && f11 is Some && f12 is Some) by {
            assert(entries.deep_view()[0] == spec_flatten_kernel_info(kv, id)[0]);
            assert(entries.deep_view()[1] == spec_flatten_kernel_info(kv, id)[1]);
            assert(entries.deep_view()[2] == spec_flatten_kernel_info(kv, id)[2]);
            assert(entries.deep_view()[3] == spec_flatten_kernel_info(kv, id)[3]);
            assert(entries.deep_view()[4] == spec_flatten_kernel_info(kv, id)[4]);
            assert(entries.deep_view()[5] == spec_flatten_kernel_info(kv, id)[5]);
            assert(entries.deep_view()[6] == spec_flatten_kernel_info(kv, id)[6]);
            assert(entries.deep_view()[7] == spec_flatten_kernel_info(kv, id)[7]);
            assert(entries.deep_view()[8] == spec_flatten_kernel_info(kv, id)[8]);
            assert(entries.deep_view()[9] == spec_flatten_kernel_info(kv, id)[9]);
            assert(entries.deep_view()[10] == spec_flatten_kernel_info(kv, id)[10]);
            assert(entries.deep_view()[11] == spec_flatten_kernel_info(kv, id)[11]);
            assert(entries.deep_view()[12] == spec_flatten_kernel_info(kv, id)[12]);
        }
    }
    let parsed = match (f0, f1, f2, f3, f4, f5, f6, f7, f8, f9, f10, f11, f12) {
        (
            Some(kid),
            Some(name),
            Some(program_type),
            Some(loaded_at),
            Some(tag),
            Some(gpl_compatible),
            Some(btf_id),
            Some(bytes_xlated),
            Some(jited),
            Some(bytes_jited),
            Some(bytes_memlock),
            Some(verified_insns),
            Some(count),
        ) => (
            kid,
            name,
            program_type,
            loaded_at,
            tag,
            gpl_compatible,
            btf_id,
            bytes_xlated,
            jited,
            bytes_jited,
            bytes_memlock,
            verified_insns,
            count,
        ),
        _ => {
            return None;
        },
    };
    let (
        kid,
        name,
        program_type,
        loaded_at,
        tag,
        gpl_compatible,
        btf_id,
        bytes_xlated,
        jited,
        bytes_jited,
        bytes_memlock,
        verified_insns,
        count,
    ) = parsed;
    if entries.len() - 13 != count as usize {
        proof {
            assert forall|kv: crate::types::KernelProgramInfoV|
                kernel_info_encodable(kv) && entries.deep_view() == spec_flatten_kernel_info(
                    kv,
                    id,
                ) implies false by {
                assert(spec_flatten_kernel_info(kv, id).len() == 13 + kv.map_ids.len());
                assert(entries.deep_view().len() == entries@.len());
                assert(entries.deep_view()[12] == spec_flatten_kernel_info(kv, id)[12]);
                crate::encoding::lemma_u32_round_trip(kv.map_ids.len() as u32);
                assert(count == kv.map_ids.len() as u32);
            }
        }
        return None;
    }
    let mut map_ids: Vec<u32> = Vec::new();
    let mut i: usize = 0;
    let mut malformed = false;
    let ghost mut bad_at: int = 0;
    while i < count as usize
        invariant
            13 + count as usize == entries@.len(),
            entries@.len() <= usize::MAX,
            i <= count,
            !malformed ==> map_ids@.len() == i,
            malformed ==> (0 <= bad_at < count && i == count && !(
            entries.deep_view()[13 + bad_at].value matches CatValueV::B(b) && b.len() == 4)),
            forall|q: int|
                #![trigger map_ids@[q]]
                0 <= q < map_ids@.len() ==> entries.deep_view()[13 + q].value == CatValueV::B(
                    be_bytes_of_u32(map_ids@[q]),
                ),
        decreases count as int - i,
    {
        match entry_u32(&entries[13 + i]) {
            Some(v) => {
                map_ids.push(v);
                proof {
                    crate::encoding::lemma_u32_bytes_round_trip(
                        entries.deep_view()[13 + i as int].value->B_0,
                    );
                }
                i += 1;
            },
            None => {
                proof {
                    bad_at = i as int;
                }
                malformed = true;
                i = count as usize;
            },
        }
    }
    if malformed {
        proof {
            assert forall|kv: crate::types::KernelProgramInfoV|
                kernel_info_encodable(kv) && entries.deep_view() == spec_flatten_kernel_info(
                    kv,
                    id,
                ) implies false by {
                assert(entries.deep_view()[12] == spec_flatten_kernel_info(kv, id)[12]);
                crate::encoding::lemma_u32_round_trip(kv.map_ids.len() as u32);
                assert(entries.deep_view()[13 + bad_at] == spec_flatten_kernel_info(kv, id)[13
                    + bad_at]);
            }
        }
        return None;
    }
    let result = KernelProgramInfo {
        id: kid,
        name,
        program_type,
        loaded_at,
        tag,
        gpl_compatible,
        map_ids,
        btf_id,
        bytes_xlated,
        jited,
        bytes_jited,
        bytes_memlock,
        verified_insns,
    };
    proof {
        assert forall|kv: crate::types::KernelProgramInfoV|
            kernel_info_encodable(kv) && entries.deep_view() == spec_flatten_kernel_info(kv, id)
            implies result@ == kv by {
            assert(entries.deep_view()[0] == spec_flatten_kernel_info(kv, id)[0]);
            assert(entries.deep_view()[1] == spec_flatten_kernel_info(kv, id)[1]);
            assert(entries.deep_view()[2] == spec_flatten_kernel_info(kv, id)[2]);
            assert(entries.deep_view()[3] == spec_flatten_kernel_info(kv, id)[3]);
            assert(entries.deep_view()[4] == spec_flatten_kernel_info(kv, id)[4]);
            assert(entries.deep_view()[5] == spec_flatten_kernel_info(kv, id)[5]);
            assert(entries.deep_view()[6] == spec_flatten_kernel_info(kv, id)[6]);
            assert(entries.deep_view()[7] == spec_flatten_kernel_info(kv, id)[7]);
            assert(entries.deep_view()[8] == spec_flatten_kernel_info(kv, id)[8]);
            assert(entries.deep_view()[9] == spec_flatten_kernel_info(kv, id)[9]);
            assert(entries.deep_view()[10] == spec_flatten_kernel_info(kv, id)[10]);
            assert(entries.deep_view()[11] == spec_flatten_kernel_info(kv, id)[11]);
            assert(entries.deep_view()[12] == spec_flatten_kernel_info(kv, id)[12]);
            crate::encoding::lemma_u32_round_trip(kv.id);
            crate::encoding::lemma_u32_round_trip(kv.program_type);
            crate::encoding::lemma_u32_round_trip(kv.btf_id);
            crate::encoding::lemma_u32_round_trip(kv.bytes_xlated);
            crate::encoding::lemma_u32_round_trip(kv.bytes_jited);
            crate::encoding::lemma_u32_round_trip(kv.bytes_memlock);
            crate::encoding::lemma_u32_round_trip(kv.verified_insns);
            crate::encoding::lemma_u32_round_trip(kv.map_ids.len() as u32);
            assert(spec_flatten_kernel_info(kv, id).len() == 13 + kv.map_ids.len());
            assert(entries.deep_view().len() == 13 + count);
            assert(kv.map_ids.len() == count as int);
            assert(map_ids@.len() == count as int);
            assert forall|q: int| 0 <= q < kv.map_ids.len() implies map_ids@[q] == kv.map_ids[q]
                by {
                assert(entries.deep_view()[13 + q] == spec_flatten_kernel_info(kv, id)[13 + q]);
                assert(entries.deep_view()[13 + q].value == CatValueV::B(
                    be_bytes_of_u32(kv.map_ids[q]),
                ));
                assert(entries.deep_view()[13 + q].value == CatValueV::B(
                    be_bytes_of_u32(map_ids@[q]),
                ));
                assert(be_bytes_of_u32(kv.map_ids[q]) == be_bytes_of_u32(map_ids@[q]));
                crate::encoding::lemma_u32_round_trip(kv.map_ids[q]);
                crate::encoding::lemma_u32_round_trip(map_ids@[q]);
            }
            assert(map_ids@ =~= kv.map_ids);
        }
    }
    Some(result)
}

/// The pairs that persist an XDP program's attach parameters: priority,
/// interface, proceed-on set (count then values), attached flag, slot
/// position and interface index, as the running daemon holds them.
pub open spec fn spec_flatten_xdp(p: XdpProgram, id: u32) -> Seq<CatEntryV> {
    seq![
        CatEntryV {
            key: key_view(id, "_xdp_priority"@),
            value: CatValueV::B(be_bytes_of_i32(p.priority)),
        },
        CatEntryV { key: key_view(id, "_xdp_iface"@), value: CatValueV::S(p.iface@) },
        CatEntryV {
            key: key_view(id, "_xdp_proceed_on_count"@),
            value: CatValueV::B(be_bytes_of_u32(p.proceed_on@.len() as u32)),
        },
    ] + Seq::new(
        p.proceed_on@.len(),
        |i: int|
            CatEntryV {
                key: key_view(id, "_xdp_proceed_on_"@ + dec_str(i)),
                value: CatValueV::B(
                    be_bytes_of_i32(crate::proceed_on::xdp_action_value(p.proceed_on@[i])),
                ),
            },
    ) + seq![
        CatEntryV {
            key: key_view(id, "_xdp_attached"@),
            value: CatValueV::B(seq![byte_of_bool(p.attached)]),
        },
        CatEntryV {
            key: key_view(id, "_xdp_current_position"@),
            value: CatValueV::B(
                be_bytes_of_u64(
                    match p.current_position {
                        Some(cp) => cp as u64,
                        None => 0,
                    },
                ),
            ),
        },
        CatEntryV {
            key: key_view(id, "_xdp_if_index"@),
            value: CatValueV::B(
                be_bytes_of_u32(
                    match p.if_index {
                        Some(ifx) => ifx,
                        None => 0,
                    },
                ),
            ),
        },
    ]
}

/// Flattens an XDP program's attach parameters into catalog pairs.
pub fn flatten_xdp(p: &XdpProgram, id: u32) -> (r: Vec<CatEntry>)
    requires
        p.proceed_on@.len() < 0x1_0000_0000,
    ensures
        r.deep_view() =~= spec_flatten_xdp(*p, id),
{
    let mut out: Vec<CatEntry> = Vec::new();
    out.push(
        CatEntry { key: key_for(id, "_xdp_priority"), value: CatValue::B(i32_to_bytes(p.priority)) },
    );
    out.push(CatEntry { key: key_for(id, "_xdp_iface"), value: CatValue::S(p.iface.clone()) });
    let actions = p.proceed_on.as_action_vec();
    out.push(
        CatEntry {
            key: key_for(id, "_xdp_proceed_on_count"),
            value: CatValue::B(u32_to_bytes(actions.len() as u32)),
        },
    );
    let ghost fixed = out.deep_view();
    proof {
        assert(fixed =~= spec_flatten_xdp(*p, id).subrange(0, 3));
    }
    let mut i: usize = 0;
    while i < actions.len()
        invariant
            p.proceed_on@.len() < 0x1_0000_0000,
            fixed =~= spec_flatten_xdp(*p, id).subrange(0, 3),
            actions@.len() == p.proceed_on@.len(),
            forall|q: int|
                0 <= q < actions@.len() ==> actions@[q] == crate::proceed_on::xdp_action_value(
                    #[trigger] p.proceed_on@[q],
                ),
            i <= actions@.len(),
            out.deep_view().len() == 3 + i,
            fixed.len() == 3,
            forall|q: int| 0 <= q < 3 ==> out.deep_view()[q] == fixed[q],
            forall|q: int|
                0 <= q < i ==> out.deep_view()[3 + q] == (CatEntryV {
                    key: key_view(id, "_xdp_proceed_on_"@ + dec_str(q)),
                    value: CatValueV::B(
                        be_bytes_of_i32(crate::proceed_on::xdp_action_value(p.proceed_on@[q])),
                    ),
                }),
        decreases actions@.len() - i,
    {
        let mut suffix = String::from_str("_xdp_proceed_on_");
        let idx = u32_to_string(i as u32);
        suffix.append(idx.as_str());
        let key = key_for(id, suffix.as_str());
        proof {
            assert(i as u32 as int == i as int);
            assert(key@ == key_view(id, "_xdp_proceed_on_"@ + dec_str(i as int)));
        }
        out.push(CatEntry { key, value: CatValue::B(i32_to_bytes(actions[i])) });
        i += 1;
    }
    out.push(
        CatEntry {
            key: key_for(id, "_xdp_attached"),
            value: CatValue::B(bool_to_bytes(p.attached)),
        },
    );
    let position: u64 = match p.current_position {
        Some(cp) => cp as u64,
        None => 0,
    };
    out.push(
        CatEntry {
            key: key_for(id, "_xdp_current_position"),
            value: CatValue::B(u64_to_bytes(position)),
        },
    );
    let if_index: u32 = match p.if_index {
        Some(ifx) => ifx,
        None => 0,
    };
    out.push(
        CatEntry { key: key_for(id, "_xdp_if_index"), value: CatValue::B(u32_to_bytes(if_index)) },
    );
    proof {
        let spec_seq = spec_flatten_xdp(*p, id);
        let n = p.proceed_on@.len() as int;
        assert(out.deep_view().len() == spec_seq.len());
        assert forall|j: int| 0 <= j < out.deep_view().len() implies out.deep_view()[j]
            == spec_seq[j] by {
            if j < 3 {
                assert(out.deep_view()[j] == fixed[j]);
            } else if j < 3 + n {
                let q = j - 3;
                assert(out.deep_view()[3 + q] == (CatEntryV {
                    key: key_view(id, "_xdp_proceed_on_"@ + dec_str(q)),
                    value: CatValueV::B(
                        be_bytes_of_i32(crate::proceed_on::xdp_action_value(p.proceed_on@[q])),
                    ),
                }));
                assert(spec_seq[3 + q] == (CatEntryV {
                    key: key_view(id, "_xdp_proceed_on_"@ + dec_str(q)),
                    value: CatValueV::B(
                        be_bytes_of_i32(crate::proceed_on::xdp_action_value(p.proceed_on@[q])),
                    ),
                }));
            }
        }
        assert(out.deep_view() =~= spec_seq);
    }
    out
}

/// The single pair that persists a tracepoint program.
pub open spec fn spec_flatten_tracepoint(p: TracepointProgram, id: u32) -> Seq<CatEntryV> {
    seq![
        CatEntryV {
            key: key_view(id, "_tracepoint_tracepoint"@),
            value: CatValueV::S(p.tracepoint@),
        },
    ]
}

/// Flattens a tracepoint program's attach parameters.
pub fn flatten_tracepoint(p: &TracepointProgram, id: u32) -> (r: Vec<CatEntry>)
    ensures
        r.deep_view() =~= spec_flatten_tracepoint(*p, id),
{
    let mut out: Vec<CatEntry> = Vec::new();
    out.push(
        CatEntry {
            key: key_for(id, "_tracepoint_tracepoint"),
            value: CatValue::S(p.tracepoint.clone()),
        },
    );
    out
}


/// The pairs that persist a TC program's attach parameters; the layout
/// follows the XDP form, plus the stored traffic direction.
pub open spec fn spec_flatten_tc(p: crate::types::TcProgram, id: u32) -> Seq<CatEntryV> {
    seq![
        CatEntryV {
            key: key_view(id, "_tc_priority"@),
            value: CatValueV::B(be_bytes_of_i32(p.priority)),
        },
        CatEntryV { key: key_view(id, "_tc_iface"@), value: CatValueV::S(p.iface@) },
        CatEntryV {
            key: key_view(id, "_tc_proceed_on_count"@),
            value: CatValueV::B(be_bytes_of_u32(p.proceed_on@.len() as u32)),
        },
    ] + Seq::new(
        p.proceed_on@.len(),
        |i: int|
            CatEntryV {
                key: key_view(id, "_tc_proceed_on_"@ + dec_str(i)),
                value: CatValueV::B(
                    be_bytes_of_i32(crate::proceed_on::tc_action_value(p.proceed_on@[i])),
                ),
            },
    ) + seq![
        CatEntryV {
            key: key_view(id, "_tc_attached"@),
            value: CatValueV::B(seq![byte_of_bool(p.attached)]),
        },
        CatEntryV {
            key: key_view(id, "_tc_current_position"@),
            value: CatValueV::B(
                be_bytes_of_u64(
                    match p.current_position {
                        Some(cp) => cp as u64,
                        None => 0,
                    },
                ),
            ),
        },
        CatEntryV {
            key: key_view(id, "_tc_if_index"@),
            value: CatValueV::B(
                be_bytes_of_u32(
                    match p.if_index {
                        Some(ifx) => ifx,
                        None => 0,
                    },
                ),
            ),
        },
        CatEntryV {
            key: key_view(id, "_tc_direction"@),
            value: CatValueV::S(
                match p.direction {
                    crate::types::Direction::Ingress => "in"@,
                    crate::types::Direction::Egress => "eg"@,
                },
            ),
        },
    ]
}

/// Flattens a TC program's attach parameters into catalog pairs.
pub fn flatten_tc(p: &crate::types::TcProgram, id: u32) -> (r: Vec<CatEntry>)
    requires
        p.proceed_on@.len() < 0x1_0000_0000,
    ensures
        r.deep_view() =~= spec_flatten_tc(*p, id),
{
    let mut out: Vec<CatEntry> = Vec::new();
    out.push(
        CatEntry { key: key_for(id, "_tc_priority"), value: CatValue::B(i32_to_bytes(p.priority)) },
    );
    out.push(CatEntry { key: key_for(id, "_tc_iface"), value: CatValue::S(p.iface.clone()) });
    let actions = p.proceed_on.as_action_vec();
    out.push(
        CatEntry {
            key: key_for(id, "_tc_proceed_on_count"),
            value: CatValue::B(u32_to_bytes(actions.len() as u32)),
        },
    );
    let ghost fixed = out.deep_view();
    proof {
        assert(fixed =~= spec_flatten_tc(*p, id).subrange(0, 3));
    }
    let mut i: usize = 0;
    while i < actions.len()
        invariant
            p.proceed_on@.len() < 0x1_0000_0000,
            fixed =~= spec_flatten_tc(*p, id).subrange(0, 3),
            actions@.len() == p.proceed_on@.len(),
            forall|q: int|
                0 <= q < actions@.len() ==> actions@[q] == crate::proceed_on::tc_action_value(
                    #[trigger] p.proceed_on@[q],
                ),
            i <= actions@.len(),
            out.deep_view().len() == 3 + i,
            fixed.len() == 3,
            forall|q: int| 0 <= q < 3 ==> out.deep_view()[q] == fixed[q],
            forall|q: int|
                0 <= q < i ==> out.deep_view()[3 + q] == (CatEntryV {
                    key: key_view(id, "_tc_proceed_on_"@ + dec_str(q)),
                    value: CatValueV::B(
                        be_bytes_of_i32(crate::proceed_on::tc_action_value(p.proceed_on@[q])),
                    ),
                }),
        decreases actions@.len() - i,
    {
        let mut suffix = String::from_str("_tc_proceed_on_");
        let idx = u32_to_string(i as u32);
        suffix.append(idx.as_str());
        let key = key_for(id, suffix.as_str());
        proof {
            assert(i as u32 as int == i as int);
            assert(key@ == key_view(id, "_tc_proceed_on_"@ + dec_str(i as int)));
        }
        out.push(CatEntry { key, value: CatValue::B(i32_to_bytes(actions[i])) });
        i += 1;
    }
    out.push(
        CatEntry {
            key: key_for(id, "_tc_attached"),
            value: CatValue::B(bool_to_bytes(p.attached)),
        },
    );
    let position: u64 = match p.current_position {
        Some(cp) => cp as u64,
        None => 0,
    };
    out.push(
        CatEntry {
            key: key_for(id, "_tc_current_position"),
            value: CatValue::B(u64_to_bytes(position)),
        },
    );
    let if_index: u32 = match p.if_index {
        Some(ifx) => ifx,
        None => 0,
    };
    out.push(
        CatEntry { key: key_for(id, "_tc_if_index"), value: CatValue::B(u32_to_bytes(if_index)) },
    );
    out.push(
        CatEntry {
            key: key_for(id, "_tc_direction"),
            value: CatValue::S(p.direction.to_short_string()),
        },
    );
    proof {
        let spec_seq = spec_flatten_tc(*p, id);
        let n = p.proceed_on@.len() as int;
        assert(out.deep_view().len() == spec_seq.len());
        assert forall|j: int| 0 <= j < out.deep_view().len() implies out.deep_view()[j]
            == spec_seq[j] by {
            if j < 3 {
                assert(out.deep_view()[j] == fixed[j]);
            } else if j < 3 + n {
                let q = j - 3;
                assert(out.deep_view()[3 + q] == (CatEntryV {
                    key: key_view(id, "_tc_proceed_on_"@ + dec_str(q)),
                    value: CatValueV::B(
                        be_bytes_of_i32(crate::proceed_on::tc_action_value(p.proceed_on@[q])),
                    ),
                }));
                assert(spec_seq[3 + q] == (CatEntryV {
                    key: key_view(id, "_tc_proceed_on_"@ + dec_str(q)),
                    value: CatValueV::B(
                        be_bytes_of_i32(crate::proceed_on::tc_action_value(p.proceed_on@[q])),
                    ),
                }));
            }
        }
        assert(out.deep_view() =~= spec_seq);
    }
    out
}


/// The pairs that persist a bytecode location: a file path, or the four
/// image attributes with the pull policy stored big-endian.
pub open spec fn spec_flatten_location(l: crate::types::LocationV, id: u32) -> Seq<CatEntryV> {
    match l {
        crate::types::LocationV::File(f) => seq![
            CatEntryV { key: key_view(id, "_location_filename"@), value: CatValueV::S(f) },
        ],
        crate::types::LocationV::Image(iv) => seq![
            CatEntryV { key: key_view(id, "_location_image_url"@), value: CatValueV::S(iv.image_url) },
            CatEntryV {
                key: key_view(id, "_location_image_pull_policy"@),
                value: CatValueV::B(be_bytes_of_i32(iv.image_pull_policy.spec_value())),
            },
            CatEntryV {
                key: key_view(id, "_location_username"@),
                value: CatValueV::S(
                    match iv.username {
                        Some(u) => u,
                        None => Seq::<char>::empty(),
                    },
                ),
            },
            CatEntryV {
                key: key_view(id, "_location_password"@),
                value: CatValueV::S(
                    match iv.password {
                        Some(p) => p,
                        None => Seq::<char>::empty(),
                    },
                ),
            },
        ],
    }
}

/// The pairs of a string map, each keyed by its own key under a prefix.
pub open spec fn spec_flatten_str_map(
    m: Seq<(Seq<char>, Seq<char>)>,
    id: u32,
    prefix: Seq<char>,
) -> Seq<CatEntryV> {
    Seq::new(
        m.len(),
        |i: int| CatEntryV { key: key_view(id, prefix + m[i].0), value: CatValueV::S(m[i].1) },
    )
}

/// The pairs of a byte map, each keyed by its own key under a prefix.
pub open spec fn spec_flatten_byte_map(
    m: Seq<(Seq<char>, Seq<u8>)>,
    id: u32,
    prefix: Seq<char>,
) -> Seq<CatEntryV> {
    Seq::new(
        m.len(),
        |i: int| CatEntryV { key: key_view(id, prefix + m[i].0), value: CatValueV::B(m[i].1) },
    )
}

/// The pairs of an id list: its count, then one indexed pair per id.
pub open spec fn spec_flatten_u32_list(v: Seq<u32>, id: u32, prefix: Seq<char>) -> Seq<CatEntryV> {
    seq![
        CatEntryV {
            key: key_view(id, prefix + "count"@),
            value: CatValueV::B(be_bytes_of_u32(v.len() as u32)),
        },
    ] + Seq::new(
        v.len(),
        |i: int|
            CatEntryV { key: key_view(id, prefix + dec_str(i)), value: CatValueV::B(
                be_bytes_of_u32(v[i]),
            ) },
    )
}

/// Appends one pair.
fn push_one(out: &mut Vec<CatEntry>, e: CatEntry)
    ensures
        final(out).deep_view() =~= old(out).deep_view() + seq![e@],
{
    let ghost ev = e@;
    let ghost pre = out.deep_view();
    out.push(e);
    proof {
        assert(out.deep_view().len() == pre.len() + 1);
        assert forall|j: int| 0 <= j < out.deep_view().len() implies out.deep_view()[j] == (pre
            + seq![ev])[j] by {
            if j < pre.len() {
                assert(out.deep_view()[j] == pre[j]);
            } else {
                assert(out.deep_view()[j] == ev);
            }
        }
        assert(out.deep_view() =~= pre + seq![ev]);
    }
}

/// Appends the location pairs.
fn push_location(out: &mut Vec<CatEntry>, l: &crate::types::Location, id: u32)
    ensures
        final(out).deep_view() =~= old(out).deep_view() + spec_flatten_location(l@, id),
{
    match l {
        crate::types::Location::File(f) => {
            out.push(
                CatEntry { key: key_for(id, "_location_filename"), value: CatValue::S(f.clone()) },
            );
        },
        crate::types::Location::Image(im) => {
            out.push(
                CatEntry {
                    key: key_for(id, "_location_image_url"),
                    value: CatValue::S(im.image_url.clone()),
                },
            );
            out.push(
                CatEntry {
                    key: key_for(id, "_location_image_pull_policy"),
                    value: CatValue::B(i32_to_bytes(im.image_pull_policy.value())),
                },
            );
            let username = match &im.username {
                Some(u) => u.clone(),
                None => String::new(),
            };
            out.push(
                CatEntry { key: key_for(id, "_location_username"), value: CatValue::S(username) },
            );
            let password = match &im.password {
                Some(p) => p.clone(),
                None => String::new(),
            };
            out.push(
                CatEntry { key: key_for(id, "_location_password"), value: CatValue::S(password) },
            );
        },
    }
    proof {
        assert(final(out).deep_view() =~= old(out).deep_view() + spec_flatten_location(l@, id));
    }
}

/// Appends a string map's pairs.
fn push_str_map(out: &mut Vec<CatEntry>, m: &Vec<(String, String)>, id: u32, prefix: &str)
    ensures
        final(out).deep_view() =~= old(out).deep_view() + spec_flatten_str_map(
            m.deep_view(),
            id,
            prefix@,
        ),
{
    let ghost base = out.deep_view();
    let mut i: usize = 0;
    while i < m.len()
        invariant
            i <= m@.len(),
            out.deep_view() =~= base + spec_flatten_str_map(m.deep_view(), id, prefix@).subrange(
                0,
                i as int,
            ),
        decreases m@.len() - i,
    {
        let mut suffix = String::from_str(prefix);
        suffix.append(m[i].0.as_str());
        let key = key_for(id, suffix.as_str());
        proof {
            assert(m.deep_view()[i as int].0 == m@[i as int].0@);
            assert(m.deep_view()[i as int].1 == m@[i as int].1@);
            assert(key@ == key_view(id, prefix@ + m.deep_view()[i as int].0));
        }
        let ghost pre = out.deep_view();
        out.push(CatEntry { key, value: CatValue::S(m[i].1.clone()) });
        proof {
            let seg = spec_flatten_str_map(m.deep_view(), id, prefix@);
            let target = base + seg.subrange(0, i as int + 1);
            assert(pre.len() == base.len() + i as int);
            assert(out.deep_view().len() == pre.len() + 1);
            assert(seg.subrange(0, i as int + 1).len() == i as int + 1);
            assert(out.deep_view().len() == target.len());
            assert forall|j: int| 0 <= j < target.len() implies out.deep_view()[j] == target[j] by {
                if j < pre.len() {
                    assert(out.deep_view()[j] == pre[j]);
                    assert(pre[j] == (base + seg.subrange(0, i as int))[j]);
                    if j < base.len() {
                        assert(target[j] == base[j]);
                    } else {
                        assert(target[j] == seg.subrange(0, i as int + 1)[j - base.len()]);
                        assert(seg.subrange(0, i as int)[j - base.len()] == seg[j - base.len()]);
                    }
                } else {
                    assert(out.deep_view()[j] == (CatEntryV {
                        key: key_view(id, prefix@ + m.deep_view()[i as int].0),
                        value: CatValueV::S(m.deep_view()[i as int].1),
                    }));
                    assert(target[j] == seg[i as int]);
                }
            }
            assert(out.deep_view() =~= target);
        }
        i += 1;
    }
    proof {
        assert(spec_flatten_str_map(m.deep_view(), id, prefix@).subrange(
            0,
            m.deep_view().len() as int,
        ) =~= spec_flatten_str_map(m.deep_view(), id, prefix@));
    }
}

/// Copies a byte value for storage.
fn copy_value_bytes(v: &Vec<u8>) -> (r: Vec<u8>)
    ensures
        r@ == v@,
{
    let mut out: Vec<u8> = Vec::new();
    let mut k: usize = 0;
    while k < v.len()
        invariant
            k <= v@.len(),
            out@ =~= v@.subrange(0, k as int),
        decreases v@.len() - k,
    {
        out.push(v[k]);
        k += 1;
    }
    proof {
        assert(out@ =~= v@);
    }
    out
}

/// Appends a byte map's pairs.
fn push_byte_map(out: &mut Vec<CatEntry>, m: &Vec<(String, Vec<u8>)>, id: u32, prefix: &str)
    ensures
        final(out).deep_view() =~= old(out).deep_view() + spec_flatten_byte_map(
            m.deep_view(),
            id,
            prefix@,
        ),
{
    let ghost base = out.deep_view();
    let mut i: usize = 0;
    while i < m.len()
        invariant
            i <= m@.len(),
            out.deep_view() =~= base + spec_flatten_byte_map(m.deep_view(), id, prefix@).subrange(
                0,
                i as int,
            ),
        decreases m@.len() - i,
    {
        let mut suffix = String::from_str(prefix);
        suffix.append(m[i].0.as_str());
        let key = key_for(id, suffix.as_str());
        proof {
            assert(m.deep_view()[i as int].0 == m@[i as int].0@);
            assert(m.deep_view()[i as int].1 == m@[i as int].1@);
            assert(key@ == key_view(id, prefix@ + m.deep_view()[i as int].0));
        }
        let ghost pre = out.deep_view();
        out.push(CatEntry { key, value: CatValue::B(copy_value_bytes(&m[i].1)) });
        proof {
            let seg = spec_flatten_byte_map(m.deep_view(), id, prefix@);
            let target = base + seg.subrange(0, i as int + 1);
            assert(pre.len() == base.len() + i as int);
            assert(out.deep_view().len() == pre.len() + 1);
            assert(seg.subrange(0, i as int + 1).len() == i as int + 1);
            assert(out.deep_view().len() == target.len());
            assert forall|j: int| 0 <= j < target.len() implies out.deep_view()[j] == target[j] by {
                if j < pre.len() {
                    assert(out.deep_view()[j] == pre[j]);
                    assert(pre[j] == (base + seg.subrange(0, i as int))[j]);
                    if j < base.len() {
                        assert(target[j] == base[j]);
                    } else {
                        assert(target[j] == seg.subrange(0, i as int + 1)[j - base.len()]);
                        assert(seg.subrange(0, i as int)[j - base.len()] == seg[j - base.len()]);
                    }
                } else {
                    assert(out.deep_view()[j] == (CatEntryV {
                        key: key_view(id, prefix@ + m.deep_view()[i as int].0),
                        value: CatValueV::B(m.deep_view()[i as int].1),
                    }));
                    assert(target[j] == seg[i as int]);
                }
            }
            assert(out.deep_view() =~= target);
        }
        i += 1;
    }
    proof {
        assert(spec_flatten_byte_map(m.deep_view(), id, prefix@).subrange(
            0,
            m.deep_view().len() as int,
        ) =~= spec_flatten_byte_map(m.deep_view(), id, prefix@));
    }
}

/// Appends an id list's count and indexed pairs.
fn push_u32_list(out: &mut Vec<CatEntry>, v: &Vec<u32>, id: u32, prefix: &str)
    requires
        v@.len() < 0x1_0000_0000,
    ensures
        final(out).deep_view() =~= old(out).deep_view() + spec_flatten_u32_list(v@, id, prefix@),
{
    let ghost base = out.deep_view();
    let mut csuffix = String::from_str(prefix);
    csuffix.append("count");
    proof {
        reveal_strlit("count");
    }
    let ckey = key_for(id, csuffix.as_str());
    out.push(CatEntry { key: ckey, value: CatValue::B(u32_to_bytes(v.len() as u32)) });
    let mut i: usize = 0;
    while i < v.len()
        invariant
            v@.len() < 0x1_0000_0000,
            i <= v@.len(),
            out.deep_view() =~= base + spec_flatten_u32_list(v@, id, prefix@).subrange(
                0,
                i as int + 1,
            ),
        decreases v@.len() - i,
    {
        let mut suffix = String::from_str(prefix);
        let idx = u32_to_string(i as u32);
        suffix.append(idx.as_str());
        let key = key_for(id, suffix.as_str());
        proof {
            assert(i as u32 as int == i as int);
            assert(key@ == key_view(id, prefix@ + dec_str(i as int)));
        }
        let ghost pre = out.deep_view();
        out.push(CatEntry { key, value: CatValue::B(u32_to_bytes(v[i])) });
        proof {
            let seg = spec_flatten_u32_list(v@, id, prefix@);
            let target = base + seg.subrange(0, i as int + 2);
            assert(pre.len() == base.len() + i as int + 1);
            assert(out.deep_view().len() == pre.len() + 1);
            assert(seg.subrange(0, i as int + 2).len() == i as int + 2);
            assert(out.deep_view().len() == target.len());
            assert forall|j: int| 0 <= j < target.len() implies out.deep_view()[j] == target[j] by {
                if j < pre.len() {
                    assert(out.deep_view()[j] == pre[j]);
                    assert(pre[j] == (base + seg.subrange(0, i as int + 1))[j]);
                    if j < base.len() {
                        assert(target[j] == base[j]);
                    } else {
                        assert(target[j] == seg.subrange(0, i as int + 2)[j - base.len()]);
                        assert(seg.subrange(0, i as int + 1)[j - base.len()] == seg[j
                            - base.len()]);
                    }
                } else {
                    assert(out.deep_view()[j] == (CatEntryV {
                        key: key_view(id, prefix@ + dec_str(i as int)),
                        value: CatValueV::B(be_bytes_of_u32(v@[i as int])),
                    }));
                    assert(target[j] == seg[i as int + 1]);
                }
            }
            assert(out.deep_view() =~= target);
        }
        i += 1;
    }
    proof {
        assert(spec_flatten_u32_list(v@, id, prefix@).subrange(
            0,
            v@.len() as int + 1,
        ) =~= spec_flatten_u32_list(v@, id, prefix@));
    }
}

/// The pairs that persist the shared attributes of a program: name,
/// location, the two user maps, the map owner, the pin directory and the
/// positional list of map users.
pub open spec fn spec_flatten_program_data(d: crate::types::ProgramDataV, id: u32) -> Seq<
    CatEntryV,
> {
    seq![CatEntryV { key: key_view(id, "_name"@), value: CatValueV::S(d.name) }]
        + spec_flatten_location(d.location, id) + spec_flatten_str_map(d.metadata, id, "_metadata_"@)
        + spec_flatten_byte_map(d.global_data, id, "_global_data_"@) + seq![
        CatEntryV {
            key: key_view(id, "_map_owner_id"@),
            value: CatValueV::B(
                be_bytes_of_u32(
                    match d.map_owner_id {
                        Some(o) => o,
                        None => 0,
                    },
                ),
            ),
        },
        CatEntryV {
            key: key_view(id, "_map_pin_path"@),
            value: CatValueV::S(
                match d.map_pin_path {
                    Some(pp) => pp,
                    None => Seq::<char>::empty(),
                },
            ),
        },
    ] + spec_flatten_u32_list(
        match d.maps_used_by {
            Some(u) => u,
            None => Seq::<u32>::empty(),
        },
        id,
        "_maps_used_by_"@,
    )
}

/// Flattens a program's shared attributes into its catalog pairs.
pub fn flatten_program_data(d: &ProgramData, id: u32) -> (r: Vec<CatEntry>)
    requires
        match d@.maps_used_by {
            Some(u) => u.len() < 0x1_0000_0000,
            None => true,
        },
    ensures
        r.deep_view() =~= spec_flatten_program_data(d@, id),
{
    let mut out: Vec<CatEntry> = Vec::new();
    push_one(&mut out, CatEntry { key: key_for(id, "_name"), value: CatValue::S(d.name.clone()) });
    push_location(&mut out, &d.location, id);
    push_str_map(&mut out, &d.metadata, id, "_metadata_");
    push_byte_map(&mut out, &d.global_data, id, "_global_data_");
    let owner: u32 = match d.map_owner_id {
        Some(o) => o,
        None => 0,
    };
    push_one(
        &mut out,
        CatEntry { key: key_for(id, "_map_owner_id"), value: CatValue::B(u32_to_bytes(owner)) },
    );
    let pin_path = match &d.map_pin_path {
        Some(p) => p.clone(),
        None => String::new(),
    };
    push_one(
        &mut out,
        CatEntry { key: key_for(id, "_map_pin_path"), value: CatValue::S(pin_path) },
    );
    match &d.maps_used_by {
        Some(u) => {
            push_u32_list(&mut out, u, id, "_maps_used_by_");
        },
        None => {
            let empty: Vec<u32> = Vec::new();
            push_u32_list(&mut out, &empty, id, "_maps_used_by_");
        },
    }
    proof {
        assert(out.deep_view() =~= spec_flatten_program_data(d@, id));
    }
    out
}

/// The pairs that persist a kprobe program's attach parameters.
pub open spec fn spec_flatten_kprobe(p: crate::types::KprobeProgram, id: u32) -> Seq<CatEntryV> {
    seq![
        CatEntryV { key: key_view(id, "_kprobe_fn_name"@), value: CatValueV::S(p.fn_name@) },
        CatEntryV {
            key: key_view(id, "_kprobe_offset"@),
            value: CatValueV::B(be_bytes_of_u64(p.offset)),
        },
        CatEntryV {
            key: key_view(id, "_kprobe_retprobe"@),
            value: CatValueV::B(seq![byte_of_bool(p.retprobe)]),
        },
        CatEntryV {
            key: key_view(id, "_kprobe_namespace"@),
            value: CatValueV::S(
                match p.namespace {
                    Some(n) => n@,
                    None => Seq::<char>::empty(),
                },
            ),
        },
    ]
}

/// Flattens a kprobe program's attach parameters.
pub fn flatten_kprobe(p: &crate::types::KprobeProgram, id: u32) -> (r: Vec<CatEntry>)
    ensures
        r.deep_view() =~= spec_flatten_kprobe(*p, id),
{
    let mut out: Vec<CatEntry> = Vec::new();
    out.push(
        CatEntry { key: key_for(id, "_kprobe_fn_name"), value: CatValue::S(p.fn_name.clone()) },
    );
    out.push(
        CatEntry { key: key_for(id, "_kprobe_offset"), value: CatValue::B(u64_to_bytes(p.offset)) },
    );
    out.push(
        CatEntry {
            key: key_for(id, "_kprobe_retprobe"),
            value: CatValue::B(bool_to_bytes(p.retprobe)),
        },
    );
    let namespace = match &p.namespace {
        Some(n) => n.clone(),
        None => String::new(),
    };
    out.push(CatEntry { key: key_for(id, "_kprobe_namespace"), value: CatValue::S(namespace) });
    proof {
        assert(out.deep_view() =~= spec_flatten_kprobe(*p, id));
    }
    out
}

/// The pairs that persist a uprobe program's attach parameters.
pub open spec fn spec_flatten_uprobe(p: crate::types::UprobeProgram, id: u32) -> Seq<CatEntryV> {
    seq![
        CatEntryV {
            key: key_view(id, "_uprobe_fn_name"@),
            value: CatValueV::S(
                match p.fn_name {
                    Some(n) => n@,
                    None => Seq::<char>::empty(),
                },
            ),
        },
        CatEntryV {
            key: key_view(id, "_uprobe_offset"@),
            value: CatValueV::B(be_bytes_of_u64(p.offset)),
        },
        CatEntryV {
            key: key_view(id, "_uprobe_retprobe"@),
            value: CatValueV::B(seq![byte_of_bool(p.retprobe)]),
        },
        CatEntryV {
            key: key_view(id, "_uprobe_namespace"@),
            value: CatValueV::S(
                match p.namespace {
                    Some(n) => n@,
                    None => Seq::<char>::empty(),
                },
            ),
        },
        CatEntryV {
            key: key_view(id, "_uprobe_pid"@),
            value: CatValueV::B(
                be_bytes_of_i32(
                    match p.pid {
                        Some(x) => x,
                        None => 0,
                    },
                ),
            ),
        },
        CatEntryV { key: key_view(id, "_uprobe_target"@), value: CatValueV::S(p.target@) },
    ]
}

/// Flattens a uprobe program's attach parameters.
pub fn flatten_uprobe(p: &crate::types::UprobeProgram, id: u32) -> (r: Vec<CatEntry>)
    ensures
        r.deep_view() =~= spec_flatten_uprobe(*p, id),
{
    let mut out: Vec<CatEntry> = Vec::new();
    let fn_name = match &p.fn_name {
        Some(n) => n.clone(),
        None => String::new(),
    };
    out.push(CatEntry { key: key_for(id, "_uprobe_fn_name"), value: CatValue::S(fn_name) });
    out.push(
        CatEntry { key: key_for(id, "_uprobe_offset"), value: CatValue::B(u64_to_bytes(p.offset)) },
    );
    out.push(
        CatEntry {
            key: key_for(id, "_uprobe_retprobe"),
            value: CatValue::B(bool_to_bytes(p.retprobe)),
        },
    );
    let namespace = match &p.namespace {
        Some(n) => n.clone(),
        None => String::new(),
    };
    out.push(CatEntry { key: key_for(id, "_uprobe_namespace"), value: CatValue::S(namespace) });
    let pid: i32 = match p.pid {
        Some(x) => x,
        None => 0,
    };
    out.push(CatEntry { key: key_for(id, "_uprobe_pid"), value: CatValue::B(i32_to_bytes(pid)) });
    out.push(CatEntry { key: key_for(id, "_uprobe_target"), value: CatValue::S(p.target.clone()) });
    proof {
        assert(out.deep_view() =~= spec_flatten_uprobe(*p, id));
    }
    out
}

/// Flattens a program's kind-specific pairs, as its variant stores them;
/// an observed program persists its kernel record.
pub fn flatten_program(p: &crate::types::Program, id: u32) -> (r: Vec<CatEntry>)
    requires
        p matches crate::types::Program::Xdp(x) ==> x.proceed_on@.len() < 0x1_0000_0000,
        p matches crate::types::Program::Tc(t) ==> t.proceed_on@.len() < 0x1_0000_0000,
        p matches crate::types::Program::Unsupported(ki) ==> ki@.map_ids.len() < 0x1_0000_0000,
    ensures
        r.deep_view() =~= (match *p {
            crate::types::Program::Xdp(x) => spec_flatten_xdp(x, id),
            crate::types::Program::Tc(t) => spec_flatten_tc(t, id),
            crate::types::Program::Tracepoint(t) => spec_flatten_tracepoint(t, id),
            crate::types::Program::Kprobe(k) => spec_flatten_kprobe(k, id),
            crate::types::Program::Uprobe(u) => spec_flatten_uprobe(u, id),
            crate::types::Program::Unsupported(ki) => spec_flatten_kernel_info(ki@, id),
        }),
{
    match p {
        crate::types::Program::Xdp(x) => flatten_xdp(x, id),
        crate::types::Program::Tc(t) => flatten_tc(t, id),
        crate::types::Program::Tracepoint(t) => flatten_tracepoint(t, id),
        crate::types::Program::Kprobe(k) => flatten_kprobe(k, id),
        crate::types::Program::Uprobe(u) => flatten_uprobe(u, id),
        crate::types::Program::Unsupported(ki) => flatten_kernel_info(ki, id),
    }
}

} // verus!
