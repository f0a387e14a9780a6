//! The operation surface: request decoding and response building.
//!
//! These are the plain-value shapes the RPC collaborator hands in and
//! takes back.  Decoding validates attach parameters exactly; response
//! building never echoes credentials.

use vstd::prelude::*;

use crate::errors::BpfmanError;
use crate::proceed_on::{TcProceedOn, XdpProceedOn};
use crate::types::{
    BytecodeImage, Direction, ImagePullPolicy, KprobeProgram, Location, Program, ProgramData,
    TcProgram, TracepointProgram, UprobeProgram, XdpProgram,
};

verus! {

/// Attach parameters for an XDP load request or response.
#[derive(Clone, Debug)]
pub struct XdpAttachInfo {
    pub priority: i32,
    pub iface: String,
    pub position: i32,
    pub proceed_on: Vec<i32>,
}

/// Attach parameters for a TC load request or response.
#[derive(Clone, Debug)]
pub struct TcAttachInfo {
    pub priority: i32,
    pub iface: String,
    pub position: i32,
    pub direction: String,
    pub proceed_on: Vec<i32>,
}

/// Attach parameters for a tracepoint load request or response.
#[derive(Clone, Debug)]
pub struct TracepointAttachInfo {
    pub tracepoint: String,
}

/// Attach parameters for a kprobe load request or response.
#[derive(Clone, Debug)]
pub struct KprobeAttachInfo {
    pub fn_name: String,
    pub offset: u64,
    pub retprobe: bool,
    pub namespace: Option<String>,
}

/// Attach parameters for a uprobe load request or response.
#[derive(Clone, Debug)]
pub struct UprobeAttachInfo {
    pub fn_name: Option<String>,
    pub offset: u64,
    pub target: String,
    pub retprobe: bool,
    pub pid: Option<i32>,
    pub namespace: Option<String>,
}

/// The attach-kind variants a request may carry.
#[derive(Clone, Debug)]
pub enum Info {
    XdpAttachInfo(XdpAttachInfo),
    TcAttachInfo(TcAttachInfo),
    TracepointAttachInfo(TracepointAttachInfo),
    KprobeAttachInfo(KprobeAttachInfo),
    UprobeAttachInfo(UprobeAttachInfo),
}

/// The attach wrapper of the wire schema.
#[derive(Clone, Debug)]
pub struct AttachInfo {
    pub info: Option<Info>,
}

/// An image reference on the wire, policy as an integer.
#[derive(Clone, Debug)]
pub struct RequestImage {
    pub url: String,
    pub image_pull_policy: i32,
    pub username: Option<String>,
    pub password: Option<String>,
}

/// Where the bytecode comes from, as the wire carries it.
#[derive(Clone, Debug)]
pub enum RequestLocation {
    Image(RequestImage),
    File(String),
}

/// The bytecode wrapper of the wire schema.
#[derive(Clone, Debug)]
pub struct BytecodeLocation {
    pub location: Option<RequestLocation>,
}

/// A load request: source, attach parameters and user data.
#[derive(Clone, Debug)]
pub struct LoadRequest {
    pub bytecode: Option<BytecodeLocation>,
    pub attach: Option<AttachInfo>,
    pub name: String,
    pub metadata: Vec<(String, String)>,
    pub global_data: Vec<(String, Vec<u8>)>,
    pub map_owner_id: Option<u32>,
}

/// The daemon-side program attributes echoed to clients.
#[derive(Clone, Debug)]
pub struct ProgramInfo {
    pub name: String,
    pub bytecode: Option<BytecodeLocation>,
    pub attach: Option<AttachInfo>,
    pub global_data: Vec<(String, Vec<u8>)>,
    pub map_owner_id: Option<u32>,
    pub map_pin_path: String,
    pub map_used_by: Vec<u32>,
    pub metadata: Vec<(String, String)>,
}

/// The kernel-side program attributes echoed to clients.
#[derive(Clone, Debug)]
pub struct KernelProgramInfo {
    pub id: u32,
    pub name: String,
    pub program_type: u32,
    pub loaded_at: String,
    pub tag: String,
    pub gpl_compatible: bool,
    pub map_ids: Vec<u32>,
    pub btf_id: u32,
    pub bytes_xlated: u32,
    pub jited: bool,
    pub bytes_jited: u32,
    pub bytes_memlock: u32,
    pub verified_insns: u32,
}

/// One row of a `List` response.
#[derive(Clone, Debug)]
pub struct ListResult {
    pub info: Option<ProgramInfo>,
    pub kernel_info: Option<KernelProgramInfo>,
}

/// No credential appears in a response: any image reference in it
/// carries blank username and password.
pub open spec fn creds_blank(info: ProgramInfo) -> bool {
    match info.bytecode {
        Some(bl) => match bl.location {
            Some(RequestLocation::Image(im)) => {
                &&& im.username matches Some(u) && u@.len() == 0
                &&& im.password matches Some(p) && p@.len() == 0
            },
            Some(RequestLocation::File(_)) => true,
            None => true,
        },
        None => true,
    }
}

/// Whether a load request decodes: attach and bytecode present, the
/// pull policy known, the proceed-on list well-formed, the TC direction
/// one of the two, and no kprobe namespace named.
pub open spec fn spec_request_ok(req: LoadRequest) -> bool {
    &&& req.attach matches Some(a) && a.info is Some
    &&& req.bytecode matches Some(b) && b.location is Some
    &&& (match req.bytecode->Some_0.location->Some_0 {
        RequestLocation::Image(im) => 0 <= im.image_pull_policy <= 2,
        RequestLocation::File(_) => true,
    })
    &&& (match req.attach->Some_0.info->Some_0 {
        Info::XdpAttachInfo(x) => crate::proceed_on::xdp_list_ok(x.proceed_on@),
        Info::TcAttachInfo(t) => crate::proceed_on::tc_list_ok(t.proceed_on@) && (t.direction@
            == "ingress"@ || t.direction@ == "egress"@),
        Info::KprobeAttachInfo(k) => k.namespace is None,
        Info::TracepointAttachInfo(_) => true,
        Info::UprobeAttachInfo(_) => true,
    })
}


/// Whether a response bytecode location reports this stored location,
/// with credentials blanked.
pub open spec fn bytecode_matches(b: Option<BytecodeLocation>, loc: crate::types::LocationV) -> bool {
    match b {
        Some(bl) => match (bl.location, loc) {
            (Some(RequestLocation::File(f)), crate::types::LocationV::File(pf)) => f@ == pf,
            (Some(RequestLocation::Image(im)), crate::types::LocationV::Image(iv)) => {
                &&& im.url@ == iv.image_url
                &&& im.image_pull_policy == iv.image_pull_policy.spec_value()
                &&& im.username matches Some(u) && u@.len() == 0
                &&& im.password matches Some(pw) && pw@.len() == 0
            },
            _ => false,
        },
        None => false,
    }
}

/// Whether response attach parameters report this stored program's.
pub open spec fn attach_matches(a: Option<AttachInfo>, p: Program) -> bool {
    match a {
        Some(ai) => match p {
            Program::Xdp(x) => ai.info matches Some(Info::XdpAttachInfo(xa)) && xa.priority
                == x.priority && xa.iface@ == x.iface@ && xa.position == (match x.current_position {
                Some(cp) => cp as i32,
                None => 0,
            }) && xa.proceed_on@.len() == x.proceed_on@.len() && (forall|i: int|
                0 <= i < x.proceed_on@.len() ==> xa.proceed_on@[i]
                    == crate::proceed_on::xdp_action_value(#[trigger] x.proceed_on@[i])),
            Program::Tc(t) => ai.info matches Some(Info::TcAttachInfo(ta)) && ta.priority
                == t.priority && ta.iface@ == t.iface@ && ta.position == (match t.current_position {
                Some(cp) => cp as i32,
                None => 0,
            }) && ta.direction@ == (match t.direction {
                Direction::Ingress => "ingress"@,
                Direction::Egress => "egress"@,
            }) && ta.proceed_on@.len() == t.proceed_on@.len() && (forall|i: int|
                0 <= i < t.proceed_on@.len() ==> ta.proceed_on@[i]
                    == crate::proceed_on::tc_action_value(#[trigger] t.proceed_on@[i])),
            Program::Tracepoint(t) => ai.info matches Some(Info::TracepointAttachInfo(ta))
                && ta.tracepoint@ == t.tracepoint@,
            Program::Kprobe(k) => ai.info matches Some(Info::KprobeAttachInfo(ka)) && ka.fn_name@
                == k.fn_name@ && ka.offset == k.offset && ka.retprobe == k.retprobe
                && ka.namespace.deep_view() == k.namespace.deep_view(),
            Program::Uprobe(u) => ai.info matches Some(Info::UprobeAttachInfo(ua))
                && ua.fn_name.deep_view() == u.fn_name.deep_view() && ua.offset == u.offset
                && ua.target@ == u.target@ && ua.retprobe == u.retprobe && ua.pid == u.pid
                && ua.namespace.deep_view() == u.namespace.deep_view(),
            Program::Unsupported(_) => false,
        },
        None => false,
    }
}

/// Whether a daemon-side response row reports this stored program.
pub open spec fn program_info_matches(info: ProgramInfo, p: Program) -> bool {
    match p.spec_data() {
        Some(d) => {
            &&& info.name@ == d.name
            &&& info.metadata.deep_view() == d.metadata
            &&& info.global_data.deep_view() == d.global_data
            &&& info.map_owner_id == d.map_owner_id
            &&& info.map_pin_path@ == (match d.map_pin_path {
                Some(pp) => pp,
                None => Seq::<char>::empty(),
            })
            &&& info.map_used_by@ == (match d.maps_used_by {
                Some(u) => u,
                None => Seq::<u32>::empty(),
            })
            &&& bytecode_matches(info.bytecode, d.location)
            &&& attach_matches(info.attach, p)
        },
        None => false,
    }
}

/// Whether a kernel-side response row reports this stored program.
pub open spec fn kernel_info_matches(k: KernelProgramInfo, p: Program) -> bool {
    match p.spec_kernel_info() {
        Some(ki) => {
            &&& k.id == ki.id
            &&& k.name@ == ki.name
            &&& k.program_type == p.spec_kind_u32()
            &&& k.loaded_at@ == ki.loaded_at
            &&& k.tag@ == ki.tag
            &&& k.gpl_compatible == ki.gpl_compatible
            &&& k.map_ids@ == ki.map_ids
            &&& k.btf_id == ki.btf_id
            &&& k.bytes_xlated == ki.bytes_xlated
            &&& k.jited == ki.jited
            &&& k.bytes_jited == ki.bytes_jited
            &&& k.bytes_memlock == ki.bytes_memlock
            &&& k.verified_insns == ki.verified_insns
        },
        None => false,
    }
}

/// Whether one `List` row reports this program.
pub open spec fn row_matches(row: ListResult, p: Program) -> bool {
    &&& (row.info is Some <==> !(p matches Program::Unsupported(_)))
    &&& (row.info matches Some(info) ==> program_info_matches(info, p))
    &&& (row.kernel_info is Some <==> p.spec_kernel_info() is Some)
    &&& (row.kernel_info matches Some(k) ==> kernel_info_matches(k, p))
}

/// Decodes a load request into a tracked program, before any kernel work.
///
/// Decoding succeeds exactly on well-formed requests: requests without
/// attach or bytecode data, with an unknown pull policy, direction or
/// proceed-on value, or naming a kprobe namespace are rejected, and no
/// others are.
pub fn program_from_request(req: LoadRequest) -> (r: Result<Program, BpfmanError>)
    requires
        crate::types::map_keys_unique(req.metadata.deep_view()),
        crate::types::map_keys_unique(req.global_data.deep_view()),
    ensures
        r is Ok <==> spec_request_ok(req),
        req.attach is None ==> r matches Err(BpfmanError::InvalidArgument(_)),
        req.attach matches Some(a) && a.info is None ==> r matches Err(
            BpfmanError::InvalidArgument(_),
        ),
        req.bytecode is None ==> r matches Err(BpfmanError::InvalidArgument(_)),
        req.bytecode matches Some(b) && b.location is None ==> r matches Err(
            BpfmanError::InvalidArgument(_),
        ),
        r matches Ok(p) ==> {
            &&& p.spec_data() matches Some(d)
            &&& d.name == req.name@
            &&& d.metadata == req.metadata.deep_view()
            &&& d.global_data == req.global_data.deep_view()
            &&& d.map_owner_id == req.map_owner_id
            &&& crate::types::map_keys_unique(d.metadata)
            &&& crate::types::map_keys_unique(d.global_data)
            &&& d.id is None
            &&& d.kernel_info is None
            &&& !(p matches Program::Unsupported(_))
        },
        r matches Ok(p) ==> match (req.attach, req.bytecode) {
            (Some(a), Some(b)) => match (a.info, b.location) {
                (Some(info), Some(loc)) => {
                    &&& (match info {
                        Info::XdpAttachInfo(x) => p matches Program::Xdp(xp) && xp.priority
                            == x.priority && xp.iface@ == x.iface@ && xp.current_position is None
                            && !xp.attached && crate::proceed_on::xdp_list_ok(x.proceed_on@)
                            && xp.proceed_on@.len() == x.proceed_on@.len() && (forall|i: int|
                            0 <= i < x.proceed_on@.len()
                                ==> crate::proceed_on::xdp_action_of_value(x.proceed_on@[i])
                                == Some(#[trigger] xp.proceed_on@[i])),
                        Info::TcAttachInfo(t) => p matches Program::Tc(tp) && tp.priority
                            == t.priority && tp.iface@ == t.iface@ && tp.current_position is None
                            && !tp.attached && crate::proceed_on::tc_list_ok(t.proceed_on@)
                            && tp.proceed_on@.len() == t.proceed_on@.len() && (forall|i: int|
                            0 <= i < t.proceed_on@.len()
                                ==> crate::proceed_on::tc_action_of_value(t.proceed_on@[i]) == Some(
                                #[trigger] tp.proceed_on@[i])) && (t.direction@ == "ingress"@
                            ==> tp.direction == Direction::Ingress) && (t.direction@ == "egress"@
                            ==> tp.direction == Direction::Egress),
                        Info::TracepointAttachInfo(t) => p matches Program::Tracepoint(tp)
                            && tp.tracepoint@ == t.tracepoint@,
                        Info::KprobeAttachInfo(k) => p matches Program::Kprobe(kp) && kp.fn_name@
                            == k.fn_name@ && kp.offset == k.offset && kp.retprobe == k.retprobe
                            && k.namespace is None,
                        Info::UprobeAttachInfo(u) => p matches Program::Uprobe(up)
                            && up.fn_name.deep_view() == u.fn_name.deep_view() && up.offset
                            == u.offset && up.target@ == u.target@ && up.retprobe == u.retprobe
                            && up.pid == u.pid,
                    })
                    &&& (match loc {
                        RequestLocation::Image(im) => p.spec_data()->Some_0.location
                            matches crate::types::LocationV::Image(iv) && iv.image_url == im.url@
                            && iv.image_pull_policy.spec_value() == im.image_pull_policy
                            && iv.username == im.username.deep_view() && iv.password
                            == im.password.deep_view(),
                        RequestLocation::File(f) => p.spec_data()->Some_0.location
                            == crate::types::LocationV::File(f@),
                    })
                },
                _ => true,
            },
            _ => true,
        },
{
    let attach = match req.attach {
        Some(a) => a,
        None => {
            return Err(BpfmanError::InvalidArgument(String::from_str("missing attach info")));
        },
    };
    let info = match attach.info {
        Some(i) => i,
        None => {
            return Err(BpfmanError::InvalidArgument(String::from_str("missing attach info")));
        },
    };
    let bytecode = match req.bytecode {
        Some(b) => b,
        None => {
            return Err(BpfmanError::InvalidArgument(String::from_str("missing bytecode info")));
        },
    };
    let location = match bytecode.location {
        Some(l) => l,
        None => {
            return Err(BpfmanError::InvalidArgument(String::from_str("missing bytecode info")));
        },
    };
    let bytecode_source = match location {
        RequestLocation::Image(im) => {
            let policy = match ImagePullPolicy::from_value(im.image_pull_policy) {
                Ok(p) => p,
                Err(e) => {
                    return Err(e);
                },
            };
            Location::Image(BytecodeImage::new(im.url, policy, im.username, im.password))
        },
        RequestLocation::File(p) => Location::File(p),
    };
    let data = ProgramData::new_pre_id(
        bytecode_source,
        req.name,
        req.metadata,
        req.global_data,
        req.map_owner_id,
    );
    match info {
        Info::XdpAttachInfo(x) => {
            let proceed_on = match XdpProceedOn::from_int32s(&x.proceed_on) {
                Ok(p) => p,
                Err(e) => {
                    return Err(BpfmanError::InvalidAttach(e));
                },
            };
            Ok(Program::Xdp(XdpProgram::new(data, x.priority, x.iface, proceed_on)))
        },
        Info::TcAttachInfo(t) => {
            let direction = match Direction::parse(&t.direction) {
                Ok(d) => d,
                Err(e) => {
                    return Err(BpfmanError::InvalidAttach(e));
                },
            };
            let proceed_on = match TcProceedOn::from_int32s(&t.proceed_on) {
                Ok(p) => p,
                Err(e) => {
                    return Err(BpfmanError::InvalidAttach(e));
                },
            };
            Ok(Program::Tc(TcProgram::new(data, t.priority, t.iface, proceed_on, direction)))
        },
        Info::TracepointAttachInfo(t) => {
            Ok(Program::Tracepoint(TracepointProgram::new(data, t.tracepoint)))
        },
        Info::KprobeAttachInfo(k) => {
            match KprobeProgram::new(data, k.fn_name, k.offset, k.retprobe, k.namespace) {
                Ok(p) => Ok(Program::Kprobe(p)),
                Err(e) => Err(e),
            }
        },
        Info::UprobeAttachInfo(u) => {
            Ok(
                Program::Uprobe(
                    UprobeProgram::new(
                        data,
                        u.fn_name,
                        u.offset,
                        u.target,
                        u.retprobe,
                        u.pid,
                        u.namespace,
                    ),
                ),
            )
        },
    }
}

/// Copies a `u32` list; response rows own their data.
fn copy_u32s(v: &Vec<u32>) -> (r: Vec<u32>)
    ensures
        r@ == v@,
{
    let mut out: Vec<u32> = Vec::new();
    let mut k: usize = 0;
    while k < v.len()
        invariant
            k <= v@.len(),
            out@ =~= v@.subrange(0, k as int),
        decreases v@.len() - k,
    {
        out.push(v[k]);
        k += 1;
    }
    proof {
        assert(out@ =~= v@);
    }
    out
}

/// Copies a string map; response rows own their data.
fn copy_string_pairs(v: &Vec<(String, String)>) -> (r: Vec<(String, String)>)
    ensures
        r.deep_view() == v.deep_view(),
{
    let mut out: Vec<(String, String)> = Vec::new();
    let mut k: usize = 0;
    while k < v.len()
        invariant
            k <= v@.len(),
            out@ =~= v@.subrange(0, k as int),
        decreases v@.len() - k,
    {
        let pair = (v[k].0.clone(), v[k].1.clone());
        proof {
            assert(pair == v@[k as int]);
        }
        out.push(pair);
        k += 1;
    }
    proof {
        assert(out@ =~= v@);
        assert(out.deep_view() =~= v.deep_view());
    }
    out
}

/// Copies a byte list; response rows own their data.
fn copy_bytes(v: &Vec<u8>) -> (r: Vec<u8>)
    ensures
        r@ == v@,
{
    let mut out: Vec<u8> = Vec::new();
    let mut k: usize = 0;
    while k < v.len()
        invariant
            k <= v@.len(),
            out@ =~= v@.subrange(0, k as int),
        decreases v@.len() - k,
    {
        out.push(v[k]);
        k += 1;
    }
    proof {
        assert(out@ =~= v@);
    }
    out
}

/// Copies a byte map; response rows own their data.
fn copy_byte_pairs(v: &Vec<(String, Vec<u8>)>) -> (r: Vec<(String, Vec<u8>)>)
    ensures
        r.deep_view() == v.deep_view(),
{
    let mut out: Vec<(String, Vec<u8>)> = Vec::new();
    let mut k: usize = 0;
    while k < v.len()
        invariant
            k <= v@.len(),
            out.deep_view() =~~= v.deep_view().subrange(0, k as int),
        decreases v@.len() - k,
    {
        let pair = (v[k].0.clone(), copy_bytes(&v[k].1));
        proof {
            assert(pair.deep_view() == v.deep_view()[k as int]);
        }
        out.push(pair);
        k += 1;
        proof {
            assert(out.deep_view() =~~= v.deep_view().subrange(0, k as int));
        }
    }
    proof {
        assert(out.deep_view() =~~= v.deep_view());
    }
    out
}

/// Builds the daemon-side half of a response row.  Credentials are never
/// echoed: an image location always leaves with blank username and
/// password, whatever the stored record holds.
pub fn convert_to_program_info(program: &Program) -> (r: Option<ProgramInfo>)
    ensures
        r is None <==> program matches Program::Unsupported(_),
        r matches Some(info) ==> creds_blank(info),
        r matches Some(info) ==> program_info_matches(info, *program),
{
    let data = match program.data() {
        Ok(d) => d,
        Err(_) => {
            return None;
        },
    };
    let bytecode = match program.location() {
        Some(l) => {
            match l {
                Location::Image(m) => Some(
                    BytecodeLocation {
                        location: Some(
                            RequestLocation::Image(
                                RequestImage {
                                    url: m.image_url.clone(),
                                    image_pull_policy: m.get_pull_policy().value(),
                                    // never echo plaintext credentials
                                    username: Some(String::new()),
                                    password: Some(String::new()),
                                },
                            ),
                        ),
                    },
                ),
                Location::File(f) => Some(
                    BytecodeLocation { location: Some(RequestLocation::File(f.clone())) },
                ),
            }
        },
        None => None,
    };
    let attach_info: Option<Info> = match program {
        Program::Xdp(p) => Some(
            Info::XdpAttachInfo(
                XdpAttachInfo {
                    priority: p.priority,
                    iface: p.iface.clone(),
                    position: match p.current_position {
                        Some(pos) => pos as i32,
                        None => 0,
                    },
                    proceed_on: p.proceed_on.as_action_vec(),
                },
            ),
        ),
        Program::Tc(p) => Some(
            Info::TcAttachInfo(
                TcAttachInfo {
                    priority: p.priority,
                    iface: p.iface.clone(),
                    position: match p.current_position {
                        Some(pos) => pos as i32,
                        None => 0,
                    },
                    direction: match p.direction {
                        Direction::Ingress => String::from_str("ingress"),
                        Direction::Egress => String::from_str("egress"),
                    },
                    proceed_on: p.proceed_on.as_action_vec(),
                },
            ),
        ),
        Program::Tracepoint(p) => Some(
            Info::TracepointAttachInfo(
                TracepointAttachInfo { tracepoint: p.tracepoint.clone() },
            ),
        ),
        Program::Kprobe(p) => Some(
            Info::KprobeAttachInfo(
                KprobeAttachInfo {
                    fn_name: p.fn_name.clone(),
                    offset: p.offset,
                    retprobe: p.retprobe,
                    namespace: match &p.namespace {
                        Some(n) => Some(n.clone()),
                        None => None,
                    },
                },
            ),
        ),
        Program::Uprobe(p) => Some(
            Info::UprobeAttachInfo(
                UprobeAttachInfo {
                    fn_name: match &p.fn_name {
                        Some(n) => Some(n.clone()),
                        None => None,
                    },
                    offset: p.offset,
                    target: p.target.clone(),
                    retprobe: p.retprobe,
                    pid: p.pid,
                    namespace: match &p.namespace {
                        Some(n) => Some(n.clone()),
                        None => None,
                    },
                },
            ),
        ),
        Program::Unsupported(_) => None,
    };
    let map_pin_path = match data.get_map_pin_path() {
        Some(p) => p.clone(),
        None => String::new(),
    };
    let map_used_by = match data.get_maps_used_by() {
        Some(v) => copy_u32s(v),
        None => Vec::new(),
    };
    Some(
        ProgramInfo {
            name: data.name.clone(),
            bytecode,
            attach: Some(AttachInfo { info: attach_info }),
            global_data: copy_byte_pairs(data.get_global_data()),
            map_owner_id: data.get_map_owner_id(),
            map_pin_path,
            map_used_by,
            metadata: copy_string_pairs(data.get_metadata()),
        },
    )
}

/// Builds the kernel-side half of a response row; absent until the kernel
/// has assigned the program an id.
pub fn convert_to_kernel_info(program: &Program) -> (r: Option<KernelProgramInfo>)
    ensures
        r is Some <==> program.spec_kernel_info() is Some,
        r matches Some(k) ==> kernel_info_matches(k, *program),
{
    let kind = program.kind();
    let kernel_info = match program.kernel_info() {
        Some(k) => k,
        None => {
            return None;
        },
    };
    Some(
        KernelProgramInfo {
            id: kernel_info.id,
            name: kernel_info.name.clone(),
            program_type: kind,
            loaded_at: kernel_info.loaded_at.clone(),
            tag: kernel_info.tag.clone(),
            gpl_compatible: kernel_info.gpl_compatible,
            map_ids: copy_u32s(&kernel_info.map_ids),
            btf_id: kernel_info.btf_id,
            bytes_xlated: kernel_info.bytes_xlated,
            jited: kernel_info.jited,
            bytes_jited: kernel_info.bytes_jited,
            bytes_memlock: kernel_info.bytes_memlock,
            verified_insns: kernel_info.verified_insns,
        },
    )
}

/// Whether a metadata map holds this exact pair.
pub open spec fn metadata_has(metadata: Seq<(Seq<char>, Seq<char>)>, k: Seq<char>, v: Seq<char>) -> bool {
    exists|j: int| 0 <= j < metadata.len() && metadata[j] == (k, v)
}

/// Whether a program passes the `List` filters.
pub open spec fn passes_filter(
    p: Program,
    program_type: Option<u32>,
    match_metadata: Seq<(Seq<char>, Seq<char>)>,
    bpfman_programs_only: bool,
) -> bool {
    &&& (program_type matches Some(t) ==> p.spec_kind_u32() == t)
    &&& (p matches Program::Unsupported(_) ==> !bpfman_programs_only && match_metadata.len() == 0)
    &&& (p.spec_data() matches Some(d) ==> forall|j: int|
        0 <= j < match_metadata.len() ==> metadata_has(
            d.metadata,
            (#[trigger] match_metadata[j]).0,
            match_metadata[j].1,
        ))
}

/// Whether this exact pair is present, by linear search.
fn metadata_lookup(metadata: &Vec<(String, String)>, k: &String, v: &String) -> (r: bool)
    ensures
        r == metadata_has(metadata.deep_view(), k@, v@),
{
    let mut j: usize = 0;
    while j < metadata.len()
        invariant
            j <= metadata@.len(),
            forall|i: int| 0 <= i < j ==> metadata.deep_view()[i] != (k@, v@),
        decreases metadata@.len() - j,
    {
        if metadata[j].0.eq(k) && metadata[j].1.eq(v) {
            proof {
                assert(metadata.deep_view()[j as int] == (k@, v@));
            }
            return true;
        }
        proof {
            assert(metadata.deep_view()[j as int] != (k@, v@));
        }
        j += 1;
    }
    false
}

/// Serves the filtering half of `List`: one response row for each tracked
/// program that passes the filters, in catalog order.
pub fn list_response(
    programs: &Vec<Program>,
    program_type: Option<u32>,
    match_metadata: &Vec<(String, String)>,
    bpfman_programs_only: bool,
) -> (r: Vec<ListResult>)
    ensures
        // one row for each passing program, in catalog order, each row
        // reporting exactly its program
        r@.len() == spec_filtered(
            programs@,
            program_type,
            match_metadata.deep_view(),
            bpfman_programs_only,
        ).len(),
        forall|i: int|
            0 <= i < r@.len() ==> row_matches(
                #[trigger] r@[i],
                spec_filtered(
                    programs@,
                    program_type,
                    match_metadata.deep_view(),
                    bpfman_programs_only,
                )[i],
            ),
        // no credentials anywhere in the response
        forall|i: int|
            0 <= i < r@.len() ==> ((#[trigger] r@[i]).info matches Some(info) ==> creds_blank(
                info,
            )),
{
    let mut out: Vec<ListResult> = Vec::new();
    let mut k: usize = 0;
    while k < programs.len()
        invariant
            k <= programs@.len(),
            out@.len() == spec_filtered(
                programs@.subrange(0, k as int),
                program_type,
                match_metadata.deep_view(),
                bpfman_programs_only,
            ).len(),
            forall|i: int|
                0 <= i < out@.len() ==> row_matches(
                    #[trigger] out@[i],
                    spec_filtered(
                        programs@.subrange(0, k as int),
                        program_type,
                        match_metadata.deep_view(),
                        bpfman_programs_only,
                    )[i],
                ),
            forall|i: int|
                0 <= i < out@.len() ==> ((#[trigger] out@[i]).info matches Some(info)
                    ==> creds_blank(info)),
        decreases programs@.len() - k,
    {
        proof {
            assert(programs@.subrange(0, k as int + 1) =~= programs@.subrange(0, k as int).push(
                programs@[k as int],
            ));
            lemma_filtered_push(
                programs@.subrange(0, k as int),
                programs@[k as int],
                program_type,
                match_metadata.deep_view(),
                bpfman_programs_only,
            );
        }
        let program = &programs[k];
        let mut keep = true;
        if let Some(t) = program_type {
            if program.kind() != t {
                keep = false;
            }
        }
        if keep {
            match program.data() {
                Err(_) => {
                    if bpfman_programs_only || match_metadata.len() > 0 {
                        keep = false;
                    }
                },
                Ok(data) => {
                    let mut j: usize = 0;
                    while j < match_metadata.len()
                        invariant
                            j <= match_metadata@.len(),
                            keep ==> forall|i: int|
                                0 <= i < j ==> metadata_has(
                                    data@.metadata,
                                    (#[trigger] match_metadata.deep_view()[i]).0,
                                    match_metadata.deep_view()[i].1,
                                ),
                            !keep ==> !(forall|i: int|
                                0 <= i < match_metadata@.len() ==> metadata_has(
                                    data@.metadata,
                                    (#[trigger] match_metadata.deep_view()[i]).0,
                                    match_metadata.deep_view()[i].1,
                                )),
                        decreases match_metadata@.len() - j,
                    {
                        if !metadata_lookup(&data.metadata, &match_metadata[j].0, &match_metadata[j].1) {
                            proof {
                                assert(!metadata_has(
                                    data@.metadata,
                                    match_metadata.deep_view()[j as int].0,
                                    match_metadata.deep_view()[j as int].1,
                                ));
                            }
                            keep = false;
                            j = match_metadata.len();
                        } else {
                            j += 1;
                        }
                    }
                },
            }
        }
        if keep {
            proof {
                assert(passes_filter(
                    programs@[k as int],
                    program_type,
                    match_metadata.deep_view(),
                    bpfman_programs_only,
                ));
            }
            let row = ListResult {
                info: convert_to_program_info(program),
                kernel_info: convert_to_kernel_info(program),
            };
            out.push(row);
        } else {
            proof {
                assert(!passes_filter(
                    programs@[k as int],
                    program_type,
                    match_metadata.deep_view(),
                    bpfman_programs_only,
                ));
            }
        }
        k += 1;
    }
    proof {
        assert(programs@.subrange(0, programs@.len() as int) =~= programs@);
    }
    out
}

/// The subsequence of programs passing the filters, in catalog order.
pub open spec fn spec_filtered(
    programs: Seq<Program>,
    program_type: Option<u32>,
    match_metadata: Seq<(Seq<char>, Seq<char>)>,
    bpfman_programs_only: bool,
) -> Seq<Program>
    decreases programs.len(),
{
    if programs.len() == 0 {
        Seq::empty()
    } else {
        spec_filtered(programs.drop_last(), program_type, match_metadata, bpfman_programs_only)
            + if passes_filter(programs.last(), program_type, match_metadata, bpfman_programs_only) {
            seq![programs.last()]
        } else {
            Seq::empty()
        }
    }
}

proof fn lemma_filtered_push(
    programs: Seq<Program>,
    p: Program,
    program_type: Option<u32>,
    match_metadata: Seq<(Seq<char>, Seq<char>)>,
    bpfman_programs_only: bool,
)
    ensures
        spec_filtered(programs.push(p), program_type, match_metadata, bpfman_programs_only)
            == spec_filtered(programs, program_type, match_metadata, bpfman_programs_only) + if
            passes_filter(p, program_type, match_metadata, bpfman_programs_only) {
            seq![p]
        } else {
            Seq::<Program>::empty()
        },
{
    assert(programs.push(p).drop_last() =~= programs);
    assert(programs.push(p).last() == p);
}

} // verus!
