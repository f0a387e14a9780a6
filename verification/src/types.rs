//! The data model for tracked eBPF programs.
//!
//! A tracked program is a tagged variant over the supported attach kinds,
//! each carrying the shared [`ProgramData`].  Kernel-derived attributes are
//! held in [`KernelProgramInfo`], populated once the kernel has assigned an
//! id.  Attach points that multiplex several programs are identified by a
//! [`DispatcherId`].

use vstd::prelude::*;

use crate::errors::{BpfmanError, ParseError};
use crate::proceed_on::{TcProceedOn, XdpProceedOn};

verus! {

/// Traffic direction of a TC attach point.
#[derive(Clone, Copy, Debug, PartialEq, Eq, Hash, Structural)]
pub enum Direction {
    Ingress,
    Egress,
}

impl Direction {
    /// Parses the client encoding; only "ingress" and "egress" are accepted.
    pub fn parse(v: &String) -> (r: Result<Direction, ParseError>)
        ensures
            v@ == "ingress"@ ==> r matches Ok(Direction::Ingress),
            v@ == "egress"@ ==> r matches Ok(Direction::Egress),
            v@ != "ingress"@ && v@ != "egress"@ ==> (r matches Err(ParseError::InvalidDirection {
                direction,
            }) && direction@ == v@),
    {
        proof {
            reveal_strlit("ingress");
            reveal_strlit("egress");
            assert("ingress"@.len() == 7);
            assert("egress"@.len() == 6);
        }
        let ingress = String::from_str("ingress");
        let egress = String::from_str("egress");
        if v.eq(&ingress) {
            Ok(Direction::Ingress)
        } else if v.eq(&egress) {
            Ok(Direction::Egress)
        } else {
            Err(ParseError::InvalidDirection { direction: v.clone() })
        }
    }

    /// The short form stored by the catalog.
    pub fn to_short_string(&self) -> (r: String)
        ensures
            *self == Direction::Ingress ==> r@ == "in"@,
            *self == Direction::Egress ==> r@ == "eg"@,
    {
        match self {
            Direction::Ingress => String::from_str("in"),
            Direction::Egress => String::from_str("eg"),
        }
    }

    /// Reads the short form back; inverse of [`Direction::to_short_string`].
    pub fn from_short_string(v: &String) -> (r: Option<Direction>)
        ensures
            v@ == "in"@ ==> r == Some(Direction::Ingress),
            v@ == "eg"@ ==> r == Some(Direction::Egress),
            v@ != "in"@ && v@ != "eg"@ ==> r is None,
    {
        proof {
            reveal_strlit("in");
            reveal_strlit("eg");
            assert("in"@[0] == 'i');
            assert("eg"@[0] == 'e');
        }
        let ingress = String::from_str("in");
        let egress = String::from_str("eg");
        if v.eq(&ingress) {
            Some(Direction::Ingress)
        } else if v.eq(&egress) {
            Some(Direction::Egress)
        } else {
            None
        }
    }
}

/// When the image store may reuse its cache for a pull.
#[derive(Clone, Copy, Debug, PartialEq, Eq, Structural)]
pub enum ImagePullPolicy {
    Always,
    IfNotPresent,
    Never,
}

impl ImagePullPolicy {
    /// The wire value of this policy.
    pub open spec fn spec_value(self) -> i32 {
        match self {
            ImagePullPolicy::Always => 0,
            ImagePullPolicy::IfNotPresent => 1,
            ImagePullPolicy::Never => 2,
        }
    }

    /// Exec counterpart of [`ImagePullPolicy::spec_value`].
    pub fn value(&self) -> (r: i32)
        ensures
            r == self.spec_value(),
    {
        match self {
            ImagePullPolicy::Always => 0,
            ImagePullPolicy::IfNotPresent => 1,
            ImagePullPolicy::Never => 2,
        }
    }

    /// Parses the wire value; fails exactly on an unknown value.
    pub fn from_value(v: i32) -> (r: Result<ImagePullPolicy, BpfmanError>)
        ensures
            v == 0 ==> r matches Ok(ImagePullPolicy::Always),
            v == 1 ==> r matches Ok(ImagePullPolicy::IfNotPresent),
            v == 2 ==> r matches Ok(ImagePullPolicy::Never),
            !(0 <= v <= 2) ==> r matches Err(BpfmanError::InvalidArgument(_)),
    {
        match v {
            0 => Ok(ImagePullPolicy::Always),
            1 => Ok(ImagePullPolicy::IfNotPresent),
            2 => Ok(ImagePullPolicy::Never),
            _ => Err(BpfmanError::InvalidArgument(String::from_str("invalid pull policy"))),
        }
    }
}

/// An OCI image reference plus the credentials and policy used to pull it.
#[derive(Clone, Debug)]
pub struct BytecodeImage {
    pub image_url: String,
    pub image_pull_policy: ImagePullPolicy,
    pub username: Option<String>,
    pub password: Option<String>,
}

/// The mathematical value of a [`BytecodeImage`].
pub struct BytecodeImageV {
    pub image_url: Seq<char>,
    pub image_pull_policy: ImagePullPolicy,
    pub username: Option<Seq<char>>,
    pub password: Option<Seq<char>>,
}

impl View for BytecodeImage {
    type V = BytecodeImageV;

    open spec fn view(&self) -> BytecodeImageV {
        BytecodeImageV {
            image_url: self.image_url@,
            image_pull_policy: self.image_pull_policy,
            username: self.username.deep_view(),
            password: self.password.deep_view(),
        }
    }
}

impl BytecodeImage {
    pub fn new(
        image_url: String,
        image_pull_policy: ImagePullPolicy,
        username: Option<String>,
        password: Option<String>,
    ) -> (r: Self)
        ensures
            r@.image_url == image_url@,
            r@.image_pull_policy == image_pull_policy,
            r@.username == username.deep_view(),
            r@.password == password.deep_view(),
    {
        BytecodeImage { image_url, image_pull_policy, username, password }
    }

    pub fn get_url(&self) -> (r: &String)
        ensures
            r@ == self@.image_url,
    {
        &self.image_url
    }

    pub fn get_pull_policy(&self) -> (r: ImagePullPolicy)
        ensures
            r == self@.image_pull_policy,
    {
        self.image_pull_policy
    }
}

/// Where a program's bytecode comes from.
#[derive(Clone, Debug)]
pub enum Location {
    Image(BytecodeImage),
    File(String),
}

/// The mathematical value of a [`Location`].
pub enum LocationV {
    Image(BytecodeImageV),
    File(Seq<char>),
}

impl View for Location {
    type V = LocationV;

    open spec fn view(&self) -> LocationV {
        match self {
            Location::Image(i) => LocationV::Image(i@),
            Location::File(p) => LocationV::File(p@),
        }
    }
}

impl Default for Location {
    /// An empty file location, used as a placeholder before rebuilds.
    fn default() -> (r: Self)
        ensures
            r@ matches LocationV::File(p) && p.len() == 0,
    {
        Location::File(String::new())
    }
}

/// Kernel-derived attributes of a loaded program.
#[derive(Clone, Debug)]
pub struct KernelProgramInfo {
    pub id: u32,
    pub name: String,
    pub program_type: u32,
    pub loaded_at: String,
    pub tag: String,
    pub gpl_compatible: bool,
    pub map_ids: Vec<u32>,
    pub btf_id: u32,
    pub bytes_xlated: u32,
    pub jited: bool,
    pub bytes_jited: u32,
    pub bytes_memlock: u32,
    pub verified_insns: u32,
}

/// The mathematical value of a [`KernelProgramInfo`].
pub struct KernelProgramInfoV {
    pub id: u32,
    pub name: Seq<char>,
    pub program_type: u32,
    pub loaded_at: Seq<char>,
    pub tag: Seq<char>,
    pub gpl_compatible: bool,
    pub map_ids: Seq<u32>,
    pub btf_id: u32,
    pub bytes_xlated: u32,
    pub jited: bool,
    pub bytes_jited: u32,
    pub bytes_memlock: u32,
    pub verified_insns: u32,
}

impl View for KernelProgramInfo {
    type V = KernelProgramInfoV;

    open spec fn view(&self) -> KernelProgramInfoV {
        KernelProgramInfoV {
            id: self.id,
            name: self.name@,
            program_type: self.program_type,
            loaded_at: self.loaded_at@,
            tag: self.tag@,
            gpl_compatible: self.gpl_compatible,
            map_ids: self.map_ids@,
            btf_id: self.btf_id,
            bytes_xlated: self.bytes_xlated,
            jited: self.jited,
            bytes_jited: self.bytes_jited,
            bytes_memlock: self.bytes_memlock,
            verified_insns: self.verified_insns,
        }
    }
}

/// Attributes shared by every program the daemon loads.
#[derive(Clone, Debug)]
pub struct ProgramData {
    // known at load time, set by user
    pub name: String,
    pub location: Location,
    pub metadata: Vec<(String, String)>,
    pub global_data: Vec<(String, Vec<u8>)>,
    pub map_owner_id: Option<u32>,
    // populated after load
    pub id: Option<u32>,
    pub kernel_info: Option<KernelProgramInfo>,
    pub map_pin_path: Option<String>,
    pub maps_used_by: Option<Vec<u32>>,
    // caches the raw bytecode only while a load is in flight
    pub program_bytes: Vec<u8>,
}

/// The mathematical value of a [`ProgramData`].
pub struct ProgramDataV {
    pub name: Seq<char>,
    pub location: LocationV,
    pub metadata: Seq<(Seq<char>, Seq<char>)>,
    pub global_data: Seq<(Seq<char>, Seq<u8>)>,
    pub map_owner_id: Option<u32>,
    pub id: Option<u32>,
    pub kernel_info: Option<KernelProgramInfoV>,
    pub map_pin_path: Option<Seq<char>>,
    pub maps_used_by: Option<Seq<u32>>,
    pub program_bytes: Seq<u8>,
}

impl View for ProgramData {
    type V = ProgramDataV;

    open spec fn view(&self) -> ProgramDataV {
        ProgramDataV {
            name: self.name@,
            location: self.location@,
            metadata: self.metadata.deep_view(),
            global_data: self.global_data.deep_view(),
            map_owner_id: self.map_owner_id,
            id: self.id,
            kernel_info: match self.kernel_info {
                Some(k) => Some(k@),
                None => None,
            },
            map_pin_path: self.map_pin_path.deep_view(),
            maps_used_by: match self.maps_used_by {
                Some(ref v) => Some(v@),
                None => None,
            },
            program_bytes: self.program_bytes@,
        }
    }
}

impl ProgramData {
    /// The user maps carry each key once.
    pub open spec fn user_maps_unique(&self) -> bool {
        &&& map_keys_unique(self@.metadata)
        &&& map_keys_unique(self@.global_data)
    }

    /// A fresh record for a client request, before the kernel assigns an id.
    pub fn new_pre_id(
        location: Location,
        name: String,
        metadata: Vec<(String, String)>,
        global_data: Vec<(String, Vec<u8>)>,
        map_owner_id: Option<u32>,
    ) -> (r: Self)
        requires
            map_keys_unique(metadata.deep_view()),
            map_keys_unique(global_data.deep_view()),
        ensures
            r.user_maps_unique(),
            r@.name == name@,
            r@.location == location@,
            r@.metadata == metadata.deep_view(),
            r@.global_data == global_data.deep_view(),
            r@.map_owner_id == map_owner_id,
            r@.id is None,
            r@.kernel_info is None,
            r@.map_pin_path is None,
            r@.maps_used_by is None,
            r@.program_bytes.len() == 0,
    {
        ProgramData {
            name,
            location,
            metadata,
            global_data,
            map_owner_id,
            id: None,
            kernel_info: None,
            map_pin_path: None,
            maps_used_by: None,
            program_bytes: Vec::new(),
        }
    }

    /// The kernel id; callable only once the id has been assigned.
    pub fn id_unsafe(&self) -> (r: u32)
        requires
            self@.id is Some,
        ensures
            Some(r) == self@.id,
    {
        match self.id {
            Some(i) => i,
            None => {
                proof {
                    assert(false);
                }
                0
            },
        }
    }

    /// Records the kernel-derived attributes and the kernel-assigned id.
    pub fn load_kernel_info(&mut self, info: KernelProgramInfo)
        ensures
            final(self)@ == (ProgramDataV { id: Some(info@.id), kernel_info: Some(info@), ..old(self)@ }),
    {
        self.id = Some(info.id);
        self.kernel_info = Some(info);
    }

    pub fn get_kernel_name(&self) -> (r: Result<&String, BpfmanError>)
        ensures
            self@.kernel_info matches Some(k) ==> (r matches Ok(n) && n@ == k.name),
            self@.kernel_info is None ==> r is Err,
    {
        match self.kernel_info {
            Some(ref k) => Ok(&k.name),
            None => Err(BpfmanError::Error(String::from_str("kernel info not set"))),
        }
    }

    pub fn get_kernel_program_type(&self) -> (r: Result<u32, BpfmanError>)
        ensures
            self@.kernel_info matches Some(k) ==> r == Ok::<u32, BpfmanError>(k.program_type),
            self@.kernel_info is None ==> r is Err,
    {
        match self.kernel_info {
            Some(ref k) => Ok(k.program_type),
            None => Err(BpfmanError::Error(String::from_str("kernel info not set"))),
        }
    }

    pub fn get_loaded_at(&self) -> (r: Result<&String, BpfmanError>)
        ensures
            self@.kernel_info matches Some(k) ==> (r matches Ok(n) && n@ == k.loaded_at),
            self@.kernel_info is None ==> r is Err,
    {
        match self.kernel_info {
            Some(ref k) => Ok(&k.loaded_at),
            None => Err(BpfmanError::Error(String::from_str("kernel info not set"))),
        }
    }

    pub fn get_tag(&self) -> (r: Result<&String, BpfmanError>)
        ensures
            self@.kernel_info matches Some(k) ==> (r matches Ok(n) && n@ == k.tag),
            self@.kernel_info is None ==> r is Err,
    {
        match self.kernel_info {
            Some(ref k) => Ok(&k.tag),
            None => Err(BpfmanError::Error(String::from_str("kernel info not set"))),
        }
    }

    pub fn get_gpl_compatible(&self) -> (r: Result<bool, BpfmanError>)
        ensures
            self@.kernel_info matches Some(k) ==> r == Ok::<bool, BpfmanError>(k.gpl_compatible),
            self@.kernel_info is None ==> r is Err,
    {
        match self.kernel_info {
            Some(ref k) => Ok(k.gpl_compatible),
            None => Err(BpfmanError::Error(String::from_str("kernel info not set"))),
        }
    }

    pub fn get_map_ids(&self) -> (r: Result<&Vec<u32>, BpfmanError>)
        ensures
            self@.kernel_info matches Some(k) ==> (r matches Ok(v) && v@ == k.map_ids),
            self@.kernel_info is None ==> r is Err,
    {
        match self.kernel_info {
            Some(ref k) => Ok(&k.map_ids),
            None => Err(BpfmanError::Error(String::from_str("kernel info not set"))),
        }
    }

    pub fn get_btf_id(&self) -> (r: Result<u32, BpfmanError>)
        ensures
            self@.kernel_info matches Some(k) ==> r == Ok::<u32, BpfmanError>(k.btf_id),
            self@.kernel_info is None ==> r is Err,
    {
        match self.kernel_info {
            Some(ref k) => Ok(k.btf_id),
            None => Err(BpfmanError::Error(String::from_str("kernel info not set"))),
        }
    }

    pub fn get_bytes_xlated(&self) -> (r: Result<u32, BpfmanError>)
        ensures
            self@.kernel_info matches Some(k) ==> r == Ok::<u32, BpfmanError>(k.bytes_xlated),
            self@.kernel_info is None ==> r is Err,
    {
        match self.kernel_info {
            Some(ref k) => Ok(k.bytes_xlated),
            None => Err(BpfmanError::Error(String::from_str("kernel info not set"))),
        }
    }

    pub fn get_jited(&self) -> (r: Result<bool, BpfmanError>)
        ensures
            self@.kernel_info matches Some(k) ==> r == Ok::<bool, BpfmanError>(k.jited),
            self@.kernel_info is None ==> r is Err,
    {
        match self.kernel_info {
            Some(ref k) => Ok(k.jited),
            None => Err(BpfmanError::Error(String::from_str("kernel info not set"))),
        }
    }

    pub fn get_bytes_jited(&self) -> (r: Result<u32, BpfmanError>)
        ensures
            self@.kernel_info matches Some(k) ==> r == Ok::<u32, BpfmanError>(k.bytes_jited),
            self@.kernel_info is None ==> r is Err,
    {
        match self.kernel_info {
            Some(ref k) => Ok(k.bytes_jited),
            None => Err(BpfmanError::Error(String::from_str("kernel info not set"))),
        }
    }

    pub fn get_bytes_memlock(&self) -> (r: Result<u32, BpfmanError>)
        ensures
            self@.kernel_info matches Some(k) ==> r == Ok::<u32, BpfmanError>(k.bytes_memlock),
            self@.kernel_info is None ==> r is Err,
    {
        match self.kernel_info {
            Some(ref k) => Ok(k.bytes_memlock),
            None => Err(BpfmanError::Error(String::from_str("kernel info not set"))),
        }
    }

    pub fn get_verified_insns(&self) -> (r: Result<u32, BpfmanError>)
        ensures
            self@.kernel_info matches Some(k) ==> r == Ok::<u32, BpfmanError>(k.verified_insns),
            self@.kernel_info is None ==> r is Err,
    {
        match self.kernel_info {
            Some(ref k) => Ok(k.verified_insns),
            None => Err(BpfmanError::Error(String::from_str("kernel info not set"))),
        }
    }

    pub fn set_map_pin_path(&mut self, path: String)
        ensures
            final(self)@ == (ProgramDataV { map_pin_path: Some(path@), ..old(self)@ }),
    {
        self.map_pin_path = Some(path);
    }

    pub fn get_map_pin_path(&self) -> (r: Option<&String>)
        ensures
            r matches Some(p) ==> self@.map_pin_path == Some(p@),
            r is None ==> self@.map_pin_path is None,
    {
        match self.map_pin_path {
            Some(ref p) => Some(p),
            None => None,
        }
    }

    pub fn set_maps_used_by(&mut self, used_by: Vec<u32>)
        ensures
            final(self)@ == (ProgramDataV { maps_used_by: Some(used_by@), ..old(self)@ }),
    {
        self.maps_used_by = Some(used_by);
    }

    pub fn get_maps_used_by(&self) -> (r: Option<&Vec<u32>>)
        ensures
            r matches Some(v) ==> self@.maps_used_by == Some(v@),
            r is None ==> self@.maps_used_by is None,
    {
        match self.maps_used_by {
            Some(ref v) => Some(v),
            None => None,
        }
    }

    pub fn get_global_data(&self) -> (r: &Vec<(String, Vec<u8>)>)
        ensures
            r.deep_view() == self@.global_data,
    {
        &self.global_data
    }

    pub fn get_metadata(&self) -> (r: &Vec<(String, String)>)
        ensures
            r.deep_view() == self@.metadata,
    {
        &self.metadata
    }

    pub fn get_map_owner_id(&self) -> (r: Option<u32>)
        ensures
            r == self@.map_owner_id,
    {
        self.map_owner_id
    }

    pub fn program_bytes(&self) -> (r: &Vec<u8>)
        ensures
            r@ == self@.program_bytes,
    {
        &self.program_bytes
    }

    /// Drops the cached bytecode so no long-lived copy stays on the heap.
    pub fn clear_program_bytes(&mut self)
        ensures
            final(self)@ == (ProgramDataV { program_bytes: Seq::empty(), ..old(self)@ }),
    {
        self.program_bytes = Vec::new();
    }

    /// Accepts fetched bytecode together with the program name the image
    /// metadata declared.  An empty request name adopts the image's name; a
    /// non-empty one must match it exactly.
    pub fn set_program_bytes(&mut self, bytes: Vec<u8>, image_name: String) -> (r: Result<
        (),
        BpfmanError,
    >)
        ensures
            old(self)@.name.len() == 0 ==> (r is Ok && final(self)@ == (ProgramDataV {
                name: image_name@,
                program_bytes: bytes@,
                ..old(self)@
            })),
            old(self)@.name.len() != 0 && old(self)@.name == image_name@ ==> (r is Ok && final(self)@ == (ProgramDataV { program_bytes: bytes@, ..old(self)@ })),
            old(self)@.name.len() != 0 && old(self)@.name != image_name@ ==> (r matches Err(
                BpfmanError::BytecodeMetaDataMismatch { image_prog_name, provided_prog_name },
            ) && image_prog_name@ == image_name@ && provided_prog_name@ == old(self)@.name && *final(self) == *old(self)),
    {
        if self.name.as_str().is_empty() {
            self.name = image_name;
            self.program_bytes = bytes;
            Ok(())
        } else if self.name.eq(&image_name) {
            self.program_bytes = bytes;
            Ok(())
        } else {
            Err(
                BpfmanError::BytecodeMetaDataMismatch {
                    image_prog_name: image_name,
                    provided_prog_name: self.name.clone(),
                },
            )
        }
    }
}

/// An XDP program and its multi-program attach parameters.
#[derive(Clone, Debug)]
pub struct XdpProgram {
    pub data: ProgramData,
    // known at load time
    pub priority: i32,
    pub iface: String,
    pub proceed_on: XdpProceedOn,
    // populated after load
    pub current_position: Option<usize>,
    pub if_index: Option<u32>,
    pub attached: bool,
}

impl XdpProgram {
    pub fn new(data: ProgramData, priority: i32, iface: String, proceed_on: XdpProceedOn) -> (r:
        Self)
        ensures
            r.data@ == data@,
            r.priority == priority,
            r.iface@ == iface@,
            r.proceed_on@ == proceed_on@,
            r.current_position is None,
            r.if_index is None,
            !r.attached,
    {
        XdpProgram {
            data,
            priority,
            iface,
            proceed_on,
            current_position: None,
            if_index: None,
            attached: false,
        }
    }
}

/// A TC program and its multi-program attach parameters.
#[derive(Clone, Debug)]
pub struct TcProgram {
    pub data: ProgramData,
    // known at load time
    pub priority: i32,
    pub iface: String,
    pub proceed_on: TcProceedOn,
    pub direction: Direction,
    // populated after load
    pub current_position: Option<usize>,
    pub if_index: Option<u32>,
    pub attached: bool,
}

impl TcProgram {
    pub fn new(
        data: ProgramData,
        priority: i32,
        iface: String,
        proceed_on: TcProceedOn,
        direction: Direction,
    ) -> (r: Self)
        ensures
            r.data@ == data@,
            r.priority == priority,
            r.iface@ == iface@,
            r.proceed_on@ == proceed_on@,
            r.direction == direction,
            r.current_position is None,
            r.if_index is None,
            !r.attached,
    {
        TcProgram {
            data,
            priority,
            iface,
            proceed_on,
            direction,
            current_position: None,
            if_index: None,
            attached: false,
        }
    }
}

/// A tracepoint program; the hook accepts one program, no dispatcher.
#[derive(Clone, Debug)]
pub struct TracepointProgram {
    pub data: ProgramData,
    pub tracepoint: String,
}

impl TracepointProgram {
    pub fn new(data: ProgramData, tracepoint: String) -> (r: Self)
        ensures
            r.data@ == data@,
            r.tracepoint@ == tracepoint@,
    {
        TracepointProgram { data, tracepoint }
    }
}

/// A kprobe program; the hook accepts one program, no dispatcher.
#[derive(Clone, Debug)]
pub struct KprobeProgram {
    pub data: ProgramData,
    pub fn_name: String,
    pub offset: u64,
    pub retprobe: bool,
    pub namespace: Option<String>,
}

impl KprobeProgram {
    /// A kprobe in a target namespace is not supported: a request naming one
    /// is rejected rather than accepted and misattached.
    pub fn new(
        data: ProgramData,
        fn_name: String,
        offset: u64,
        retprobe: bool,
        namespace: Option<String>,
    ) -> (r: Result<Self, BpfmanError>)
        ensures
            namespace is None ==> (r matches Ok(p) && p.data@ == data@ && p.fn_name@ == fn_name@
                && p.offset == offset && p.retprobe == retprobe && p.namespace is None),
            namespace is Some ==> r matches Err(BpfmanError::InvalidArgument(_)),
    {
        if namespace.is_some() {
            return Err(
                BpfmanError::InvalidArgument(
                    String::from_str("kprobe namespace is not supported"),
                ),
            );
        }
        Ok(KprobeProgram { data, fn_name, offset, retprobe, namespace: None })
    }
}

/// A uprobe program; the hook accepts one program, no dispatcher.
#[derive(Clone, Debug)]
pub struct UprobeProgram {
    pub data: ProgramData,
    pub fn_name: Option<String>,
    pub offset: u64,
    pub target: String,
    pub retprobe: bool,
    pub pid: Option<i32>,
    pub namespace: Option<String>,
}

impl UprobeProgram {
    pub fn new(
        data: ProgramData,
        fn_name: Option<String>,
        offset: u64,
        target: String,
        retprobe: bool,
        pid: Option<i32>,
        namespace: Option<String>,
    ) -> (r: Self)
        ensures
            r.data@ == data@,
            r.fn_name.deep_view() == fn_name.deep_view(),
            r.offset == offset,
            r.target@ == target@,
            r.retprobe == retprobe,
            r.pid == pid,
            r.namespace.deep_view() == namespace.deep_view(),
    {
        UprobeProgram { data, fn_name, offset, target, retprobe, pid, namespace }
    }
}

/// Identifies the dispatcher owning one multi-program attach point.
#[derive(Clone, Copy, Debug, PartialEq, Eq, Structural)]
pub enum DispatcherId {
    Xdp { if_index: u32 },
    Tc { if_index: u32, direction: Direction },
}

/// A tracked program: one variant per attach kind, plus kernel programs the
/// daemon merely observes.
#[derive(Clone, Debug)]
pub enum Program {
    Xdp(XdpProgram),
    Tc(TcProgram),
    Tracepoint(TracepointProgram),
    Kprobe(KprobeProgram),
    Uprobe(UprobeProgram),
    Unsupported(KernelProgramInfo),
}

impl Program {
    /// The kernel program type of this program, as the kernel numbers them.
    pub open spec fn spec_kind_u32(&self) -> u32 {
        match self {
            Program::Xdp(_) => 6,
            Program::Tc(_) => 3,
            Program::Tracepoint(_) => 5,
            Program::Kprobe(_) => 2,
            Program::Uprobe(_) => 2,
            Program::Unsupported(i) => i.program_type,
        }
    }

    /// Exec counterpart of [`Program::spec_kind_u32`].
    pub fn kind(&self) -> (r: u32)
        ensures
            r == self.spec_kind_u32(),
    {
        match self {
            Program::Xdp(_) => 6,
            Program::Tc(_) => 3,
            Program::Tracepoint(_) => 5,
            Program::Kprobe(_) => 2,
            Program::Uprobe(_) => 2,
            Program::Unsupported(i) => i.program_type,
        }
    }

    /// The kernel id of this program, if one has been assigned.
    pub open spec fn spec_id(&self) -> Option<u32> {
        match self {
            Program::Unsupported(i) => Some(i.id),
            _ => match self.spec_data() {
                Some(d) => d.id,
                None => None,
            },
        }
    }

    /// The shared data of this program, absent for `Unsupported`.
    pub open spec fn spec_data(&self) -> Option<ProgramDataV> {
        match self {
            Program::Xdp(p) => Some(p.data@),
            Program::Tc(p) => Some(p.data@),
            Program::Tracepoint(p) => Some(p.data@),
            Program::Kprobe(p) => Some(p.data@),
            Program::Uprobe(p) => Some(p.data@),
            Program::Unsupported(_) => None,
        }
    }

    /// The attach-point key of this program; only XDP and TC have one.
    pub open spec fn spec_dispatcher_id(&self) -> Option<DispatcherId> {
        match self {
            Program::Xdp(p) => match p.if_index {
                Some(i) => Some(DispatcherId::Xdp { if_index: i }),
                None => None,
            },
            Program::Tc(p) => match p.if_index {
                Some(i) => Some(DispatcherId::Tc { if_index: i, direction: p.direction }),
                None => None,
            },
            _ => None,
        }
    }

    /// Exec counterpart of [`Program::spec_dispatcher_id`]; callable once
    /// the interface index is known.
    pub fn dispatcher_id(&self) -> (r: Option<DispatcherId>)
        requires
            self matches Program::Xdp(p) ==> p.if_index is Some,
            self matches Program::Tc(p) ==> p.if_index is Some,
        ensures
            r == self.spec_dispatcher_id(),
    {
        match self {
            Program::Xdp(p) => match p.if_index {
                Some(i) => Some(DispatcherId::Xdp { if_index: i }),
                None => {
                    proof {
                        assert(false);
                    }
                    None
                },
            },
            Program::Tc(p) => match p.if_index {
                Some(i) => Some(DispatcherId::Tc { if_index: i, direction: p.direction }),
                None => {
                    proof {
                        assert(false);
                    }
                    None
                },
            },
            _ => None,
        }
    }

    pub fn data(&self) -> (r: Result<&ProgramData, BpfmanError>)
        ensures
            r matches Ok(d) ==> self.spec_data() == Some(d@),
            r is Err <==> self matches Program::Unsupported(_),
    {
        match self {
            Program::Xdp(p) => Ok(&p.data),
            Program::Tc(p) => Ok(&p.data),
            Program::Tracepoint(p) => Ok(&p.data),
            Program::Kprobe(p) => Ok(&p.data),
            Program::Uprobe(p) => Ok(&p.data),
            Program::Unsupported(_) => Err(
                BpfmanError::Error(
                    String::from_str("Unsupported program type has no ProgramData"),
                ),
            ),
        }
    }

    pub fn data_mut(&mut self) -> (r: Result<&mut ProgramData, BpfmanError>)
        ensures
            r matches Ok(d) ==> {
                &&& old(self).spec_data() == Some((*d)@)
                &&& final(self).spec_data() == Some(final(d)@)
                &&& same_shape(*old(self), *final(self))
                &&& final(self).spec_mp_state() == old(self).spec_mp_state()
                &&& final(self).spec_priority() == old(self).spec_priority()
                &&& final(self).spec_dispatcher_id() == old(self).spec_dispatcher_id()
                &&& final(self).spec_iface() == old(self).spec_iface()
                &&& final(self).spec_xdp_proceed_on() == old(self).spec_xdp_proceed_on()
                &&& final(self).spec_tc_proceed_on() == old(self).spec_tc_proceed_on()
                &&& final(self).spec_direction() == old(self).spec_direction()
            },
            r is Err <==> old(self) matches Program::Unsupported(_),
            r is Err ==> *final(self) == *old(self),
    {
        match self {
            Program::Xdp(p) => Ok(&mut p.data),
            Program::Tc(p) => Ok(&mut p.data),
            Program::Tracepoint(p) => Ok(&mut p.data),
            Program::Kprobe(p) => Ok(&mut p.data),
            Program::Uprobe(p) => Ok(&mut p.data),
            Program::Unsupported(_) => Err(
                BpfmanError::Error(
                    String::from_str("Unsupported program type has no ProgramData"),
                ),
            ),
        }
    }

    /// The multi-program attach state: position, interface and attached flag.
    pub open spec fn spec_mp_state(&self) -> Option<(Option<usize>, Option<u32>, bool)> {
        match self {
            Program::Xdp(p) => Some((p.current_position, p.if_index, p.attached)),
            Program::Tc(p) => Some((p.current_position, p.if_index, p.attached)),
            _ => None,
        }
    }

    pub fn attached(&self) -> (r: Option<bool>)
        ensures
            r == match self.spec_mp_state() {
                Some(s) => Some(s.2),
                None => None::<bool>,
            },
    {
        match self {
            Program::Xdp(p) => Some(p.attached),
            Program::Tc(p) => Some(p.attached),
            _ => None,
        }
    }

    pub fn set_attached(&mut self)
        ensures
            same_shape(*old(self), *final(self)),
            final(self).spec_data() == old(self).spec_data(),
            final(self).spec_id() == old(self).spec_id(),
            match *final(self) {
                Program::Xdp(p) => p.attached && p.current_position == old(self)->Xdp_0.current_position && p.if_index == old(self)->Xdp_0.if_index && p.priority
                    == old(self)->Xdp_0.priority && p.iface == old(self)->Xdp_0.iface
                    && p.proceed_on == old(self)->Xdp_0.proceed_on,
                Program::Tc(p) => p.attached && p.current_position == old(self)->Tc_0.current_position && p.if_index == old(self)->Tc_0.if_index && p.priority
                    == old(self)->Tc_0.priority && p.iface == old(self)->Tc_0.iface && p.proceed_on
                    == old(self)->Tc_0.proceed_on && p.direction == old(self)->Tc_0.direction,
                _ => *final(self) == *old(self),
            },
    {
        match self {
            Program::Xdp(p) => p.attached = true,
            Program::Tc(p) => p.attached = true,
            _ => (),
        }
    }

    pub fn set_position(&mut self, pos: Option<usize>)
        ensures
            same_shape(*old(self), *final(self)),
            final(self).spec_data() == old(self).spec_data(),
            final(self).spec_id() == old(self).spec_id(),
            match *final(self) {
                Program::Xdp(p) => p.current_position == pos && p.attached == old(self)->Xdp_0.attached && p.if_index == old(self)->Xdp_0.if_index && p.priority == old(self)->Xdp_0.priority && p.iface == old(self)->Xdp_0.iface && p.proceed_on == old(self)->Xdp_0.proceed_on,
                Program::Tc(p) => p.current_position == pos && p.attached == old(self)->Tc_0.attached && p.if_index == old(self)->Tc_0.if_index && p.priority == old(self)->Tc_0.priority && p.iface == old(self)->Tc_0.iface && p.proceed_on == old(self)->Tc_0.proceed_on && p.direction == old(self)->Tc_0.direction,
                _ => *final(self) == *old(self),
            },
    {
        match self {
            Program::Xdp(p) => p.current_position = pos,
            Program::Tc(p) => p.current_position = pos,
            _ => (),
        }
    }

    pub fn kernel_info(&self) -> (r: Option<&KernelProgramInfo>)
        ensures
            r matches Some(k) ==> self.spec_kernel_info() == Some(k@),
            r is None ==> self.spec_kernel_info() is None,
    {
        match self {
            Program::Xdp(p) => p.data.kernel_info.as_ref(),
            Program::Tc(p) => p.data.kernel_info.as_ref(),
            Program::Tracepoint(p) => p.data.kernel_info.as_ref(),
            Program::Kprobe(p) => p.data.kernel_info.as_ref(),
            Program::Uprobe(p) => p.data.kernel_info.as_ref(),
            // kernel info is always present for observed programs
            Program::Unsupported(p) => Some(p),
        }
    }

    /// The kernel info of this program, if populated.
    pub open spec fn spec_kernel_info(&self) -> Option<KernelProgramInfoV> {
        match self {
            Program::Unsupported(i) => Some(i@),
            _ => match self.spec_data() {
                Some(d) => d.kernel_info,
                None => None,
            },
        }
    }

    pub fn if_index(&self) -> (r: Option<u32>)
        ensures
            r == match self.spec_mp_state() {
                Some(s) => s.1,
                None => None::<u32>,
            },
    {
        match self {
            Program::Xdp(p) => p.if_index,
            Program::Tc(p) => p.if_index,
            _ => None,
        }
    }

    pub fn set_if_index(&mut self, if_index: u32)
        ensures
            same_shape(*old(self), *final(self)),
            final(self).spec_data() == old(self).spec_data(),
            final(self).spec_id() == old(self).spec_id(),
            match *final(self) {
                Program::Xdp(p) => p.if_index == Some(if_index) && p.attached == old(self)->Xdp_0.attached && p.current_position == old(self)->Xdp_0.current_position
                    && p.priority == old(self)->Xdp_0.priority && p.iface == old(self)->Xdp_0.iface
                    && p.proceed_on == old(self)->Xdp_0.proceed_on,
                Program::Tc(p) => p.if_index == Some(if_index) && p.attached == old(self)->Tc_0.attached && p.current_position == old(self)->Tc_0.current_position
                    && p.priority == old(self)->Tc_0.priority && p.iface == old(self)->Tc_0.iface
                    && p.proceed_on == old(self)->Tc_0.proceed_on && p.direction == old(self)->Tc_0.direction,
                _ => *final(self) == *old(self),
            },
    {
        match self {
            Program::Xdp(p) => p.if_index = Some(if_index),
            Program::Tc(p) => p.if_index = Some(if_index),
            _ => (),
        }
    }


    /// The interface name of a multi-program attach request.
    pub open spec fn spec_iface(&self) -> Option<Seq<char>> {
        match self {
            Program::Xdp(p) => Some(p.iface@),
            Program::Tc(p) => Some(p.iface@),
            _ => None,
        }
    }

    /// The proceed-on set of an XDP program.
    pub open spec fn spec_xdp_proceed_on(&self) -> Option<Seq<crate::proceed_on::XdpAction>> {
        match self {
            Program::Xdp(p) => Some(p.proceed_on@),
            _ => None,
        }
    }

    /// The proceed-on set of a TC program.
    pub open spec fn spec_tc_proceed_on(&self) -> Option<Seq<crate::proceed_on::TcAction>> {
        match self {
            Program::Tc(p) => Some(p.proceed_on@),
            _ => None,
        }
    }

    /// The traffic direction of a TC program.
    pub open spec fn spec_direction(&self) -> Option<Direction> {
        match self {
            Program::Tc(p) => Some(p.direction),
            _ => None,
        }
    }

    pub fn if_name(&self) -> (r: Option<&String>)
        ensures
            match self {
                Program::Xdp(p) => r matches Some(n) && n@ == p.iface@,
                Program::Tc(p) => r matches Some(n) && n@ == p.iface@,
                _ => r is None,
            },
    {
        match self {
            Program::Xdp(p) => Some(&p.iface),
            Program::Tc(p) => Some(&p.iface),
            _ => None,
        }
    }

    /// The dispatcher ordering priority; only XDP and TC have one.
    pub open spec fn spec_priority(&self) -> Option<i32> {
        match self {
            Program::Xdp(p) => Some(p.priority),
            Program::Tc(p) => Some(p.priority),
            _ => None,
        }
    }

    pub fn priority(&self) -> (r: Option<i32>)
        ensures
            r == self.spec_priority(),
    {
        match self {
            Program::Xdp(p) => Some(p.priority),
            Program::Tc(p) => Some(p.priority),
            _ => None,
        }
    }

    pub fn location(&self) -> (r: Option<&Location>)
        ensures
            r matches Some(l) ==> self.spec_data() matches Some(d) && d.location == l@,
            r is None <==> self matches Program::Unsupported(_),
    {
        match self {
            Program::Xdp(p) => Some(&p.data.location),
            Program::Tc(p) => Some(&p.data.location),
            Program::Tracepoint(p) => Some(&p.data.location),
            Program::Kprobe(p) => Some(&p.data.location),
            Program::Uprobe(p) => Some(&p.data.location),
            Program::Unsupported(_) => None,
        }
    }

    pub fn direction(&self) -> (r: Option<Direction>)
        ensures
            match self {
                Program::Tc(p) => r == Some(p.direction),
                _ => r is None,
            },
    {
        match self {
            Program::Tc(p) => Some(p.direction),
            _ => None,
        }
    }
}

/// Whether the keys of a flattened map are pairwise distinct, as the
/// wire's string maps guarantee.
pub open spec fn map_keys_unique<V>(m: Seq<(Seq<char>, V)>) -> bool {
    forall|i: int, j: int|
        #![trigger m[i].0, m[j].0]
        0 <= i < j < m.len() ==> m[i].0 != m[j].0
}

/// Whether two programs are the same variant.
pub open spec fn same_shape(a: Program, b: Program) -> bool {
    match (a, b) {
        (Program::Xdp(_), Program::Xdp(_)) => true,
        (Program::Tc(_), Program::Tc(_)) => true,
        (Program::Tracepoint(_), Program::Tracepoint(_)) => true,
        (Program::Kprobe(_), Program::Kprobe(_)) => true,
        (Program::Uprobe(_), Program::Uprobe(_)) => true,
        (Program::Unsupported(_), Program::Unsupported(_)) => true,
        _ => false,
    }
}

} // verus!
