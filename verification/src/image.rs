//! The image store: resolves an image reference to bytecode.
//!
//! The store owns the pull decisions: cache policy, registry-credential
//! resolution, layer selection and archive extraction.  The network pull
//! itself happens outside and hands bytes back; concurrent pulls of one
//! reference coalesce through the pending set.

use std::io::Read;

use base64::Engine;
use vstd::prelude::*;

use crate::errors::ImageError;
use crate::strutil::{split_user_pass, str_contains};
use crate::types::ImagePullPolicy;

verus! {

/// What an image reference parses to: registry, repository and tag.
pub uninterp spec fn parsed_reference(s: Seq<char>) -> Option<(Seq<char>, Seq<char>, Seq<char>)>;

/// Relies on `oci_distribution::Reference`: parsing an image reference
/// depends on the characters alone; `latest` is the default tag.
#[verifier::external_body]
pub fn parse_image_reference(url: &String) -> (r: Option<(String, String, String)>)
    ensures
        r matches Some((reg, rep, tag)) ==> parsed_reference(url@) == Some((reg@, rep@, tag@)),
        r is None <==> parsed_reference(url@) is None,
{
    let parsed: oci_distribution::Reference = match url.parse() {
        Ok(p) => p,
        Err(_) => {
            return None;
        },
    };
    let tag = parsed.tag().unwrap_or("latest").to_string();
    Some((parsed.registry().to_string(), parsed.repository().to_string(), tag))
}

/// What standard base64 decoding yields, when the input is well-formed.
pub uninterp spec fn base64_decoded(s: Seq<char>) -> Option<Seq<u8>>;

/// Relies on `base64::engine::general_purpose::STANDARD`: decoding
/// depends on the characters alone.
#[verifier::external_body]
pub fn base64_decode(s: &String) -> (r: Option<Vec<u8>>)
    ensures
        r matches Some(v) ==> base64_decoded(s@) == Some(v@),
        r is None <==> base64_decoded(s@) is None,
{
    base64::engine::general_purpose::STANDARD.decode(s.as_bytes()).ok()
}

/// What decoding valid UTF-8 bytes yields.
///
/// Relies on `String::from_utf8`; the contract is grounded in vstd's
/// UTF-8 model, so the decoded view is exactly `decode_utf8` of the bytes.
#[verifier::external_body]
pub fn bytes_to_string(b: Vec<u8>) -> (r: Option<String>)
    ensures
        r matches Some(s) ==> vstd::utf8::valid_utf8(b@) && s@ == vstd::utf8::decode_utf8(b@),
        r is Some <==> vstd::utf8::valid_utf8(b@),
{
    String::from_utf8(b).ok()
}

/// What gunzipping a byte stream yields, when it is a valid gzip stream.
pub uninterp spec fn gunzip_of(b: Seq<u8>) -> Option<Seq<u8>>;

/// Relies on `flate2::read::GzDecoder`: decompression depends on the
/// bytes alone.
#[verifier::external_body]
pub fn gunzip(data: &Vec<u8>) -> (r: Option<Vec<u8>>)
    ensures
        r matches Some(v) ==> gunzip_of(data@) == Some(v@),
        r is None <==> gunzip_of(data@) is None,
{
    let mut decoder = flate2::read::GzDecoder::new(data.as_slice());
    let mut out = Vec::new();
    match decoder.read_to_end(&mut out) {
        Ok(_) => Some(out),
        Err(_) => None,
    }
}

/// What unpacking a tar archive yields: each entry's path and contents,
/// in archive order.
pub uninterp spec fn tar_entries_of(b: Seq<u8>) -> Option<Seq<(Seq<char>, Seq<u8>)>>;

/// Relies on `tar::Archive`: the entry list depends on the bytes alone.
#[verifier::external_body]
pub fn untar(data: &Vec<u8>) -> (r: Option<Vec<(String, Vec<u8>)>>)
    ensures
        r matches Some(v) ==> tar_entries_of(data@) == Some(v.deep_view()),
        r is None <==> tar_entries_of(data@) is None,
{
    let mut archive = tar::Archive::new(data.as_slice());
    let mut out: Vec<(String, Vec<u8>)> = Vec::new();
    for entry in archive.entries().ok()? {
        let mut entry = entry.ok()?;
        let path = entry.path().ok()?.to_string_lossy().into_owned();
        let mut bytes = Vec::new();
        entry.read_to_end(&mut bytes).ok()?;
        out.push((path, bytes));
    }
    Some(out)
}

/// The directory extracted bytecode is cached under.
pub fn bytecode_cache_dir() -> (r: String)
    ensures
        r@ == "/var/bpfman/bytecode/"@,
{
    String::from_str("/var/bpfman/bytecode/")
}

/// The image labels that describe packaged bytecode.
#[derive(Clone, Debug, Default)]
pub struct ContainerImageMetadata {
    pub name: String,
    pub section_name: String,
    pub program_type: String,
    pub filename: String,
}

/// An extracted program: where its ELF landed and its image labels.
#[derive(Clone, Debug, Default)]
pub struct ProgramOverrides {
    pub path: String,
    pub image_meta: ContainerImageMetadata,
}

/// Registry credentials, or none.
#[derive(Clone, Debug)]
pub enum RegistryAuth {
    Anonymous,
    Basic(String, String),
}

/// One `auths` entry of a container auth file, already decoded from
/// JSON into plain values.
#[derive(Clone, Debug)]
pub struct ContainerConfig {
    pub auths: Option<Vec<(String, Option<String>)>>,
}

/// Whether some auth key substring-matches the registry.
pub open spec fn some_key_matches(auths: Seq<(Seq<char>, Option<Seq<char>>)>, registry: Seq<char>) -> bool {
    exists|i: int|
        0 <= i < auths.len() && crate::strutil::spec_contains_str(
            (#[trigger] auths[i]).0,
            registry,
        )
}

/// The least auth-map index whose key contains the registry host.
pub open spec fn is_first_match(
    auths: Seq<(Seq<char>, Option<Seq<char>>)>,
    registry: Seq<char>,
    i: int,
) -> bool {
    &&& 0 <= i < auths.len()
    &&& crate::strutil::spec_contains_str(auths[i].0, registry)
    &&& forall|q: int|
        0 <= q < i ==> !crate::strutil::spec_contains_str((#[trigger] auths[q]).0, registry)
}

/// The decoded text of an auth field, where the decode chain is defined.
pub open spec fn decoded_text(a: Option<Seq<char>>) -> Seq<char> {
    vstd::utf8::decode_utf8(base64_decoded(a->Some_0)->Some_0)
}

/// Whether an auth field holds base64 of UTF-8 text containing a colon.
pub open spec fn entry_well_formed(a: Option<Seq<char>>) -> bool {
    &&& a is Some
    &&& base64_decoded(a->Some_0) is Some
    &&& vstd::utf8::valid_utf8(base64_decoded(a->Some_0)->Some_0)
    &&& exists|c: int| 0 <= c < decoded_text(a).len() && decoded_text(a)[c] == ':'
}

/// Whether `u` and `p` split `s` at its first colon.
pub open spec fn credentials_split(s: Seq<char>, u: Seq<char>, p: Seq<char>) -> bool {
    exists|c: int|
        0 <= c < s.len() && s[c] == ':' && (forall|q: int| 0 <= q < c ==> s[q] != ':') && u
            == s.subrange(0, c) && p == s.subrange(c + 1, s.len() as int)
}

/// Searches one auth map for credentials for a registry.
///
/// The first entry whose key contains the registry host decides: its
/// `auth` field base64-decodes to `user:pass` and those credentials are
/// returned, or it is malformed and that is a typed error.  No matching
/// key yields no credentials.
pub fn parse_registry_auth(container_auths: &ContainerConfig, registry: &String) -> (r: Result<
    Option<RegistryAuth>,
    ImageError,
>)
    ensures
        (match container_auths.auths {
            None => true,
            Some(a) => !some_key_matches(a.deep_view(), registry@),
        }) <==> (r matches Ok(c) && c is None),
        r matches Ok(Some(auth)) ==> auth matches RegistryAuth::Basic(_, _),
        match container_auths.auths {
            Some(a) => forall|i: int|
                #![trigger is_first_match(a.deep_view(), registry@, i)]
                is_first_match(a.deep_view(), registry@, i) ==> (if entry_well_formed(
                    a.deep_view()[i].1,
                ) {
                    r matches Ok(Some(RegistryAuth::Basic(u, p))) && credentials_split(
                        decoded_text(a.deep_view()[i].1),
                        u@,
                        p@,
                    )
                } else {
                    r matches Err(ImageError::AuthFileDecodeFailure)
                }),
            None => true,
        },
        r matches Err(e) ==> e matches ImageError::AuthFileDecodeFailure,
{
    let auths = match &container_auths.auths {
        Some(a) => a,
        None => {
            return Ok(None);
        },
    };
    let mut i: usize = 0;
    while i < auths.len()
        invariant
            container_auths.auths matches Some(ax) && ax@ == auths@,
            i <= auths@.len(),
            forall|q: int|
                0 <= q < i ==> !crate::strutil::spec_contains_str(
                    (#[trigger] auths.deep_view()[q]).0,
                    registry@,
                ),
        decreases auths@.len() - i,
    {
        if str_contains(&auths[i].0, registry) {
            proof {
                assert(auths.deep_view()[i as int].0 == auths@[i as int].0@);
                assert(crate::strutil::spec_contains_str(auths.deep_view()[i as int].0, registry@));
                assert(some_key_matches(auths.deep_view(), registry@));
                assert(is_first_match(auths.deep_view(), registry@, i as int));
                assert forall|i0: int|
                    is_first_match(auths.deep_view(), registry@, i0) implies i0 == i as int by {
                    if i0 < i {
                        assert(!crate::strutil::spec_contains_str(
                            auths.deep_view()[i0].0,
                            registry@,
                        ));
                    }
                    if i0 > i {
                        assert(!crate::strutil::spec_contains_str(
                            auths.deep_view()[i as int].0,
                            registry@,
                        ));
                    }
                }
            }
            let entry = match &auths[i].1 {
                Some(e) => e,
                None => {
                    proof {
                        assert(auths.deep_view()[i as int].1 is None);
                    }
                    return Err(ImageError::AuthFileDecodeFailure);
                },
            };
            proof {
                assert(auths.deep_view()[i as int].1 == Some(entry@));
            }
            let decoded = match base64_decode(entry) {
                Some(d) => d,
                None => {
                    return Err(ImageError::AuthFileDecodeFailure);
                },
            };
            let decoded_str = match bytes_to_string(decoded) {
                Some(s) => s,
                None => {
                    return Err(ImageError::AuthFileDecodeFailure);
                },
            };
            proof {
                assert(decoded_str@ == decoded_text(auths.deep_view()[i as int].1));
            }
            match split_user_pass(&decoded_str) {
                Some((user, pass)) => {
                    proof {
                        assert(entry_well_formed(auths.deep_view()[i as int].1));
                        assert(credentials_split(
                            decoded_text(auths.deep_view()[i as int].1),
                            user@,
                            pass@,
                        ));
                    }
                    return Ok(Some(RegistryAuth::Basic(user, pass)));
                },
                None => {
                    proof {
                        assert(!entry_well_formed(auths.deep_view()[i as int].1));
                    }
                    return Err(ImageError::AuthFileDecodeFailure);
                },
            }
        }
        proof {
            assert(auths.deep_view()[i as int].0 == auths@[i as int].0@);
        }
        i += 1;
    }
    proof {
        assert(!some_key_matches(auths.deep_view(), registry@));
        assert forall|i0: int| !is_first_match(auths.deep_view(), registry@, i0) by {
            if 0 <= i0 < auths.deep_view().len() {
                assert(!crate::strutil::spec_contains_str(auths.deep_view()[i0].0, registry@));
            }
        }
    }
    Ok(None)
}

/// Whether a config offers no key matching the registry.
pub open spec fn cfg_no_match(c: Option<ContainerConfig>, registry: Seq<char>) -> bool {
    match c {
        None => true,
        Some(cc) => match cc.auths {
            None => true,
            Some(a) => !some_key_matches(a.deep_view(), registry),
        },
    }
}

/// Resolves credentials for a registry from the runtime-dir auth file,
/// then the docker config: the first file with a matching key decides
/// (its credentials, or its malformed-entry error); no match in either
/// is anonymous access.
pub fn get_registry_auth(
    container_auths: Option<ContainerConfig>,
    docker_auths: Option<ContainerConfig>,
    registry: &String,
) -> (r: Result<RegistryAuth, ImageError>)
    ensures
        cfg_no_match(container_auths, registry@) && cfg_no_match(docker_auths, registry@) ==> (r
            matches Ok(RegistryAuth::Anonymous)),
        match container_auths {
            Some(ca) => match ca.auths {
                Some(a) => forall|i: int|
                    #![trigger is_first_match(a.deep_view(), registry@, i)]
                    is_first_match(a.deep_view(), registry@, i) ==> (if entry_well_formed(
                        a.deep_view()[i].1,
                    ) {
                        r matches Ok(RegistryAuth::Basic(u, p)) && credentials_split(
                            decoded_text(a.deep_view()[i].1),
                            u@,
                            p@,
                        )
                    } else {
                        r matches Err(ImageError::AuthFileDecodeFailure)
                    }),
                None => true,
            },
            None => true,
        },
        cfg_no_match(container_auths, registry@) ==> match docker_auths {
            Some(da) => match da.auths {
                Some(a2) => forall|j: int|
                    #![trigger is_first_match(a2.deep_view(), registry@, j)]
                    is_first_match(a2.deep_view(), registry@, j) ==> (if entry_well_formed(
                        a2.deep_view()[j].1,
                    ) {
                        r matches Ok(RegistryAuth::Basic(u, p)) && credentials_split(
                            decoded_text(a2.deep_view()[j].1),
                            u@,
                            p@,
                        )
                    } else {
                        r matches Err(ImageError::AuthFileDecodeFailure)
                    }),
                None => true,
            },
            None => true,
        },
        r matches Err(e) ==> e matches ImageError::AuthFileDecodeFailure,
{
    if let Some(ca) = container_auths {
        match parse_registry_auth(&ca, registry) {
            Ok(Some(creds)) => {
                match creds {
                    RegistryAuth::Basic(u, p) => {
                        return Ok(RegistryAuth::Basic(u, p));
                    },
                    RegistryAuth::Anonymous => {
                        proof {
                            assert(false);
                        }
                        return Ok(RegistryAuth::Anonymous);
                    },
                }
            },
            Ok(None) => {},
            Err(e) => {
                return Err(e);
            },
        }
    }
    if let Some(da) = docker_auths {
        match parse_registry_auth(&da, registry) {
            Ok(Some(creds)) => {
                match creds {
                    RegistryAuth::Basic(u, p) => {
                        return Ok(RegistryAuth::Basic(u, p));
                    },
                    RegistryAuth::Anonymous => {
                        proof {
                            assert(false);
                        }
                        return Ok(RegistryAuth::Anonymous);
                    },
                }
            },
            Ok(None) => {},
            Err(e) => {
                return Err(e);
            },
        }
    }
    Ok(RegistryAuth::Anonymous)
}

/// What the pull policy decides for one request.
#[derive(Clone, Copy, Debug, PartialEq, Eq, Structural)]
pub enum PullAction {
    UseCached,
    Fetch,
}

/// The cache decision for one pull: `Always` refetches, `IfNotPresent`
/// reuses a cached copy, `Never` demands one.
pub fn pull_policy_decision(policy: ImagePullPolicy, cached: bool) -> (r: Result<
    PullAction,
    ImageError,
>)
    ensures
        policy == ImagePullPolicy::Always ==> r == Ok::<PullAction, ImageError>(PullAction::Fetch),
        policy == ImagePullPolicy::IfNotPresent && cached ==> r == Ok::<PullAction, ImageError>(
            PullAction::UseCached,
        ),
        policy == ImagePullPolicy::IfNotPresent && !cached ==> r == Ok::<PullAction, ImageError>(
            PullAction::Fetch,
        ),
        policy == ImagePullPolicy::Never && cached ==> r == Ok::<PullAction, ImageError>(
            PullAction::UseCached,
        ),
        policy == ImagePullPolicy::Never && !cached ==> r matches Err(ImageError::NotCached),
{
    match policy {
        ImagePullPolicy::Always => Ok(PullAction::Fetch),
        ImagePullPolicy::IfNotPresent => {
            if cached {
                Ok(PullAction::UseCached)
            } else {
                Ok(PullAction::Fetch)
            }
        },
        ImagePullPolicy::Never => {
            if cached {
                Ok(PullAction::UseCached)
            } else {
                Err(ImageError::NotCached)
            }
        },
    }
}

/// The two layer media types that carry packaged bytecode.
pub fn is_bytecode_layer_type(media_type: &String) -> (r: bool)
    ensures
        r == (media_type@ == "application/vnd.oci.image.layer.v1.tar+gzip"@ || media_type@
            == "application/vnd.docker.image.rootfs.diff.tar.gzip"@),
{
    proof {
        reveal_strlit("application/vnd.oci.image.layer.v1.tar+gzip");
        reveal_strlit("application/vnd.docker.image.rootfs.diff.tar.gzip");
        assert("application/vnd.oci.image.layer.v1.tar+gzip"@.len() == 43);
        assert("application/vnd.docker.image.rootfs.diff.tar.gzip"@.len() == 49);
    }
    let oci = String::from_str("application/vnd.oci.image.layer.v1.tar+gzip");
    let docker = String::from_str("application/vnd.docker.image.rootfs.diff.tar.gzip");
    media_type.eq(&oci) || media_type.eq(&docker)
}

/// The first layer carrying bytecode, by media type.
pub fn select_layer(media_types: &Vec<String>) -> (r: Option<usize>)
    ensures
        r matches Some(i) ==> i < media_types@.len() && (media_types@[i as int]@
            == "application/vnd.oci.image.layer.v1.tar+gzip"@ || media_types@[i as int]@
            == "application/vnd.docker.image.rootfs.diff.tar.gzip"@) && (forall|q: int|
            0 <= q < i ==> ((#[trigger] media_types@[q])@
                != "application/vnd.oci.image.layer.v1.tar+gzip"@ && media_types@[q]@
                != "application/vnd.docker.image.rootfs.diff.tar.gzip"@)),
        r is None ==> forall|i: int|
            0 <= i < media_types@.len() ==> ((#[trigger] media_types@[i])@
                != "application/vnd.oci.image.layer.v1.tar+gzip"@ && media_types@[i]@
                != "application/vnd.docker.image.rootfs.diff.tar.gzip"@),
{
    let mut i: usize = 0;
    while i < media_types.len()
        invariant
            i <= media_types@.len(),
            forall|q: int|
                0 <= q < i ==> ((#[trigger] media_types@[q])@
                    != "application/vnd.oci.image.layer.v1.tar+gzip"@ && media_types@[q]@
                    != "application/vnd.docker.image.rootfs.diff.tar.gzip"@),
        decreases media_types@.len() - i,
    {
        if is_bytecode_layer_type(&media_types[i]) {
            return Some(i);
        }
        i += 1;
    }
    None
}

/// Unpacks a fetched layer and pulls out the named ELF: gunzip, untar,
/// find the file the `filename` label names.  Each failing step is the
/// extract error.
pub fn extract_bytecode(layer: &Vec<u8>, filename: &String) -> (r: Result<Vec<u8>, ImageError>)
    ensures
        gunzip_of(layer@) is None ==> r matches Err(ImageError::BytecodeImageExtractFailure),
        gunzip_of(layer@) matches Some(tar) && tar_entries_of(tar) is None ==> r matches Err(
            ImageError::BytecodeImageExtractFailure,
        ),
        r matches Ok(bytes) ==> {
            &&& gunzip_of(layer@) matches Some(tar)
            &&& tar_entries_of(tar) matches Some(entries)
            &&& exists|i: int|
                0 <= i < entries.len() && (#[trigger] entries[i]).0 == filename@ && entries[i].1
                    == bytes@ && (forall|q: int|
                    0 <= q < i ==> (#[trigger] entries[q]).0 != filename@)
        },
        (gunzip_of(layer@) matches Some(tar) && (tar_entries_of(tar) matches Some(entries)
            && exists|i: int| 0 <= i < entries.len() && (#[trigger] entries[i]).0 == filename@))
            ==> r is Ok,
        (gunzip_of(layer@) matches Some(tar) && (tar_entries_of(tar) matches Some(entries)
            && forall|i: int| 0 <= i < entries.len() ==> (#[trigger] entries[i]).0 != filename@))
            ==> r matches Err(ImageError::BytecodeImageExtractFailure),
{
    let tar_bytes = match gunzip(layer) {
        Some(t) => t,
        None => {
            return Err(ImageError::BytecodeImageExtractFailure);
        },
    };
    let entries = match untar(&tar_bytes) {
        Some(e) => e,
        None => {
            return Err(ImageError::BytecodeImageExtractFailure);
        },
    };
    let mut i: usize = 0;
    while i < entries.len()
        invariant
            gunzip_of(layer@) == Some(tar_bytes@),
            tar_entries_of(tar_bytes@) == Some(entries.deep_view()),
            i <= entries@.len(),
            forall|q: int| 0 <= q < i ==> (#[trigger] entries.deep_view()[q]).0 != filename@,
        decreases entries@.len() - i,
    {
        if entries[i].0.eq(filename) {
            proof {
                assert(entries.deep_view()[i as int].0 == filename@);
                assert(entries.deep_view()[i as int].1 == entries@[i as int].1@);
            }
            let mut found = Vec::new();
            let mut k: usize = 0;
            let src = &entries[i].1;
            while k < src.len()
                invariant
                    k <= src@.len(),
                    found@ =~= src@.subrange(0, k as int),
                decreases src@.len() - k,
            {
                found.push(src[k]);
                k += 1;
            }
            proof {
                assert(found@ =~= src@);
                assert(entries.deep_view()[i as int].0 == filename@);
                assert(entries.deep_view()[i as int].1 == found@);
                assert(gunzip_of(layer@)->Some_0 == tar_bytes@);
                assert(tar_entries_of(tar_bytes@)->Some_0 == entries.deep_view());
                assert(tar_entries_of(tar_bytes@)->Some_0[i as int].0 == filename@);
                assert(tar_entries_of(tar_bytes@)->Some_0[i as int].1 == found@);
                assert forall|q: int| 0 <= q < i implies (#[trigger] tar_entries_of(
                    tar_bytes@,
                )->Some_0[q]).0 != filename@ by {
                    assert(entries.deep_view()[q].0 != filename@);
                }
            }
            return Ok(found);
        }
        proof {
            assert(entries.deep_view()[i as int].0 != filename@);
        }
        i += 1;
    }
    proof {
        assert forall|q: int|
            0 <= q < tar_entries_of(tar_bytes@)->Some_0.len() implies (#[trigger] tar_entries_of(
            tar_bytes@,
        )->Some_0[q]).0 != filename@ by {
            assert(entries.deep_view()[q].0 != filename@);
        }
    }
    Err(ImageError::BytecodeImageExtractFailure)
}

/// One cached, already-extracted image.
#[derive(Clone, Debug)]
pub struct CachedImage {
    pub url: String,
    pub path: String,
    pub program_name: String,
}

/// The image store state: the extraction cache and the set of references
/// with a fetch in flight.
#[derive(Clone, Debug)]
pub struct ImageManager {
    pub allow_unsigned: bool,
    pub cache: Vec<CachedImage>,
    pub pending: Vec<String>,
}

/// Whether a reference has a cache entry.
pub open spec fn spec_cached(cache: Seq<CachedImage>, url: Seq<char>) -> bool {
    exists|i: int| 0 <= i < cache.len() && (#[trigger] cache[i]).url@ == url
}

/// Whether a fetch of this reference is in flight.
pub open spec fn spec_pending(pending: Seq<String>, url: Seq<char>) -> bool {
    exists|i: int| 0 <= i < pending.len() && (#[trigger] pending[i])@ == url
}

impl ImageManager {
    pub fn new(allow_unsigned: bool) -> (r: Self)
        ensures
            r.allow_unsigned == allow_unsigned,
            r.cache@.len() == 0,
            r.pending@.len() == 0,
    {
        ImageManager { allow_unsigned, cache: Vec::new(), pending: Vec::new() }
    }

    /// Whether this reference is cached, and at which slot.
    pub fn cached_index(&self, url: &String) -> (r: Option<usize>)
        ensures
            r matches Some(i) ==> i < self.cache@.len() && self.cache@[i as int].url@ == url@,
            r is None <==> !spec_cached(self.cache@, url@),
    {
        let mut i: usize = 0;
        while i < self.cache.len()
            invariant
                i <= self.cache@.len(),
                forall|q: int| 0 <= q < i ==> (#[trigger] self.cache@[q]).url@ != url@,
            decreases self.cache@.len() - i,
        {
            if self.cache[i].url.eq(url) {
                return Some(i);
            }
            i += 1;
        }
        None
    }

    /// Claims the fetch of a reference.  The claim succeeds only for the
    /// first concurrent caller: a fetch already in flight is not repeated,
    /// so concurrent pulls of one reference coalesce to one network fetch.
    pub fn begin_fetch(&mut self, url: &String) -> (r: bool)
        ensures
            r == !spec_pending(old(self).pending@, url@),
            spec_pending(final(self).pending@, url@),
            final(self).cache@ == old(self).cache@,
            final(self).allow_unsigned == old(self).allow_unsigned,
            !r ==> *final(self) == *old(self),
    {
        let mut i: usize = 0;
        while i < self.pending.len()
            invariant
                i <= self.pending@.len(),
                forall|q: int| 0 <= q < i ==> (#[trigger] self.pending@[q])@ != url@,
            decreases self.pending@.len() - i,
        {
            if self.pending[i].eq(url) {
                return false;
            }
            i += 1;
        }
        self.pending.push(url.clone());
        proof {
            assert(self.pending@[self.pending@.len() - 1]@ == url@);
        }
        true
    }

    /// Records a finished fetch: the reference leaves the pending set and
    /// enters the cache.
    pub fn finish_fetch(&mut self, url: String, path: String, program_name: String)
        ensures
            spec_cached(final(self).cache@, url@),
            final(self).allow_unsigned == old(self).allow_unsigned,
            !spec_pending(final(self).pending@, url@),
    {
        let mut remaining: Vec<String> = Vec::new();
        let mut i: usize = 0;
        while i < self.pending.len()
            invariant
                i <= self.pending@.len(),
                forall|q: int| 0 <= q < remaining@.len() ==> (#[trigger] remaining@[q])@ != url@,
            decreases self.pending@.len() - i,
        {
            if !self.pending[i].eq(&url) {
                let entry = self.pending[i].clone();
                remaining.push(entry);
            }
            i += 1;
        }
        self.pending = remaining;
        let mut kept: Vec<CachedImage> = Vec::new();
        let mut k: usize = 0;
        while k < self.cache.len()
            invariant
                k <= self.cache@.len(),
            decreases self.cache@.len() - k,
        {
            if !self.cache[k].url.eq(&url) {
                let entry = self.cache[k].clone();
                kept.push(entry);
            }
            k += 1;
        }
        self.cache = kept;
        self.cache.push(CachedImage { url, path, program_name });
        proof {
            assert(self.cache@[self.cache@.len() - 1].url@ == url@);
        }
    }
}

/// The image store a daemon starts with; unsigned images are allowed
/// unless configuration says otherwise.
pub fn init_image_manager(allow_unsigned: bool) -> (r: ImageManager)
    ensures
        r.allow_unsigned == allow_unsigned,
        r.cache@.len() == 0,
        r.pending@.len() == 0,
{
    ImageManager::new(allow_unsigned)
}


/// Parses an image reference, surfacing the typed error on failure.
pub fn parse_image_url(url: &String) -> (r: Result<(String, String, String), ImageError>)
    ensures
        r matches Ok((reg, rep, tag)) ==> parsed_reference(url@) == Some((reg@, rep@, tag@)),
        r is Err <==> parsed_reference(url@) is None,
        r matches Err(e) ==> (e matches ImageError::InvalidImageUrl(u) && u@ == url@),
{
    match parse_image_reference(url) {
        Some(parts) => Ok(parts),
        None => Err(ImageError::InvalidImageUrl(url.clone())),
    }
}

/// Builds the image metadata from the manifest config's labels; a config
/// missing any of the four labels is a manifest failure.
pub fn labels_to_metadata(
    name: Option<String>,
    section_name: Option<String>,
    program_type: Option<String>,
    filename: Option<String>,
) -> (r: Result<ContainerImageMetadata, ImageError>)
    ensures
        r is Ok <==> (name is Some && section_name is Some && program_type is Some
            && filename is Some),
        r matches Ok(m) ==> {
            &&& m.name@ == name->Some_0@
            &&& m.section_name@ == section_name->Some_0@
            &&& m.program_type@ == program_type->Some_0@
            &&& m.filename@ == filename->Some_0@
        },
        r matches Err(e) ==> e matches ImageError::ImageManifestPullFailure(_),
{
    match (name, section_name, program_type, filename) {
        (Some(name), Some(section_name), Some(program_type), Some(filename)) => Ok(
            ContainerImageMetadata { name, section_name, program_type, filename },
        ),
        _ => Err(
            ImageError::ImageManifestPullFailure(
                String::from_str("image config is missing a bytecode label"),
            ),
        ),
    }
}

/// Picks the layer carrying bytecode; an image without one is a layer
/// pull failure.
pub fn choose_bytecode_layer(media_types: &Vec<String>) -> (r: Result<usize, ImageError>)
    ensures
        r matches Ok(i) ==> i < media_types@.len() && (media_types@[i as int]@
            == "application/vnd.oci.image.layer.v1.tar+gzip"@ || media_types@[i as int]@
            == "application/vnd.docker.image.rootfs.diff.tar.gzip"@) && (forall|q: int|
            0 <= q < i ==> ((#[trigger] media_types@[q])@
                != "application/vnd.oci.image.layer.v1.tar+gzip"@ && media_types@[q]@
                != "application/vnd.docker.image.rootfs.diff.tar.gzip"@)),
        r is Err <==> (forall|i: int|
            0 <= i < media_types@.len() ==> ((#[trigger] media_types@[i])@
                != "application/vnd.oci.image.layer.v1.tar+gzip"@ && media_types@[i]@
                != "application/vnd.docker.image.rootfs.diff.tar.gzip"@)),
        r matches Err(e) ==> e matches ImageError::BytecodeImagePullFailure(_),
{
    match select_layer(media_types) {
        Some(i) => Ok(i),
        None => Err(
            ImageError::BytecodeImagePullFailure(
                String::from_str("image holds no gzipped bytecode layer"),
            ),
        ),
    }
}

} // verus!
