//! Checks of the catalog encoding and the image store against the real
//! compression, archive, base64 and reference-parsing crates.

use std::io::Write;

use base64::Engine;

use bpfman::bytes_to_u32;
use bpfman::catalog::{flatten_kernel_info, flatten_program_data, flatten_xdp, reconstruct_kernel_info, CatValue};
use bpfman::encoding::u32_to_bytes;
use bpfman::errors::ImageError;
use bpfman::image::{
    choose_bytecode_layer, extract_bytecode, get_registry_auth, init_image_manager,
    labels_to_metadata, parse_image_reference, parse_image_url, parse_registry_auth,
    pull_policy_decision, select_layer, ContainerConfig, PullAction, RegistryAuth,
};
use bpfman::proceed_on::XdpProceedOn;
use bpfman::strutil::{str_contains, u32_to_string};
use bpfman::types::{Direction, ImagePullPolicy, KernelProgramInfo};

fn sample_kernel_info() -> KernelProgramInfo {
    KernelProgramInfo {
        id: 4242,
        name: String::from("xdp_pass"),
        program_type: 6,
        loaded_at: String::from("2024-01-01T00:00:00+0000"),
        tag: String::from("6deef7357e7b4530"),
        gpl_compatible: true,
        map_ids: vec![1, 2, 3],
        btf_id: 7,
        bytes_xlated: 100,
        jited: false,
        bytes_jited: 0,
        bytes_memlock: 4096,
        verified_insns: 55,
    }
}

#[test]
fn kernel_info_round_trips_through_the_catalog() {
    let original = sample_kernel_info();
    let entries = flatten_kernel_info(&original, 4242);
    assert_eq!(entries.len(), 13 + 3);
    assert_eq!(entries[0].key, "4242_kernel_info_id");
    assert_eq!(entries[13].key, "4242_kernel_info_map_ids_0");
    let recovered = reconstruct_kernel_info(4242, &entries).unwrap();
    assert_eq!(recovered.id, original.id);
    assert_eq!(recovered.name, original.name);
    assert_eq!(recovered.program_type, original.program_type);
    assert_eq!(recovered.loaded_at, original.loaded_at);
    assert_eq!(recovered.tag, original.tag);
    assert_eq!(recovered.gpl_compatible, original.gpl_compatible);
    assert_eq!(recovered.map_ids, original.map_ids);
    assert_eq!(recovered.btf_id, original.btf_id);
    assert_eq!(recovered.bytes_xlated, original.bytes_xlated);
    assert_eq!(recovered.jited, original.jited);
    assert_eq!(recovered.bytes_jited, original.bytes_jited);
    assert_eq!(recovered.bytes_memlock, original.bytes_memlock);
    assert_eq!(recovered.verified_insns, original.verified_insns);
}

#[test]
fn xdp_attach_parameters_flatten_with_their_keys() {
    let request = bpfman::api::LoadRequest {
        bytecode: Some(bpfman::api::BytecodeLocation {
            location: Some(bpfman::api::RequestLocation::File(String::from("/tmp/p.o"))),
        }),
        attach: Some(bpfman::api::AttachInfo {
            info: Some(bpfman::api::Info::XdpAttachInfo(bpfman::api::XdpAttachInfo {
                priority: 50,
                iface: String::from("eth0"),
                position: 0,
                proceed_on: vec![2, 31],
            })),
        }),
        name: String::from("p"),
        metadata: vec![],
        global_data: vec![],
        map_owner_id: None,
    };
    let program = bpfman::api::program_from_request(request).unwrap();
    let xdp = match program {
        bpfman::types::Program::Xdp(x) => x,
        _ => panic!("expected an XDP program"),
    };
    let entries = flatten_xdp(&xdp, 9);
    assert_eq!(entries[0].key, "9_xdp_priority");
    assert_eq!(entries[1].key, "9_xdp_iface");
    match &entries[1].value {
        CatValue::S(s) => assert_eq!(s, "eth0"),
        CatValue::B(_) => panic!("iface is stored as text"),
    }
    assert_eq!(entries[3].key, "9_xdp_proceed_on_0");
    assert_eq!(entries[4].key, "9_xdp_proceed_on_1");
}

#[test]
fn integer_encodings_are_inverses() {
    for x in [0u32, 1, 255, 256, 0xdead_beef, u32::MAX] {
        let bytes = u32_to_bytes(x);
        assert_eq!(bytes, x.to_be_bytes().to_vec());
        assert_eq!(bytes_to_u32(&bytes), x);
    }
    assert_eq!(u32_to_string(0), "0");
    assert_eq!(u32_to_string(1234), "1234");
    assert_eq!(u32_to_string(u32::MAX), u32::MAX.to_string());
}

#[test]
fn proceed_on_wire_encoding_round_trips() {
    let parsed = XdpProceedOn::from_int32s(&vec![2, 31]).unwrap();
    assert_eq!(parsed.as_action_vec(), vec![2, 31]);
    assert!(XdpProceedOn::from_int32s(&vec![2, 2]).is_err());
    assert!(XdpProceedOn::from_int32s(&vec![5]).is_err());
}

#[test]
fn direction_parses_exactly() {
    assert!(matches!(
        Direction::parse(&String::from("ingress")),
        Ok(Direction::Ingress)
    ));
    assert!(matches!(
        Direction::parse(&String::from("egress")),
        Ok(Direction::Egress)
    ));
    assert!(Direction::parse(&String::from("both")).is_err());
}

#[test]
fn pull_policy_decisions_are_exact() {
    assert_eq!(
        pull_policy_decision(ImagePullPolicy::Always, true).unwrap(),
        PullAction::Fetch
    );
    assert_eq!(
        pull_policy_decision(ImagePullPolicy::IfNotPresent, true).unwrap(),
        PullAction::UseCached
    );
    assert_eq!(
        pull_policy_decision(ImagePullPolicy::IfNotPresent, false).unwrap(),
        PullAction::Fetch
    );
    assert!(matches!(
        pull_policy_decision(ImagePullPolicy::Never, false),
        Err(ImageError::NotCached)
    ));
}

#[test]
fn test_pull_bytecode() {
    // concurrent pulls of one reference coalesce to a single fetch
    let mut store = init_image_manager(true);
    let url = String::from("quay.io/bpfman-bytecode/xdp_pass:latest");
    assert!(store.begin_fetch(&url));
    assert!(!store.begin_fetch(&url));
    store.finish_fetch(
        url.clone(),
        String::from("/var/bpfman/bytecode/xdp_pass.o"),
        String::from("xdp_pass"),
    );
    assert!(store.cached_index(&url).is_some());
    // a second pull under IfNotPresent reuses the cache: no new fetch
    assert_eq!(
        pull_policy_decision(ImagePullPolicy::IfNotPresent, store.cached_index(&url).is_some())
            .unwrap(),
        PullAction::UseCached
    );
}

#[test]
fn image_references_parse_into_parts() {
    let (registry, repository, tag) =
        parse_image_reference(&String::from("quay.io/bpfman-bytecode/xdp_pass:latest")).unwrap();
    assert_eq!(registry, "quay.io");
    assert_eq!(repository, "bpfman-bytecode/xdp_pass");
    assert_eq!(tag, "latest");
}

#[test]
fn registry_auth_resolution() {
    let auth = base64::engine::general_purpose::STANDARD.encode("someone:secret");
    let config = ContainerConfig {
        auths: Some(vec![(String::from("https://quay.io/v2"), Some(auth))]),
    };
    match parse_registry_auth(&config, &String::from("quay.io")).unwrap() {
        Some(RegistryAuth::Basic(user, pass)) => {
            assert_eq!(user, "someone");
            assert_eq!(pass, "secret");
        }
        _ => panic!("expected credentials"),
    }
    // no matching key: anonymous, not an error
    let other = ContainerConfig {
        auths: Some(vec![(String::from("docker.io"), Some(String::from("x")))]),
    };
    assert!(parse_registry_auth(&other, &String::from("quay.io"))
        .unwrap()
        .is_none());
    // a matching but undecodable entry is a typed error
    let broken = ContainerConfig {
        auths: Some(vec![(String::from("quay.io"), Some(String::from("%%%")))]),
    };
    assert!(matches!(
        parse_registry_auth(&broken, &String::from("quay.io")),
        Err(ImageError::AuthFileDecodeFailure)
    ));
    // credentials without a colon are malformed
    let no_colon = base64::engine::general_purpose::STANDARD.encode("someone");
    let bad = ContainerConfig {
        auths: Some(vec![(String::from("quay.io"), Some(no_colon))]),
    };
    assert!(matches!(
        parse_registry_auth(&bad, &String::from("quay.io")),
        Err(ImageError::AuthFileDecodeFailure)
    ));
    assert!(matches!(
        get_registry_auth(None, None, &String::from("quay.io")),
        Ok(RegistryAuth::Anonymous)
    ));
}

#[test]
fn bytecode_extraction_from_a_real_layer() {
    // build a gzipped tar holding the ELF, as a registry layer carries it
    let mut tar_bytes = Vec::new();
    {
        let mut builder = tar::Builder::new(&mut tar_bytes);
        let data = b"\x7fELF-test-bytes";
        let mut header = tar::Header::new_gnu();
        header.set_size(data.len() as u64);
        header.set_cksum();
        builder.append_data(&mut header, "xdp_pass.o", &data[..]).unwrap();
        builder.finish().unwrap();
    }
    let mut encoder = flate2::write::GzEncoder::new(Vec::new(), flate2::Compression::default());
    encoder.write_all(&tar_bytes).unwrap();
    let layer = encoder.finish().unwrap();

    let elf = extract_bytecode(&layer, &String::from("xdp_pass.o")).unwrap();
    assert_eq!(elf, b"\x7fELF-test-bytes");
    assert!(matches!(
        extract_bytecode(&layer, &String::from("missing.o")),
        Err(ImageError::BytecodeImageExtractFailure)
    ));
    assert!(matches!(
        extract_bytecode(&vec![0, 1, 2], &String::from("xdp_pass.o")),
        Err(ImageError::BytecodeImageExtractFailure)
    ));
}

#[test]
fn layer_selection_by_media_type() {
    let types = vec![
        String::from("application/vnd.oci.image.config.v1+json"),
        String::from("application/vnd.oci.image.layer.v1.tar+gzip"),
    ];
    assert_eq!(select_layer(&types), Some(1));
    assert_eq!(select_layer(&vec![String::from("text/plain")]), None);
}

#[test]
fn substring_search_is_exact() {
    assert!(str_contains(
        &String::from("https://quay.io/v2"),
        &String::from("quay.io")
    ));
    assert!(!str_contains(
        &String::from("docker.io"),
        &String::from("quay.io")
    ));
    assert!(str_contains(&String::from("anything"), &String::from("")));
}

#[test]
fn typed_image_errors_are_produced() {
    assert!(matches!(
        parse_image_url(&String::from("quay.io/UPPER/bad:tag")),
        Err(ImageError::InvalidImageUrl(_))
    ));
    assert!(matches!(
        labels_to_metadata(Some(String::from("p")), None, None, None),
        Err(ImageError::ImageManifestPullFailure(_))
    ));
    let meta = labels_to_metadata(
        Some(String::from("xdp_pass")),
        Some(String::from("xdp")),
        Some(String::from("XDP")),
        Some(String::from("xdp_pass.o")),
    )
    .unwrap();
    assert_eq!(meta.filename, "xdp_pass.o");
    assert!(matches!(
        choose_bytecode_layer(&vec![String::from("text/plain")]),
        Err(ImageError::BytecodeImagePullFailure(_))
    ));
    assert_eq!(
        choose_bytecode_layer(&vec![
            String::from("application/vnd.oci.image.config.v1+json"),
            String::from("application/vnd.docker.image.rootfs.diff.tar.gzip"),
        ])
        .unwrap(),
        1
    );
}

#[test]
fn program_data_flattens_with_its_keys() {
    let request = bpfman::api::LoadRequest {
        bytecode: Some(bpfman::api::BytecodeLocation {
            location: Some(bpfman::api::RequestLocation::File(String::from("/tmp/p.o"))),
        }),
        attach: Some(bpfman::api::AttachInfo {
            info: Some(bpfman::api::Info::TracepointAttachInfo(
                bpfman::api::TracepointAttachInfo {
                    tracepoint: String::from("sched/sched_switch"),
                },
            )),
        }),
        name: String::from("tracer"),
        metadata: vec![(String::from("team"), String::from("net"))],
        global_data: vec![(String::from("flag"), vec![1u8])],
        map_owner_id: None,
    };
    let program = bpfman::api::program_from_request(request).unwrap();
    let data = match program {
        bpfman::types::Program::Tracepoint(t) => t.data,
        _ => panic!("expected a tracepoint program"),
    };
    let entries = flatten_program_data(&data, 77);
    assert_eq!(entries[0].key, "77_name");
    assert_eq!(entries[1].key, "77_location_filename");
    assert_eq!(entries[2].key, "77_metadata_team");
    assert_eq!(entries[3].key, "77_global_data_flag");
    assert_eq!(entries[4].key, "77_map_owner_id");
    assert_eq!(entries[5].key, "77_map_pin_path");
    assert_eq!(entries[6].key, "77_maps_used_by_count");
    match &entries[2].value {
        CatValue::S(v) => assert_eq!(v, "net"),
        CatValue::B(_) => panic!("metadata is stored as text"),
    }
}
