//! End-to-end checks of the manager: load, positions, unload, filters.

use bpfman::api::{
    AttachInfo, BytecodeLocation, Info, LoadRequest, RequestImage, RequestLocation, TcAttachInfo,
    XdpAttachInfo,
};
use bpfman::api::{convert_to_program_info, list_response, program_from_request};
use bpfman::dispatcher::DispatcherAction;
use bpfman::errors::BpfmanError;
use bpfman::manager::BpfManager;
use bpfman::types::{KernelProgramInfo, Program};

fn kernel_info(id: u32, program_type: u32) -> KernelProgramInfo {
    KernelProgramInfo {
        id,
        name: String::from("xdp_pass"),
        program_type,
        loaded_at: String::from("2024-01-01T00:00:00+0000"),
        tag: String::from("6deef7357e7b4530"),
        gpl_compatible: true,
        map_ids: vec![7, 8],
        btf_id: 99,
        bytes_xlated: 128,
        jited: true,
        bytes_jited: 256,
        bytes_memlock: 4096,
        verified_insns: 42,
    }
}

fn xdp_request(priority: i32, proceed_on: Vec<i32>) -> LoadRequest {
    LoadRequest {
        bytecode: Some(BytecodeLocation {
            location: Some(RequestLocation::Image(RequestImage {
                url: String::from("quay.io/bpfman-bytecode/xdp_pass:latest"),
                image_pull_policy: 0,
                username: Some(String::from("someone")),
                password: Some(String::from("secret")),
            })),
        }),
        attach: Some(AttachInfo {
            info: Some(Info::XdpAttachInfo(XdpAttachInfo {
                priority,
                iface: String::from("eth0"),
                position: 0,
                proceed_on,
            })),
        }),
        name: String::from("xdp_pass"),
        metadata: vec![(String::from("owner"), String::from("tests"))],
        global_data: vec![],
        map_owner_id: None,
    }
}

fn tc_request(priority: i32, direction: &str) -> LoadRequest {
    LoadRequest {
        bytecode: Some(BytecodeLocation {
            location: Some(RequestLocation::File(String::from("/tmp/prog.o"))),
        }),
        attach: Some(AttachInfo {
            info: Some(Info::TcAttachInfo(TcAttachInfo {
                priority,
                iface: String::from("eth0"),
                position: 0,
                direction: String::from(direction),
                proceed_on: vec![3],
            })),
        }),
        name: String::from("tc_prog"),
        metadata: vec![],
        global_data: vec![],
        map_owner_id: None,
    }
}

fn load_xdp(mgr: &mut BpfManager, id: u32, priority: i32) -> Option<DispatcherAction> {
    let mut program = program_from_request(xdp_request(priority, vec![2, 31])).unwrap();
    program.set_if_index(3);
    mgr.add_program(program, kernel_info(id, 6)).unwrap()
}

fn load_tc(mgr: &mut BpfManager, id: u32, priority: i32) -> Option<DispatcherAction> {
    let mut program = program_from_request(tc_request(priority, "egress")).unwrap();
    program.set_if_index(3);
    mgr.add_program(program, kernel_info(id, 3)).unwrap()
}

fn position_of(mgr: &BpfManager, id: u32) -> (Option<usize>, bool) {
    match mgr.get_program(id).unwrap() {
        Program::Xdp(p) => (p.current_position, p.attached),
        Program::Tc(p) => (p.current_position, p.attached),
        _ => panic!("not a multi-program entry"),
    }
}

#[test]
fn test_load_with_valid_id() {
    // a well-formed XDP load request decodes and commits
    let mut mgr = BpfManager::new();
    let act = load_xdp(&mut mgr, 1000, 50);
    assert!(matches!(act, Some(DispatcherAction::Rebuild { size: 1 })));
    let program = mgr.get_program(1000).unwrap();
    assert!(matches!(program, Program::Xdp(_)));
}

#[test]
fn load_xdp_attaches_at_position_zero() {
    let mut mgr = BpfManager::new();
    load_xdp(&mut mgr, 1000, 50);
    assert_eq!(position_of(&mgr, 1000), (Some(0), true));
    let rows = list_response(mgr.list_programs(), None, &vec![], false);
    assert_eq!(rows.len(), 1);
    let kernel = rows[0].kernel_info.as_ref().unwrap();
    assert_eq!(kernel.id, 1000);
}

#[test]
fn second_program_with_lower_priority_takes_position_zero() {
    let mut mgr = BpfManager::new();
    load_xdp(&mut mgr, 1000, 50);
    let act = load_xdp(&mut mgr, 1001, 10);
    // the list outgrew capacity class 1: rebuild at class 2
    assert!(matches!(act, Some(DispatcherAction::Rebuild { size: 2 })));
    assert_eq!(position_of(&mgr, 1001), (Some(0), true));
    assert_eq!(position_of(&mgr, 1000), (Some(1), true));
}

#[test]
fn unload_shifts_remaining_positions_down() {
    let mut mgr = BpfManager::new();
    load_xdp(&mut mgr, 1000, 50);
    load_xdp(&mut mgr, 1001, 10);
    let act = mgr.remove_program(1001).unwrap();
    // the smaller class suffices again
    assert!(matches!(act, Some(DispatcherAction::Rebuild { size: 1 })));
    assert_eq!(position_of(&mgr, 1000), (Some(0), true));
    assert!(matches!(
        mgr.get_program(1001),
        Err(BpfmanError::NotFound)
    ));
}

#[test]
fn tc_same_priority_orders_by_kernel_id() {
    let mut mgr = BpfManager::new();
    load_tc(&mut mgr, 300, 5);
    load_tc(&mut mgr, 299, 5);
    // the id breaks the priority tie: the lower id comes first
    assert_eq!(position_of(&mgr, 299), (Some(0), true));
    assert_eq!(position_of(&mgr, 300), (Some(1), true));
}

#[test]
fn xdp_and_tc_use_separate_dispatchers() {
    let mut mgr = BpfManager::new();
    load_xdp(&mut mgr, 1, 50);
    load_tc(&mut mgr, 2, 50);
    assert_eq!(position_of(&mgr, 1), (Some(0), true));
    assert_eq!(position_of(&mgr, 2), (Some(0), true));
}

#[test]
fn seventeenth_program_hits_capacity_limit() {
    let mut mgr = BpfManager::new();
    for k in 0..16u32 {
        load_xdp(&mut mgr, 2000 + k, 50);
    }
    let mut program = program_from_request(xdp_request(50, vec![2, 31])).unwrap();
    program.set_if_index(3);
    let res = mgr.add_program(program, kernel_info(2100, 6));
    assert!(matches!(res, Err(BpfmanError::NoCapacity)));
    // the failed load is not observable
    assert!(mgr.get_program(2100).is_err());
}

#[test]
fn growth_across_class_boundaries_never_detaches() {
    let mut mgr = BpfManager::new();
    for k in 0..9u32 {
        let act = load_xdp(&mut mgr, 3000 + k, 50);
        // boundary crossings (1->2, 2->4, 4->8, 8->16) are atomic rebuilds
        match k {
            0 => assert!(matches!(act, Some(DispatcherAction::Rebuild { size: 1 }))),
            1 => assert!(matches!(act, Some(DispatcherAction::Rebuild { size: 2 }))),
            2 => assert!(matches!(act, Some(DispatcherAction::Rebuild { size: 4 }))),
            4 => assert!(matches!(act, Some(DispatcherAction::Rebuild { size: 8 }))),
            8 => assert!(matches!(act, Some(DispatcherAction::Rebuild { size: 16 }))),
            _ => assert!(matches!(act, Some(DispatcherAction::PatchFrom { .. }))),
        }
        assert!(!matches!(act, Some(DispatcherAction::Destroy)));
    }
}

#[test]
fn rebuild_in_any_order_restores_original_positions() {
    // a daemon restart reconstructs the same slot assignment
    let mut first = BpfManager::new();
    load_xdp(&mut first, 10, 50);
    load_xdp(&mut first, 11, 10);
    let mut rebuilt = BpfManager::new();
    load_xdp(&mut rebuilt, 11, 10);
    load_xdp(&mut rebuilt, 10, 50);
    for id in [10u32, 11u32] {
        assert_eq!(position_of(&first, id), position_of(&rebuilt, id));
    }
}

#[test]
fn map_owner_must_be_loaded() {
    let mut mgr = BpfManager::new();
    let mut request = xdp_request(50, vec![2, 31]);
    request.map_owner_id = Some(999);
    let mut program = program_from_request(request).unwrap();
    program.set_if_index(3);
    let res = mgr.add_program(program, kernel_info(1, 6));
    assert!(matches!(res, Err(BpfmanError::MapOwnerNotFound(999))));
}

#[test]
fn owner_with_borrowers_cannot_be_unloaded() {
    let mut mgr = BpfManager::new();
    load_xdp(&mut mgr, 1, 50);
    let mut request = xdp_request(40, vec![2, 31]);
    request.map_owner_id = Some(1);
    let mut borrower = program_from_request(request).unwrap();
    borrower.set_if_index(3);
    mgr.add_program(borrower, kernel_info(2, 6)).unwrap();
    assert!(matches!(
        mgr.remove_program(1),
        Err(BpfmanError::MapOwnerInUse(1))
    ));
    // the borrower leaves first, then the owner may
    mgr.remove_program(2).unwrap();
    mgr.remove_program(1).unwrap();
}

#[test]
fn unload_unknown_id_is_not_found() {
    let mut mgr = BpfManager::new();
    assert!(matches!(mgr.remove_program(77), Err(BpfmanError::NotFound)));
}

#[test]
fn responses_never_carry_credentials() {
    let mut mgr = BpfManager::new();
    load_xdp(&mut mgr, 1000, 50);
    let info = convert_to_program_info(mgr.get_program(1000).unwrap()).unwrap();
    match info.bytecode.unwrap().location.unwrap() {
        RequestLocation::Image(im) => {
            assert_eq!(im.username.as_deref(), Some(""));
            assert_eq!(im.password.as_deref(), Some(""));
        }
        RequestLocation::File(_) => panic!("expected an image location"),
    }
}

#[test]
fn list_filters_by_type_and_metadata() {
    let mut mgr = BpfManager::new();
    load_xdp(&mut mgr, 1, 50);
    load_tc(&mut mgr, 2, 50);
    let all = list_response(mgr.list_programs(), None, &vec![], false);
    assert_eq!(all.len(), 2);
    let xdp_only = list_response(mgr.list_programs(), Some(6), &vec![], false);
    assert_eq!(xdp_only.len(), 1);
    let tagged = vec![(String::from("owner"), String::from("tests"))];
    let by_meta = list_response(mgr.list_programs(), None, &tagged, false);
    assert_eq!(by_meta.len(), 1);
    let missing = vec![(String::from("owner"), String::from("nobody"))];
    assert_eq!(list_response(mgr.list_programs(), None, &missing, false).len(), 0);
}

#[test]
fn malformed_requests_are_rejected() {
    let mut request = xdp_request(50, vec![2, 31]);
    request.attach = None;
    assert!(matches!(
        program_from_request(request),
        Err(BpfmanError::InvalidArgument(_))
    ));
    let mut request = xdp_request(50, vec![2, 31]);
    request.bytecode = None;
    assert!(matches!(
        program_from_request(request),
        Err(BpfmanError::InvalidArgument(_))
    ));
    // duplicate proceed-on value
    assert!(program_from_request(xdp_request(50, vec![2, 2])).is_err());
    // unknown proceed-on value
    assert!(program_from_request(xdp_request(50, vec![9])).is_err());
    // unknown direction
    assert!(program_from_request(tc_request(5, "sideways")).is_err());
}

#[test]
fn foreign_kernel_programs_are_observed_as_unsupported() {
    let mut mgr = BpfManager::new();
    load_xdp(&mut mgr, 1, 50);
    // reconcile against a kernel holding our program plus a foreign one
    mgr.observe_kernel_program(kernel_info(1, 6));
    mgr.observe_kernel_program(kernel_info(500, 2));
    assert!(matches!(mgr.get_program(1).unwrap(), Program::Xdp(_)));
    assert!(matches!(
        mgr.get_program(500).unwrap(),
        Program::Unsupported(_)
    ));
    // observed programs are inventory only: they cannot be unloaded
    assert!(matches!(
        mgr.remove_program(500),
        Err(BpfmanError::InvalidArgument(_))
    ));
}

#[test]
fn get_reports_the_loaded_attach_parameters() {
    let mut mgr = BpfManager::new();
    load_xdp(&mut mgr, 1000, 50);
    let info = convert_to_program_info(mgr.get_program(1000).unwrap()).unwrap();
    match info.attach.unwrap().info.unwrap() {
        Info::XdpAttachInfo(xa) => {
            assert_eq!(xa.priority, 50);
            assert_eq!(xa.iface, "eth0");
            assert_eq!(xa.position, 0);
            assert_eq!(xa.proceed_on, vec![2, 31]);
        }
        _ => panic!("expected XDP attach parameters"),
    }
    assert_eq!(info.map_pin_path, "/run/bpfman/fs/maps/1000");
    assert_eq!(info.map_used_by, vec![1000]);
}

#[test]
fn borrower_joins_its_owner_user_list() {
    let mut mgr = BpfManager::new();
    load_xdp(&mut mgr, 1, 50);
    let mut request = xdp_request(40, vec![2, 31]);
    request.map_owner_id = Some(1);
    let mut borrower = program_from_request(request).unwrap();
    borrower.set_if_index(3);
    mgr.add_program(borrower, kernel_info(2, 6)).unwrap();
    let owner_entry = mgr.find_map_index(1).unwrap();
    assert_eq!(mgr.maps[owner_entry].1.used_by, vec![1, 2]);
    // unloading the borrower releases its use of the directory
    mgr.remove_program(2).unwrap();
    let owner_entry = mgr.find_map_index(1).unwrap();
    assert_eq!(mgr.maps[owner_entry].1.used_by, vec![1]);
}
