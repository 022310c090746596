use andy::error::ErrorKind;
use andy::jpeg::encode_jpeg;
use andy::packages::{allocate_from_prefix, parse_package_list, resolve_package};
use andy::registry::{Admission, CreateStep, ServerState};
use andy::types::CreateScreenRequest;

fn request(name: &str, package: &str) -> CreateScreenRequest {
    CreateScreenRequest {
        name: name.to_string(),
        width: 1080,
        height: 1920,
        dpi: 240,
        timeout_secs: 300,
        package: package.to_string(),
    }
}

fn strings(items: &[&str]) -> Vec<String> {
    items.iter().map(|s| s.to_string()).collect()
}

fn enter(state: &mut ServerState<u32>, req: &CreateScreenRequest, handle: u32, installed: &[&str], now: u64) {
    match state.admit_screen(req, handle, handle as i32 + 100, &strings(installed), now) {
        Admission::Created(_) => {}
        Admission::Existing(..) => panic!("screen {} exists already", req.name),
        Admission::Rejected(e, _) => panic!("screen {} rejected: {}", req.name, e.message),
    }
}

#[test]
fn new_registry_is_empty() {
    let state: ServerState<u32> = ServerState::new();
    assert_eq!(state.len(), 0);
    assert!(state.list_screens().is_empty());
}

#[test]
fn unknown_screen_is_to_be_provisioned() {
    let mut state: ServerState<u32> = ServerState::new();
    assert!(matches!(state.create_screen(&request("s1", "com.app"), 5), CreateStep::Provision));
    assert_eq!(state.len(), 0);
}

#[test]
fn admitted_screen_is_told_about_as_requested() {
    let mut state: ServerState<u32> = ServerState::new();
    let req = request("s1", "com.app");
    match state.admit_screen(&req, 7, 42, &strings(&["com.app", "com.other"]), 1000) {
        Admission::Created(info) => {
            assert_eq!(info.name, "s1");
            assert_eq!(info.display_id, 42);
            assert_eq!(info.width, 1080);
            assert_eq!(info.height, 1920);
            assert_eq!(info.dpi, 240);
            assert_eq!(info.assigned_package, "com.app");
        }
        _ => panic!("the screen was not created"),
    }
    let screen = state.get_screen("s1").expect("the screen exists");
    assert_eq!(screen.instance, 7);
    assert_eq!(screen.last_heartbeat, 1000);
    assert_eq!(screen.timeout_secs, 300);
    assert_eq!(screen.last_interaction, None);
    assert_eq!(screen.last_jpeg, None);
    let info = state.screen_info("s1", 1001).expect("the screen exists");
    assert_eq!(info.assigned_package, "com.app");
}

#[test]
fn second_create_returns_the_first_size_and_package() {
    let mut state: ServerState<u32> = ServerState::new();
    enter(&mut state, &request("s1", "com.x.a"), 1, &["com.x.a", "com.x.b"], 10);
    let again = CreateScreenRequest {
        name: "s1".to_string(),
        width: 10,
        height: 20,
        dpi: 30,
        timeout_secs: 1,
        package: "com.x.b".to_string(),
    };
    match state.create_screen(&again, 500) {
        CreateStep::Existing(info) => {
            assert_eq!(info.name, "s1");
            assert_eq!(info.display_id, 101);
            assert_eq!((info.width, info.height, info.dpi), (1080, 1920, 240));
            assert_eq!(info.assigned_package, "com.x.a");
        }
        CreateStep::Provision => panic!("the screen exists"),
    }
    let screen = state.get_screen("s1").unwrap();
    assert_eq!(screen.last_heartbeat, 500);
    assert_eq!(screen.timeout_secs, 300);
    assert_eq!(state.len(), 1);
}

#[test]
fn admitting_an_existing_name_hands_the_handle_back() {
    let mut state: ServerState<u32> = ServerState::new();
    enter(&mut state, &request("s1", "com.x.a"), 1, &["com.x.a"], 10);
    match state.admit_screen(&request("s1", "com.x.b"), 99, 5, &strings(&["com.x.b"]), 20) {
        Admission::Existing(info, handle) => {
            assert_eq!(handle, 99);
            assert_eq!(info.assigned_package, "com.x.a");
            assert_eq!(info.display_id, 101);
        }
        _ => panic!("the screen exists already"),
    }
    assert_eq!(state.len(), 1);
    assert_eq!(state.get_screen("s1").unwrap().last_heartbeat, 20);
}

#[test]
fn prefix_binds_the_smallest_unbound_package() {
    let installed = ["com.x.c", "com.x.a", "com.x.b"];
    let mut state: ServerState<u32> = ServerState::new();
    enter(&mut state, &request("first", "com.x.a"), 1, &installed, 0);
    match state.admit_screen(&request("second", "com.x"), 2, 2, &strings(&installed), 0) {
        Admission::Created(info) => assert_eq!(info.assigned_package, "com.x.b"),
        _ => panic!("a package is free"),
    }
    match state.admit_screen(&request("third", "com.x"), 3, 3, &strings(&installed), 0) {
        Admission::Created(info) => assert_eq!(info.assigned_package, "com.x.c"),
        _ => panic!("a package is free"),
    }
    match state.admit_screen(&request("fourth", "com.x"), 4, 4, &strings(&installed), 0) {
        Admission::Rejected(e, handle) => {
            assert_eq!(e.kind, ErrorKind::NoFreePackage);
            assert_eq!(e.message, "no free package available with given prefix");
            assert_eq!(e.status(), 500);
            assert_eq!(handle, 4);
        }
        _ => panic!("no package is free"),
    }
    assert_eq!(state.len(), 3);
    assert_eq!(state.assigned(), strings(&["com.x.a", "com.x.b", "com.x.c"]));
}

#[test]
fn installed_package_is_bound_exactly_even_when_bound_already() {
    let installed = ["com.x.a", "com.x.ab"];
    let mut state: ServerState<u32> = ServerState::new();
    enter(&mut state, &request("first", "com.x.a"), 1, &installed, 0);
    match state.admit_screen(&request("second", "com.x.a"), 2, 2, &strings(&installed), 0) {
        Admission::Created(info) => assert_eq!(info.assigned_package, "com.x.a"),
        _ => panic!("an installed package is bound as it is"),
    }
}

#[test]
fn allocate_from_prefix_orders_by_character_codes() {
    let installed = strings(&["com.b", "com.B", "com.a1", "com.a", "org.a"]);
    assert_eq!(allocate_from_prefix("com.", &installed, &vec![]), Some("com.B".to_string()));
    assert_eq!(
        allocate_from_prefix("com.", &installed, &strings(&["com.B"])),
        Some("com.a".to_string())
    );
    assert_eq!(
        allocate_from_prefix("com.", &installed, &strings(&["com.B", "com.a"])),
        Some("com.a1".to_string())
    );
    assert_eq!(allocate_from_prefix("net.", &installed, &vec![]), None);
    assert_eq!(allocate_from_prefix("", &installed, &vec![]), Some("com.B".to_string()));
    assert_eq!(allocate_from_prefix("com.", &vec![], &vec![]), None);
}

#[test]
fn resolve_package_prefers_the_exact_name() {
    let installed = strings(&["com.x", "com.x.a"]);
    assert_eq!(resolve_package("com.x", &installed, &strings(&["com.x"])), Some("com.x".to_string()));
    assert_eq!(resolve_package("com.x.", &installed, &vec![]), Some("com.x.a".to_string()));
    assert_eq!(resolve_package("com.y", &installed, &vec![]), None);
}

#[test]
fn package_listing_is_read_line_by_line() {
    let listing = "package:com.x.a\npackage: com.x.b \r\nnoise\npackage:\n\npackage:com.x.c";
    assert_eq!(parse_package_list(listing), strings(&["com.x.a", "com.x.b", "", "com.x.c"]));
    assert!(parse_package_list("").is_empty());
    assert!(parse_package_list(" package:com.x").is_empty());
}

#[test]
fn destroy_removes_the_screen_and_hands_out_its_handle() {
    let mut state: ServerState<u32> = ServerState::new();
    enter(&mut state, &request("a", "p"), 1, &["p"], 0);
    enter(&mut state, &request("b", "p"), 2, &["p"], 0);
    enter(&mut state, &request("c", "p"), 3, &["p"], 0);
    assert_eq!(state.get_screen("b").unwrap().instance, 2);
    assert_eq!(state.len(), 3);
    assert!(state.destroy_screen("b").is_ok());
    let names: Vec<String> = state.list_screens().into_iter().map(|i| i.name).collect();
    assert_eq!(names, strings(&["a", "c"]));
    let e = state.destroy_screen("b").unwrap_err();
    assert_eq!(e.kind, ErrorKind::NotFound);
    assert_eq!(e.message, "screen b not found");
    assert_eq!(e.status(), 404);
    assert_eq!(state.len(), 2);
}

#[test]
fn unknown_screen_is_not_found_everywhere() {
    let mut state: ServerState<u32> = ServerState::new();
    enter(&mut state, &request("a", "p"), 1, &["p"], 0);
    assert_eq!(state.get_screen("x").err().unwrap().kind, ErrorKind::NotFound);
    assert_eq!(state.screen_info("x", 1).unwrap_err().message, "screen x not found");
    assert_eq!(state.heartbeat("x", 1).unwrap_err().kind, ErrorKind::NotFound);
    assert_eq!(state.stamp_interaction("x", 1).unwrap_err().kind, ErrorKind::NotFound);
    assert_eq!(state.store_frame("x", None, 1).unwrap_err().kind, ErrorKind::NotFound);
    assert_eq!(state.screenshot("x", Some(vec![0; 4]), 1).unwrap_err().kind, ErrorKind::NotFound);
    assert_eq!(state.get_screen("a").unwrap().last_heartbeat, 0);
}

#[test]
fn heartbeat_and_interaction_are_stamped_apart() {
    let mut state: ServerState<u32> = ServerState::new();
    enter(&mut state, &request("a", "p"), 1, &["p"], 0);
    state.heartbeat("a", 50).unwrap();
    assert_eq!(state.get_screen("a").unwrap().last_heartbeat, 50);
    assert_eq!(state.get_screen("a").unwrap().last_interaction, None);
    state.stamp_interaction("a", 70).unwrap();
    assert_eq!(state.get_screen("a").unwrap().last_heartbeat, 50);
    assert_eq!(state.get_screen("a").unwrap().last_interaction, Some(70));
}

#[test]
fn stale_screen_is_offered_once_and_gone_after_one_sweep() {
    let mut state: ServerState<u32> = ServerState::new();
    let mut short = request("short", "p");
    short.timeout_secs = 1;
    enter(&mut state, &short, 11, &["p"], 0);
    enter(&mut state, &request("long", "p"), 12, &["p"], 0);
    assert!(state.stale_screens(1000).is_empty());
    assert_eq!(state.reap_dead_screens(1000), 0);
    assert_eq!(state.len(), 2);
    let released: Vec<(String, u32, i32, u64)> = state
        .stale_screens(1001)
        .iter()
        .map(|s| (s.name.clone(), s.instance, s.display_id, s.timeout_secs))
        .collect();
    assert_eq!(released, vec![("short".to_string(), 11, 111, 1)]);
    assert_eq!(state.len(), 2);
    assert!(state.get_screen("short").is_ok());
    assert_eq!(state.reap_dead_screens(1001), 1);
    let names: Vec<String> = state.list_screens().into_iter().map(|i| i.name).collect();
    assert_eq!(names, strings(&["long"]));
    let e = state.screen_info("short", 1001).unwrap_err();
    assert_eq!((e.kind, e.status()), (ErrorKind::NotFound, 404));
    assert!(state.stale_screens(1001).is_empty());
    assert_eq!(state.reap_dead_screens(1001), 0);
}

#[test]
fn heartbeat_saves_a_screen_from_the_sweep() {
    let mut state: ServerState<u32> = ServerState::new();
    let mut short = request("short", "p");
    short.timeout_secs = 1;
    enter(&mut state, &short, 1, &["p"], 0);
    state.heartbeat("short", 900).unwrap();
    assert_eq!(state.reap_dead_screens(1900), 0);
    assert_eq!(state.stale_screens(1901).len(), 1);
    assert_eq!(state.reap_dead_screens(1901), 1);
}

#[test]
fn sweep_removes_every_stale_screen_in_order() {
    let mut state: ServerState<u32> = ServerState::new();
    for (i, timeout) in [1u64, 5, 1, 0, 5].iter().enumerate() {
        let mut req = request(&format!("s{i}"), "p");
        req.timeout_secs = *timeout;
        enter(&mut state, &req, i as u32, &["p"], 0);
    }
    let offered: Vec<u32> = state.stale_screens(2000).iter().map(|s| s.instance).collect();
    assert_eq!(offered, vec![0, 2, 3]);
    assert_eq!(state.reap_dead_screens(2000), 3);
    let names: Vec<String> = state.list_screens().into_iter().map(|i| i.name).collect();
    assert_eq!(names, strings(&["s1", "s4"]));
}

#[test]
fn largest_timeout_never_goes_stale() {
    let mut state: ServerState<u32> = ServerState::new();
    let mut req = request("forever", "p");
    req.timeout_secs = u64::MAX;
    enter(&mut state, &req, 1, &["p"], 0);
    assert!(state.stale_screens(u64::MAX).is_empty());
    assert_eq!(state.reap_dead_screens(u64::MAX), 0);
}

#[test]
fn clock_that_ran_backwards_makes_nothing_stale() {
    let mut state: ServerState<u32> = ServerState::new();
    let mut req = request("a", "p");
    req.timeout_secs = 0;
    enter(&mut state, &req, 1, &["p"], 5000);
    assert_eq!(state.reap_dead_screens(10), 0);
    assert_eq!(state.reap_dead_screens(5000), 0);
    assert_eq!(state.reap_dead_screens(5001), 1);
}

#[test]
fn frame_is_kept_and_falls_back_to_the_last_one() {
    let mut state: ServerState<u32> = ServerState::new();
    enter(&mut state, &request("a", "p"), 1, &["p"], 0);
    let e = state.store_frame("a", None, 5).unwrap_err();
    assert_eq!(e.kind, ErrorKind::NoFrameAvailable);
    assert_eq!(e.message, "no frame available");
    assert_eq!(state.get_screen("a").unwrap().last_heartbeat, 5);
    assert_eq!(state.store_frame("a", Some(vec![1, 2, 3]), 6).unwrap(), vec![1, 2, 3]);
    assert_eq!(state.store_frame("a", None, 7).unwrap(), vec![1, 2, 3]);
    assert_eq!(state.store_frame("a", Some(vec![9]), 8).unwrap(), vec![9]);
    assert_eq!(state.store_frame("a", None, 9).unwrap(), vec![9]);
    assert_eq!(state.get_screen("a").unwrap().last_heartbeat, 9);
}

#[test]
fn screenshot_encodes_the_captured_frame() {
    let mut state: ServerState<u32> = ServerState::new();
    let mut req = request("a", "p");
    req.width = 8;
    req.height = 8;
    enter(&mut state, &req, 1, &["p"], 0);
    let rgba: Vec<u8> = (0..8 * 8 * 4).map(|i| (i % 251) as u8).collect();
    let jpeg = state.screenshot("a", Some(rgba.clone()), 10).unwrap();
    assert_ne!(jpeg, rgba);
    assert_eq!(&jpeg[..2], &[0xFF, 0xD8]);
    assert_eq!(&jpeg[jpeg.len() - 2..], &[0xFF, 0xD9]);
    assert_eq!(jpeg, encode_jpeg(&rgba, 8, 8).unwrap());
    assert_eq!(state.get_screen("a").unwrap().last_jpeg, Some(jpeg.clone()));
    assert_eq!(state.get_screen("a").unwrap().last_heartbeat, 10);
    assert_eq!(state.screenshot("a", None, 11).unwrap(), jpeg);
}

#[test]
fn screenshot_with_too_few_bytes_fails_and_changes_nothing() {
    let mut state: ServerState<u32> = ServerState::new();
    let mut req = request("a", "p");
    req.width = 8;
    req.height = 8;
    enter(&mut state, &req, 1, &["p"], 0);
    let e = state.screenshot("a", Some(vec![0; 8 * 8 * 4 - 1]), 10).unwrap_err();
    assert_eq!(e.kind, ErrorKind::EncodeFailed);
    assert!(e.message.starts_with("jpeg encode failed: "));
    assert!(e.message.len() > "jpeg encode failed: ".len());
    assert!(e.message.contains("255"));
    assert_eq!(e.status(), 500);
    assert_eq!(state.get_screen("a").unwrap().last_heartbeat, 0);
    assert_eq!(state.get_screen("a").unwrap().last_jpeg, None);
}

#[test]
fn screenshot_without_any_frame_fails() {
    let mut state: ServerState<u32> = ServerState::new();
    enter(&mut state, &request("a", "p"), 1, &["p"], 0);
    assert_eq!(state.screenshot("a", None, 3).unwrap_err().kind, ErrorKind::NoFrameAvailable);
    assert_eq!(state.get_screen("a").unwrap().last_heartbeat, 3);
}

#[test]
fn encode_jpeg_depends_on_the_pixels() {
    let black = vec![0u8; 16 * 16 * 4];
    let white = vec![255u8; 16 * 16 * 4];
    let a = encode_jpeg(&black, 16, 16).unwrap();
    let b = encode_jpeg(&white, 16, 16).unwrap();
    assert_ne!(a, b);
    assert_eq!(a, encode_jpeg(&black, 16, 16).unwrap());
    assert_eq!(&a[..2], &[0xFF, 0xD8]);
}

#[test]
fn encode_jpeg_rejects_empty_and_short_images() {
    assert_eq!(encode_jpeg(&vec![0; 16], 0, 4).unwrap_err().kind, ErrorKind::EncodeFailed);
    assert_eq!(encode_jpeg(&vec![0; 16], 4, 0).unwrap_err().kind, ErrorKind::EncodeFailed);
    assert_eq!(encode_jpeg(&vec![0; 15], 2, 2).unwrap_err().kind, ErrorKind::EncodeFailed);
    assert!(encode_jpeg(&vec![0; 16], 2, 2).is_ok());
    assert!(encode_jpeg(&vec![0; 17], 2, 2).is_ok());
}

#[test]
fn encode_jpeg_takes_the_low_sixteen_bits_of_each_dimension() {
    let rgba = vec![7u8; 2 * 3 * 4];
    let small = encode_jpeg(&rgba, 2, 3).unwrap();
    assert_eq!(encode_jpeg(&rgba, 65536 + 2, 3 + 2 * 65536).unwrap(), small);
    assert_eq!(encode_jpeg(&rgba, 65536, 3).unwrap_err().kind, ErrorKind::EncodeFailed);
}

#[test]
fn encode_jpeg_handles_the_smallest_and_odd_sizes() {
    for (w, h) in [(1u32, 1u32), (1, 7), (7, 1), (3, 5), (17, 9), (65535, 1), (1, 65535)] {
        let rgba = vec![128u8; (w * h * 4) as usize];
        let jpeg = encode_jpeg(&rgba, w, h).unwrap();
        assert_eq!(&jpeg[..2], &[0xFF, 0xD8], "{w}x{h}");
        assert_eq!(&jpeg[jpeg.len() - 2..], &[0xFF, 0xD9], "{w}x{h}");
    }
}

#[test]
fn encode_jpeg_reads_no_further_than_the_image() {
    let mut rgba = vec![10u8; 4 * 4 * 4];
    let exact = encode_jpeg(&rgba, 4, 4).unwrap();
    rgba.extend_from_slice(&[200, 201, 202, 203]);
    assert_eq!(encode_jpeg(&rgba, 4, 4).unwrap(), exact);
}

#[test]
fn screen_with_a_negative_size_takes_its_low_bits() {
    let mut state: ServerState<u32> = ServerState::new();
    let mut req = request("a", "p");
    req.width = -65534;
    req.height = 65536 + 3;
    enter(&mut state, &req, 1, &["p"], 0);
    let rgba = vec![50u8; 2 * 3 * 4];
    let jpeg = state.screenshot("a", Some(rgba.clone()), 1).unwrap();
    assert_eq!(jpeg, encode_jpeg(&rgba, 2, 3).unwrap());
}

#[test]
fn heartbeat_never_goes_back() {
    let mut state: ServerState<u32> = ServerState::new();
    enter(&mut state, &request("a", "p"), 1, &["p"], 100);
    state.heartbeat("a", 500).unwrap();
    state.heartbeat("a", 200).unwrap();
    assert_eq!(state.get_screen("a").unwrap().last_heartbeat, 500);
    assert!(matches!(state.create_screen(&request("a", "q"), 300), CreateStep::Existing(_)));
    assert_eq!(state.get_screen("a").unwrap().last_heartbeat, 500);
    state.screen_info("a", 501).unwrap();
    assert_eq!(state.get_screen("a").unwrap().last_heartbeat, 501);
    state.stamp_interaction("a", 400).unwrap();
    state.stamp_interaction("a", 350).unwrap();
    assert_eq!(state.get_screen("a").unwrap().last_interaction, Some(400));
    assert_eq!(state.get_screen("a").unwrap().instance, 1);
}
