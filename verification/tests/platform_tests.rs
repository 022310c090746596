use andy::error::ErrorKind;
use andy::platform::{
    accessibility_tree, call_failed, check_launch, check_open_url, check_reset, check_stop,
    launch_args, list_installed_packages, list_packages_args, open_url_args,
    provider_init_failed, provider_method, reset_args, resolve_activity_args, resolve_component,
    stop_args, Interaction,
};

#[test]
fn resolver_is_asked_briefly() {
    assert_eq!(resolve_activity_args("com.app"), vec!["package", "resolve-activity", "--brief", "com.app"]);
}

#[test]
fn component_is_the_last_line_with_a_slash() {
    let output = "priority=0 preferredOrder=0 match=0x108000\ncom.app/.MainActivity\n";
    assert_eq!(resolve_component("com.app", output).unwrap(), "com.app/.MainActivity");
    let two = "a/b\n  com.app/.Second  \r\nNo activity";
    assert_eq!(resolve_component("com.app", two).unwrap(), "com.app/.Second");
}

#[test]
fn output_without_a_slash_names_no_activity() {
    for output in ["", "No activity found\n", "\n\n"] {
        let e = resolve_component("com.app", output).unwrap_err();
        assert_eq!(e.kind, ErrorKind::LaunchFailed);
        assert_eq!(e.message, "no activity found for com.app");
    }
}

#[test]
fn launch_starts_the_component_on_the_display_with_a_cleared_task() {
    assert_eq!(
        launch_args(7, "com.app/.MainActivity"),
        vec!["start", "--activity-clear-task", "--display", "7", "-n", "com.app/.MainActivity"]
    );
    assert_eq!(launch_args(-1, "c")[3], "-1");
    assert_eq!(launch_args(i32::MIN, "c")[3], "-2147483648");
    assert_eq!(launch_args(0, "c")[3], "0");
}

#[test]
fn launch_fails_when_the_command_fails() {
    let e = check_launch(false, " out \n", "\terr\n").unwrap_err();
    assert_eq!(e.kind, ErrorKind::LaunchFailed);
    assert_eq!(e.message, "am start failed: out err");
    assert_eq!(check_launch(false, "", "").unwrap_err().message, "am start failed:  ");
}

#[test]
fn launch_fails_when_no_activity_was_started() {
    let stdout = "Starting: Intent\nWarning: Activity not started, intent has been delivered\n";
    let e = check_launch(true, stdout, "").unwrap_err();
    assert_eq!(e.kind, ErrorKind::LaunchFailed);
    assert_eq!(
        e.message,
        "am start did not launch a new task: Starting: Intent\nWarning: Activity not started, intent has been delivered"
    );
}

#[test]
fn launch_succeeds_otherwise() {
    assert!(check_launch(true, "Starting: Intent { cmp=com.app/.MainActivity }\n", "").is_ok());
    assert!(check_launch(true, "", "").is_ok());
    assert!(check_launch(true, "activity not started", "Activity not started").is_ok());
    assert!(check_launch(true, "Activity not starte", "").is_ok());
}

#[test]
fn address_is_opened_in_the_main_entry_point() {
    assert_eq!(
        open_url_args(3, "https://example.org/x?y=1", "com.app"),
        vec![
            "start",
            "--display",
            "3",
            "-a",
            "android.intent.action.VIEW",
            "-d",
            "https://example.org/x?y=1",
            "-n",
            "com.app/.MainActivity"
        ]
    );
    assert!(check_open_url(true, "Activity not started", "x").is_ok());
    let e = check_open_url(false, "o", "e").unwrap_err();
    assert_eq!(e.kind, ErrorKind::LaunchFailed);
    assert_eq!(e.message, "am start failed: o e");
}

#[test]
fn stop_and_reset_name_the_package() {
    assert_eq!(stop_args("com.app"), vec!["force-stop", "com.app"]);
    assert_eq!(reset_args("com.app"), vec!["clear", "com.app"]);
    assert!(check_stop(true, "com.app").is_ok());
    assert!(check_reset(true, "ignored", "com.app").is_ok());
    let e = check_stop(false, "com.app").unwrap_err();
    assert_eq!(e.kind, ErrorKind::CommandFailed);
    assert_eq!(e.message, "am force-stop failed for com.app");
    let e = check_reset(false, " Failed \n", "com.app").unwrap_err();
    assert_eq!(e.kind, ErrorKind::CommandFailed);
    assert_eq!(e.message, "pm clear failed for com.app: Failed");
    assert_eq!(e.status(), 500);
}

#[test]
fn installed_packages_are_listed_with_a_filter() {
    assert_eq!(list_packages_args("com.x"), vec!["list", "packages", "com.x"]);
    assert_eq!(
        list_installed_packages(true, "package:com.x.a\npackage:com.x.b\n").unwrap(),
        vec!["com.x.a", "com.x.b"]
    );
    let e = list_installed_packages(false, "package:com.x.a\n").unwrap_err();
    assert_eq!(e.kind, ErrorKind::CommandFailed);
    assert_eq!(e.message, "pm list packages failed");
}

#[test]
fn empty_dump_is_a_failure() {
    assert_eq!(accessibility_tree(Some("{\"windows\":[]}".to_string())).unwrap(), "{\"windows\":[]}");
    assert_eq!(accessibility_tree(Some(String::new())).unwrap(), "");
    let e = accessibility_tree(None).unwrap_err();
    assert_eq!(e.kind, ErrorKind::EmptyDump);
    assert_eq!(e.message, "dumpDisplayJson returned null");
}

#[test]
fn provider_failures_carry_the_message_of_the_provider() {
    let e = call_failed("injectTap", "java.lang.IllegalStateException: no display");
    assert_eq!(e.kind, ErrorKind::CommandFailed);
    assert_eq!(e.message, "injectTap call failed: java.lang.IllegalStateException: no display");
    let e = provider_init_failed("out of displays");
    assert_eq!(e.kind, ErrorKind::ProviderInitFailed);
    assert_eq!(e.message, "VirtualScreen constructor failed: out of displays");
    assert_eq!(e.status(), 500);
}

#[test]
fn each_interaction_has_its_provider_method() {
    let method = |i| provider_method(i);
    assert_eq!(method(Interaction::Tap), ("injectTap".to_string(), "(FF)V".to_string()));
    assert_eq!(method(Interaction::Swipe), ("injectSwipe".to_string(), "(FFFFJ)V".to_string()));
    assert_eq!(
        method(Interaction::InputText),
        ("injectText".to_string(), "(Ljava/lang/String;)V".to_string())
    );
    assert_eq!(method(Interaction::Key), ("injectKey".to_string(), "(I)V".to_string()));
}
