//! The commands that act on the package of a screen, and what their outcome
//! means.
//!
//! The registry does not run commands. It says which arguments a command
//! takes, and judges what the command printed and how it ended.

use crate::error::{AppError, ErrorKind};
use crate::packages::{listed_packages, parse_package_list, strings_view};
use crate::text::{
    append_chars, append_signed_decimal, append_str, buffers_view, chars_of, contains,
    contains_char, has_infix, lines_of, signed_decimal, split_lines, string_of, trim, trimmed,
};
use vstd::prelude::*;

verus! {

fn push_arg(args: &mut Vec<String>, arg: &str)
    ensures
        strings_view(final(args)@) == strings_view(old(args)@).push(arg@),
{
    let chars = chars_of(arg);
    args.push(string_of(&chars));
    assert(strings_view(args@) =~= strings_view(old(args)@).push(arg@));
}

fn failure(kind: ErrorKind, message: &Vec<char>) -> (e: AppError)
    ensures
        e.kind == kind,
        e.message@ == message@,
{
    AppError { kind, message: string_of(message) }
}

// ---------------------------------------------------------------------------
// Launching the package
// ---------------------------------------------------------------------------

/// The arguments with which `cmd` resolves the main activity of `package`.
pub fn resolve_activity_args(package: &str) -> (args: Vec<String>)
    ensures
        strings_view(args@) == seq!["package"@, "resolve-activity"@, "--brief"@, package@],
{
    let mut args: Vec<String> = Vec::new();
    assert(strings_view(args@) =~= Seq::<Seq<char>>::empty());
    push_arg(&mut args, "package");
    push_arg(&mut args, "resolve-activity");
    push_arg(&mut args, "--brief");
    push_arg(&mut args, package);
    assert(strings_view(args@) =~= seq!["package"@, "resolve-activity"@, "--brief"@, package@]);
    args
}

/// The last of the first `k` lines that holds a slash.
pub open spec fn last_component_upto(lines: Seq<Seq<char>>, k: int) -> Option<Seq<char>>
    decreases k,
{
    if k <= 0 {
        None
    } else if lines[k - 1].contains('/') {
        Some(lines[k - 1])
    } else {
        last_component_upto(lines, k - 1)
    }
}

/// The component that the resolver names: the last line of its output that
/// holds a slash, without white space around it.
pub open spec fn resolved_component(output: Seq<char>) -> Option<Seq<char>> {
    match last_component_upto(lines_of(output), lines_of(output).len() as int) {
        Some(line) => Some(trimmed(line)),
        None => None,
    }
}

/// The component that the resolver names in its output `output` for
/// `package`.
///
/// Fails with `LaunchFailed` where no line of the output holds a slash.
pub fn resolve_component(package: &str, output: &str) -> (r: Result<String, AppError>)
    ensures
        match resolved_component(output@) {
            Some(component) => r is Ok && r->Ok_0@ == component,
            None => r is Err && r->Err_0.kind == ErrorKind::LaunchFailed && r->Err_0.message@
                == "no activity found for "@ + package@,
        },
{
    let text = chars_of(output);
    let lines = split_lines(&text);
    let ghost all = lines_of(output@);
    let mut found: Option<usize> = None;
    let mut i: usize = 0;
    while i < lines.len()
        invariant
            i <= lines.len(),
            all == buffers_view(lines@),
            match found {
                Some(at) => at < i && last_component_upto(all, i as int) == Some(all[at as int]),
                None => last_component_upto(all, i as int) is None,
            },
        decreases lines.len() - i,
    {
        assert(all[i as int] == lines@[i as int]@);
        if contains_char(&lines[i], '/') {
            found = Some(i);
        }
        i += 1;
    }
    match found {
        Some(at) => {
            assert(all[at as int] == lines@[at as int]@);
            let component = trim(&lines[at]);
            Ok(string_of(&component))
        },
        None => {
            let mut message: Vec<char> = Vec::new();
            append_str(&mut message, "no activity found for ");
            append_str(&mut message, package);
            assert(message@ =~= "no activity found for "@ + package@);
            Err(failure(ErrorKind::LaunchFailed, &message))
        },
    }
}

/// The arguments with which `am` starts `component` on the display
/// `display_id`, clearing the task.
pub fn launch_args(display_id: i32, component: &str) -> (args: Vec<String>)
    ensures
        strings_view(args@) == seq![
            "start"@,
            "--activity-clear-task"@,
            "--display"@,
            signed_decimal(display_id as int),
            "-n"@,
            component@,
        ],
{
    let mut args: Vec<String> = Vec::new();
    assert(strings_view(args@) =~= Seq::<Seq<char>>::empty());
    push_arg(&mut args, "start");
    push_arg(&mut args, "--activity-clear-task");
    push_arg(&mut args, "--display");
    let mut display: Vec<char> = Vec::new();
    append_signed_decimal(&mut display, display_id);
    assert(display@ =~= signed_decimal(display_id as int));
    let display = string_of(&display);
    push_arg(&mut args, display.as_str());
    push_arg(&mut args, "-n");
    push_arg(&mut args, component);
    assert(strings_view(args@) =~= seq![
        "start"@,
        "--activity-clear-task"@,
        "--display"@,
        signed_decimal(display_id as int),
        "-n"@,
        component@,
    ]);
    args
}

/// The message for a start command that ended in failure.
pub open spec fn start_failure(stdout: Seq<char>, stderr: Seq<char>) -> Seq<char> {
    "am start failed: "@ + trimmed(stdout) + " "@ + trimmed(stderr)
}

fn start_failed(stdout: &str, stderr: &str) -> (e: AppError)
    ensures
        e.kind == ErrorKind::LaunchFailed,
        e.message@ == start_failure(stdout@, stderr@),
{
    let out = trim(&chars_of(stdout));
    let err = trim(&chars_of(stderr));
    let mut message: Vec<char> = Vec::new();
    append_str(&mut message, "am start failed: ");
    append_chars(&mut message, &out);
    append_str(&mut message, " ");
    append_chars(&mut message, &err);
    assert(message@ =~= start_failure(stdout@, stderr@));
    failure(ErrorKind::LaunchFailed, &message)
}

/// Judges a launch: `success` says whether the start command ended well,
/// `stdout` and `stderr` are what it printed.
///
/// The launch failed, with `LaunchFailed`, where the command ended in
/// failure, and where it ended well but reports that no activity was started.
pub fn check_launch(success: bool, stdout: &str, stderr: &str) -> (r: Result<(), AppError>)
    ensures
        !success ==> r is Err && r->Err_0.kind == ErrorKind::LaunchFailed && r->Err_0.message@
            == start_failure(stdout@, stderr@),
        success && has_infix(stdout@, "Activity not started"@) ==> r is Err && r->Err_0.kind
            == ErrorKind::LaunchFailed && r->Err_0.message@
            == "am start did not launch a new task: "@ + trimmed(stdout@),
        success && !has_infix(stdout@, "Activity not started"@) ==> r is Ok,
{
    if !success {
        return Err(start_failed(stdout, stderr));
    }
    let out = chars_of(stdout);
    let signal = chars_of("Activity not started");
    if contains(&out, &signal) {
        let shown = trim(&out);
        let mut message: Vec<char> = Vec::new();
        append_str(&mut message, "am start did not launch a new task: ");
        append_chars(&mut message, &shown);
        assert(message@ =~= "am start did not launch a new task: "@ + trimmed(stdout@));
        return Err(failure(ErrorKind::LaunchFailed, &message));
    }
    Ok(())
}

// ---------------------------------------------------------------------------
// Opening an address
// ---------------------------------------------------------------------------

/// The arguments with which `am` opens `url` in the main entry point of
/// `package` on the display `display_id`.
pub fn open_url_args(display_id: i32, url: &str, package: &str) -> (args: Vec<String>)
    ensures
        strings_view(args@) == seq![
            "start"@,
            "--display"@,
            signed_decimal(display_id as int),
            "-a"@,
            "android.intent.action.VIEW"@,
            "-d"@,
            url@,
            "-n"@,
            package@ + "/.MainActivity"@,
        ],
{
    let mut args: Vec<String> = Vec::new();
    assert(strings_view(args@) =~= Seq::<Seq<char>>::empty());
    push_arg(&mut args, "start");
    push_arg(&mut args, "--display");
    let mut display: Vec<char> = Vec::new();
    append_signed_decimal(&mut display, display_id);
    assert(display@ =~= signed_decimal(display_id as int));
    let display = string_of(&display);
    push_arg(&mut args, display.as_str());
    push_arg(&mut args, "-a");
    push_arg(&mut args, "android.intent.action.VIEW");
    push_arg(&mut args, "-d");
    push_arg(&mut args, url);
    push_arg(&mut args, "-n");
    let mut entry: Vec<char> = Vec::new();
    append_str(&mut entry, package);
    append_str(&mut entry, "/.MainActivity");
    assert(entry@ =~= package@ + "/.MainActivity"@);
    let entry = string_of(&entry);
    push_arg(&mut args, entry.as_str());
    assert(strings_view(args@) =~= seq![
        "start"@,
        "--display"@,
        signed_decimal(display_id as int),
        "-a"@,
        "android.intent.action.VIEW"@,
        "-d"@,
        url@,
        "-n"@,
        package@ + "/.MainActivity"@,
    ]);
    args
}

/// Judges the opening of an address: it failed, with `LaunchFailed`, exactly
/// where the start command ended in failure.
pub fn check_open_url(success: bool, stdout: &str, stderr: &str) -> (r: Result<(), AppError>)
    ensures
        success ==> r is Ok,
        !success ==> r is Err && r->Err_0.kind == ErrorKind::LaunchFailed && r->Err_0.message@
            == start_failure(stdout@, stderr@),
{
    if success {
        Ok(())
    } else {
        Err(start_failed(stdout, stderr))
    }
}

// ---------------------------------------------------------------------------
// Stopping and resetting the package
// ---------------------------------------------------------------------------

/// The arguments with which `am` stops `package`.
pub fn stop_args(package: &str) -> (args: Vec<String>)
    ensures
        strings_view(args@) == seq!["force-stop"@, package@],
{
    let mut args: Vec<String> = Vec::new();
    assert(strings_view(args@) =~= Seq::<Seq<char>>::empty());
    push_arg(&mut args, "force-stop");
    push_arg(&mut args, package);
    assert(strings_view(args@) =~= seq!["force-stop"@, package@]);
    args
}

/// Judges the stopping of `package`: it failed, with `CommandFailed`, exactly
/// where the command ended in failure.
pub fn check_stop(success: bool, package: &str) -> (r: Result<(), AppError>)
    ensures
        success ==> r is Ok,
        !success ==> r is Err && r->Err_0.kind == ErrorKind::CommandFailed && r->Err_0.message@
            == "am force-stop failed for "@ + package@,
{
    if success {
        Ok(())
    } else {
        let mut message: Vec<char> = Vec::new();
        append_str(&mut message, "am force-stop failed for ");
        append_str(&mut message, package);
        assert(message@ =~= "am force-stop failed for "@ + package@);
        Err(failure(ErrorKind::CommandFailed, &message))
    }
}

/// The arguments with which `pm` clears the data of `package`.
pub fn reset_args(package: &str) -> (args: Vec<String>)
    ensures
        strings_view(args@) == seq!["clear"@, package@],
{
    let mut args: Vec<String> = Vec::new();
    assert(strings_view(args@) =~= Seq::<Seq<char>>::empty());
    push_arg(&mut args, "clear");
    push_arg(&mut args, package);
    assert(strings_view(args@) =~= seq!["clear"@, package@]);
    args
}

/// Judges the clearing of the data of `package`: it failed, with
/// `CommandFailed`, exactly where the command ended in failure.
pub fn check_reset(success: bool, stderr: &str, package: &str) -> (r: Result<(), AppError>)
    ensures
        success ==> r is Ok,
        !success ==> r is Err && r->Err_0.kind == ErrorKind::CommandFailed && r->Err_0.message@
            == "pm clear failed for "@ + package@ + ": "@ + trimmed(stderr@),
{
    if success {
        Ok(())
    } else {
        let err = trim(&chars_of(stderr));
        let mut message: Vec<char> = Vec::new();
        append_str(&mut message, "pm clear failed for ");
        append_str(&mut message, package);
        append_str(&mut message, ": ");
        append_chars(&mut message, &err);
        assert(message@ =~= "pm clear failed for "@ + package@ + ": "@ + trimmed(stderr@));
        Err(failure(ErrorKind::CommandFailed, &message))
    }
}

// ---------------------------------------------------------------------------
// Listing the installed packages
// ---------------------------------------------------------------------------

/// The arguments with which `pm` lists the installed packages whose names
/// hold `filter`.
pub fn list_packages_args(filter: &str) -> (args: Vec<String>)
    ensures
        strings_view(args@) == seq!["list"@, "packages"@, filter@],
{
    let mut args: Vec<String> = Vec::new();
    assert(strings_view(args@) =~= Seq::<Seq<char>>::empty());
    push_arg(&mut args, "list");
    push_arg(&mut args, "packages");
    push_arg(&mut args, filter);
    assert(strings_view(args@) =~= seq!["list"@, "packages"@, filter@]);
    args
}

/// The installed packages that a listing names.
///
/// Fails with `CommandFailed` exactly where the listing command ended in
/// failure.
pub fn list_installed_packages(success: bool, stdout: &str) -> (r: Result<Vec<String>, AppError>)
    ensures
        success ==> r is Ok && strings_view(r->Ok_0@) == listed_packages(stdout@),
        !success ==> r is Err && r->Err_0.kind == ErrorKind::CommandFailed && r->Err_0.message@
            == "pm list packages failed"@,
{
    if success {
        Ok(parse_package_list(stdout))
    } else {
        Err(AppError::new(ErrorKind::CommandFailed, "pm list packages failed"))
    }
}

// ---------------------------------------------------------------------------
// What is done to a screen
// ---------------------------------------------------------------------------

/// Something that is done to a screen through its capability provider.
#[derive(Clone, Copy, Debug, PartialEq, Eq, Structural)]
pub enum Interaction {
    Tap,
    Swipe,
    InputText,
    Key,
}

/// The method of the provider that carries an interaction out.
pub open spec fn method_of(interaction: Interaction) -> Seq<char> {
    match interaction {
        Interaction::Tap => "injectTap"@,
        Interaction::Swipe => "injectSwipe"@,
        Interaction::InputText => "injectText"@,
        Interaction::Key => "injectKey"@,
    }
}

/// The signature of the method of the provider that carries an interaction
/// out.
pub open spec fn signature_of(interaction: Interaction) -> Seq<char> {
    match interaction {
        Interaction::Tap => "(FF)V"@,
        Interaction::Swipe => "(FFFFJ)V"@,
        Interaction::InputText => "(Ljava/lang/String;)V"@,
        Interaction::Key => "(I)V"@,
    }
}

/// The method of the provider that carries `interaction` out, and its
/// signature.
pub fn provider_method(interaction: Interaction) -> (r: (String, String))
    ensures
        r.0@ == method_of(interaction),
        r.1@ == signature_of(interaction),
{
    match interaction {
        Interaction::Tap => (string_of(&chars_of("injectTap")), string_of(&chars_of("(FF)V"))),
        Interaction::Swipe => (
            string_of(&chars_of("injectSwipe")),
            string_of(&chars_of("(FFFFJ)V")),
        ),
        Interaction::InputText => (
            string_of(&chars_of("injectText")),
            string_of(&chars_of("(Ljava/lang/String;)V")),
        ),
        Interaction::Key => (string_of(&chars_of("injectKey")), string_of(&chars_of("(I)V"))),
    }
}

// ---------------------------------------------------------------------------
// What the capability provider answers
// ---------------------------------------------------------------------------

/// The accessibility dump of a screen as the provider returned it.
///
/// Fails with `EmptyDump` exactly where the provider returned nothing.
pub fn accessibility_tree(dump: Option<String>) -> (r: Result<String, AppError>)
    ensures
        match dump {
            Some(json) => r == Ok::<String, AppError>(json),
            None => r is Err && r->Err_0.kind == ErrorKind::EmptyDump && r->Err_0.message@
                == "dumpDisplayJson returned null"@,
        },
{
    match dump {
        Some(json) => Ok(json),
        None => Err(AppError::new(ErrorKind::EmptyDump, "dumpDisplayJson returned null")),
    }
}

/// The failure of a call of the provider's method `method`, of which the
/// provider says `detail`.
pub fn call_failed(method: &str, detail: &str) -> (e: AppError)
    ensures
        e.kind == ErrorKind::CommandFailed,
        e.message@ == method@ + " call failed: "@ + detail@,
{
    let mut message: Vec<char> = Vec::new();
    append_str(&mut message, method);
    append_str(&mut message, " call failed: ");
    append_str(&mut message, detail);
    assert(message@ =~= method@ + " call failed: "@ + detail@);
    failure(ErrorKind::CommandFailed, &message)
}

/// The failure to make the capability provider of a new screen, of which the
/// provider says `detail`.
pub fn provider_init_failed(detail: &str) -> (e: AppError)
    ensures
        e.kind == ErrorKind::ProviderInitFailed,
        e.message@ == "VirtualScreen constructor failed: "@ + detail@,
{
    let mut message: Vec<char> = Vec::new();
    append_str(&mut message, "VirtualScreen constructor failed: ");
    append_str(&mut message, detail);
    assert(message@ =~= "VirtualScreen constructor failed: "@ + detail@);
    failure(ErrorKind::ProviderInitFailed, &message)
}

} // verus!
