//! The client of the control plane: how it reaches a control plane that may
//! not be running yet, what it asks for, and how it taps a node by its label.
//!
//! The client does not talk to anything here. Each step is a decision: given
//! what just happened, what is to be done next.

use crate::a11y::{A11yNode, Bounds};
use crate::error::{AppError, ErrorKind};
use crate::text::{
    append_str, chars_of, parse_u64, parsed_u64, slice_of, string_of,
};
use crate::types::CreateScreenRequest;
use vstd::prelude::*;

verus! {

// ---------------------------------------------------------------------------
// Reaching the control plane
// ---------------------------------------------------------------------------

/// The longest pause between two probes.
pub const MAX_DELAY_MS: u64 = 1000;

/// How long after the control plane was started the client gives up: a probe
/// that fails when so much time has passed is the last.
pub const DEADLINE_MS: u64 = 30000;

/// Two to the power of `n`.
pub open spec fn pow2(n: nat) -> nat
    decreases n,
{
    if n == 0 {
        1
    } else {
        2 * pow2((n - 1) as nat)
    }
}

/// The pause after the probe number `attempt`, counted from zero: one
/// millisecond at first, twice as long each time, and never longer than the
/// longest pause.
pub open spec fn backoff_delay(attempt: nat) -> nat {
    if attempt >= 10 {
        MAX_DELAY_MS as nat
    } else {
        pow2(attempt)
    }
}

/// The pause after the probe number `attempt`, counted from zero.
pub fn backoff_delay_ms(attempt: u32) -> (delay: u64)
    ensures
        delay == backoff_delay(attempt as nat),
        1 <= delay <= MAX_DELAY_MS,
{
    if attempt >= 10 {
        return MAX_DELAY_MS;
    }
    let mut delay: u64 = 1;
    let mut i: u32 = 0;
    while i < attempt
        invariant
            i <= attempt < 10,
            delay == pow2(i as nat),
            1 <= delay <= 512,
            i < 10 ==> delay * 2 <= 1024,
            delay == 512 ==> i == 9,
        decreases attempt - i,
    {
        proof {
            lemma_pow2_small((i + 1) as nat);
            lemma_pow2_small(i as nat);
        }
        delay = delay * 2;
        i += 1;
    }
    delay
}

/// The powers of two below 1024.
pub proof fn lemma_pow2_small(n: nat)
    requires
        n < 10,
    ensures
        1 <= pow2(n) <= 512,
        pow2(n) == 512 ==> n == 9,
{
    reveal_with_fuel(pow2, 11);
    assert(pow2(0) == 1);
    assert(pow2(1) == 2);
    assert(pow2(2) == 4);
    assert(pow2(3) == 8);
    assert(pow2(4) == 16);
    assert(pow2(5) == 32);
    assert(pow2(6) == 64);
    assert(pow2(7) == 128);
    assert(pow2(8) == 256);
    assert(pow2(9) == 512);
}

/// Where the client stands on its way to the control plane.
#[derive(Clone, Copy, Debug, PartialEq, Eq, Structural)]
pub enum Connection {
    /// Nothing is known yet.
    Unconnected,
    /// The endpoint was there, and one probe is on its way.
    FirstProbe,
    /// The control plane is being started.
    Bootstrapping,
    /// The control plane was started, and the probe number `attempt`, counted
    /// from zero, is on its way.
    Probing { attempt: u32 },
    /// The client pauses after the probe number `attempt` failed.
    Pausing { attempt: u32 },
    /// The control plane answered: the screen exists.
    Ready,
    /// The client gave up.
    Failed,
}

/// What just happened.
#[derive(Clone, Copy, Debug, PartialEq, Eq, Structural)]
pub enum ClientEvent {
    /// The endpoint was looked for, and was there or not.
    Endpoint { reachable: bool },
    /// The probe was answered.
    ProbeSucceeded,
    /// The probe was not answered, or answered with a failure. `elapsed_ms`
    /// is the time that has passed, on a clock that does not run backwards,
    /// since the control plane was started; before that it counts for
    /// nothing.
    ProbeFailed { elapsed_ms: u64 },
    /// The control plane was started.
    BootstrapDone,
    /// The control plane could not be started.
    BootstrapFailed,
    /// The pause is over.
    Slept,
}

/// What is to be done next.
#[derive(Clone, Copy, Debug, PartialEq, Eq, Structural)]
pub enum ClientAction {
    /// Ask the control plane for the screen.
    Probe,
    /// Start the control plane.
    Bootstrap,
    /// Pause for so many milliseconds.
    Sleep(u64),
    /// Go on with the command: the screen is there.
    Proceed,
    /// Give up: the control plane did not become ready in time.
    GiveUp,
    /// Give up: the control plane could not be started.
    Abort,
    /// Nothing: the event does not belong here.
    Nothing,
}

/// The next stand of the client, and what it is to do.
///
/// After the control plane was started, a probe that fails is followed by a
/// pause and another probe, unless the deadline has passed: then the client
/// gives up. The time that counts is the time that has passed since the
/// control plane was started, probes and pauses alike.
pub open spec fn next_step(state: Connection, event: ClientEvent) -> (Connection, ClientAction) {
    match (state, event) {
        (Connection::Unconnected, ClientEvent::Endpoint { reachable }) => if reachable {
            (Connection::FirstProbe, ClientAction::Probe)
        } else {
            (Connection::Bootstrapping, ClientAction::Bootstrap)
        },
        (Connection::FirstProbe, ClientEvent::ProbeSucceeded) => (
            Connection::Ready,
            ClientAction::Proceed,
        ),
        (Connection::FirstProbe, ClientEvent::ProbeFailed { elapsed_ms }) => (
            Connection::Bootstrapping,
            ClientAction::Bootstrap,
        ),
        (Connection::Bootstrapping, ClientEvent::BootstrapDone) => (
            Connection::Probing { attempt: 0 },
            ClientAction::Probe,
        ),
        (Connection::Bootstrapping, ClientEvent::BootstrapFailed) => (
            Connection::Failed,
            ClientAction::Abort,
        ),
        (Connection::Probing { attempt }, ClientEvent::ProbeSucceeded) => (
            Connection::Ready,
            ClientAction::Proceed,
        ),
        (Connection::Probing { attempt }, ClientEvent::ProbeFailed { elapsed_ms }) => if elapsed_ms
            >= DEADLINE_MS {
            (Connection::Failed, ClientAction::GiveUp)
        } else {
            (
                Connection::Pausing { attempt },
                ClientAction::Sleep(backoff_delay(attempt as nat) as u64),
            )
        },
        (Connection::Pausing { attempt }, ClientEvent::Slept) => (
            Connection::Probing {
                attempt: if attempt < u32::MAX {
                    (attempt + 1) as u32
                } else {
                    attempt
                },
            },
            ClientAction::Probe,
        ),
        _ => (state, ClientAction::Nothing),
    }
}

/// The next stand of the client after `event`, and what it is to do.
pub fn ensure_server(state: Connection, event: ClientEvent) -> (r: (Connection, ClientAction))
    ensures
        r == next_step(state, event),
{
    match (state, event) {
        (Connection::Unconnected, ClientEvent::Endpoint { reachable }) => {
            if reachable {
                (Connection::FirstProbe, ClientAction::Probe)
            } else {
                (Connection::Bootstrapping, ClientAction::Bootstrap)
            }
        },
        (Connection::FirstProbe, ClientEvent::ProbeSucceeded) => (
            Connection::Ready,
            ClientAction::Proceed,
        ),
        (Connection::FirstProbe, ClientEvent::ProbeFailed { elapsed_ms }) => (
            Connection::Bootstrapping,
            ClientAction::Bootstrap,
        ),
        (Connection::Bootstrapping, ClientEvent::BootstrapDone) => (
            Connection::Probing { attempt: 0 },
            ClientAction::Probe,
        ),
        (Connection::Bootstrapping, ClientEvent::BootstrapFailed) => (
            Connection::Failed,
            ClientAction::Abort,
        ),
        (Connection::Probing { attempt }, ClientEvent::ProbeSucceeded) => (
            Connection::Ready,
            ClientAction::Proceed,
        ),
        (Connection::Probing { attempt }, ClientEvent::ProbeFailed { elapsed_ms }) => {
            if elapsed_ms >= DEADLINE_MS {
                (Connection::Failed, ClientAction::GiveUp)
            } else {
                (Connection::Pausing { attempt }, ClientAction::Sleep(backoff_delay_ms(attempt)))
            }
        },
        (Connection::Pausing { attempt }, ClientEvent::Slept) => {
            let next: u32 = if attempt < u32::MAX {
                attempt + 1
            } else {
                attempt
            };
            (Connection::Probing { attempt: next }, ClientAction::Probe)
        },
        _ => (state, ClientAction::Nothing),
    }
}

/// The failure of a client that gave up waiting for the control plane.
pub fn server_not_ready() -> (e: AppError)
    ensures
        e.kind == ErrorKind::ServerNotReady,
        e.message@ == "server did not become ready after 30s"@,
{
    AppError::new(ErrorKind::ServerNotReady, "server did not become ready after 30s")
}

/// Whether the control plane has been started, or is being started, on the
/// way that led to `state`.
pub open spec fn has_bootstrapped(state: Connection) -> bool {
    state is Bootstrapping || state is Probing || state is Pausing
}

/// The control plane is started at most once: once it has been started, or
/// once the client is ready or has given up, no event makes the client start
/// it again.
pub proof fn lemma_bootstrap_at_most_once(state: Connection, event: ClientEvent)
    requires
        has_bootstrapped(state) || state is Ready || state is Failed,
    ensures
        next_step(state, event).1 != ClientAction::Bootstrap,
        has_bootstrapped(next_step(state, event).0) || next_step(state, event).0 is Ready
            || next_step(state, event).0 is Failed,
{
}

/// No pause is longer than the longest pause, nor shorter than a
/// millisecond.
pub proof fn lemma_pauses_are_bounded(state: Connection, event: ClientEvent)
    ensures
        match next_step(state, event).1 {
            ClientAction::Sleep(ms) => 1 <= ms <= MAX_DELAY_MS,
            _ => true,
        },
{
    match state {
        Connection::Probing { attempt } => {
            if attempt < 10 {
                lemma_pow2_small(attempt as nat);
            }
        },
        _ => {},
    }
}

/// The deadline is one of elapsed time: once the control plane has been
/// started, a probe that fails when the deadline has passed makes the client
/// give up, however little it has paused; a probe that fails before is
/// followed by a pause, and a probe that succeeds makes the client ready
/// whenever it comes.
pub proof fn lemma_deadline_is_elapsed_time(attempt: u32, elapsed_ms: u64)
    ensures
        elapsed_ms >= DEADLINE_MS ==> next_step(
            Connection::Probing { attempt },
            ClientEvent::ProbeFailed { elapsed_ms },
        ) == (Connection::Failed, ClientAction::GiveUp),
        elapsed_ms < DEADLINE_MS ==> next_step(
            Connection::Probing { attempt },
            ClientEvent::ProbeFailed { elapsed_ms },
        ) == (
            Connection::Pausing { attempt },
            ClientAction::Sleep(backoff_delay(attempt as nat) as u64),
        ),
        next_step(Connection::Probing { attempt }, ClientEvent::ProbeSucceeded) == (
            Connection::Ready,
            ClientAction::Proceed,
        ),
{
}

/// The client stops after finitely many probes: where every pause takes at
/// least as long as was asked for, the time that has passed when the probe
/// number `attempt` fails is at least the sum of the pauses before it, and
/// that sum reaches the deadline by the probe number 39.
pub proof fn lemma_pauses_reach_the_deadline(attempt: nat)
    ensures
        attempt >= 10 ==> pauses_before(attempt) == 1023 + (attempt - 10) * MAX_DELAY_MS,
        attempt >= 39 ==> pauses_before(attempt) >= DEADLINE_MS,
    decreases attempt,
{
    reveal_with_fuel(pauses_before, 11);
    reveal_with_fuel(pow2, 11);
    if attempt > 10 {
        lemma_pauses_reach_the_deadline((attempt - 1) as nat);
    } else if attempt == 10 {
        assert(pauses_before(10) == 1023);
    }
}

/// The pauses before the probe number `attempt`, added up.
pub open spec fn pauses_before(attempt: nat) -> nat
    decreases attempt,
{
    if attempt == 0 {
        0
    } else {
        pauses_before((attempt - 1) as nat) + backoff_delay((attempt - 1) as nat)
    }
}

/// A client that is ready or has given up stays so.
pub proof fn lemma_end_states_are_final(state: Connection, event: ClientEvent)
    requires
        state is Ready || state is Failed,
    ensures
        next_step(state, event) == (state, ClientAction::Nothing),
{
}

// ---------------------------------------------------------------------------
// What the client asks for
// ---------------------------------------------------------------------------

/// The request with which the client makes sure of its screen: the size and
/// the timeout are always the same, so that every probe asks for the same.
pub fn ensure_screen(name: &str, package: &str) -> (req: CreateScreenRequest)
    ensures
        req@.name == name@,
        req@.package == package@,
        req.width == 1080,
        req.height == 1920,
        req.dpi == 240,
        req.timeout_secs == 300,
{
    CreateScreenRequest {
        name: string_of(&chars_of(name)),
        width: 1080,
        height: 1920,
        dpi: 240,
        timeout_secs: 300,
        package: string_of(&chars_of(package)),
    }
}

/// What the client can ask of a screen.
#[derive(Clone, Copy, Debug, PartialEq, Eq, Structural)]
pub enum Endpoint {
    Info,
    Screenshot,
    A11y,
    Tap,
    Swipe,
    Type,
    Key,
    Launch,
    Stop,
    Reset,
    Heartbeat,
    OpenUrl,
    WaitForIdle,
}

/// The last segment of the path of an endpoint.
pub open spec fn segment_of(endpoint: Endpoint) -> Seq<char> {
    match endpoint {
        Endpoint::Info => "info"@,
        Endpoint::Screenshot => "screenshot"@,
        Endpoint::A11y => "a11y"@,
        Endpoint::Tap => "tap"@,
        Endpoint::Swipe => "swipe"@,
        Endpoint::Type => "type"@,
        Endpoint::Key => "key"@,
        Endpoint::Launch => "launch"@,
        Endpoint::Stop => "stop"@,
        Endpoint::Reset => "reset"@,
        Endpoint::Heartbeat => "heartbeat"@,
        Endpoint::OpenUrl => "open-url"@,
        Endpoint::WaitForIdle => "wait-for-idle"@,
    }
}

/// Whether the control plane waits, of its own accord, before it answers at
/// this endpoint, so that the client can ask it not to.
pub open spec fn waits(endpoint: Endpoint) -> bool {
    endpoint is Screenshot || endpoint is A11y || endpoint is Tap || endpoint is Launch
}

/// Whether the endpoint is read with GET; all others are called with POST.
pub open spec fn reads(endpoint: Endpoint) -> bool {
    endpoint is Info || endpoint is Screenshot || endpoint is A11y
}

/// The path of an endpoint of the screen called `screen`; with `no_wait`, and
/// where the endpoint waits, the path asks the control plane not to.
pub open spec fn path_of(screen: Seq<char>, endpoint: Endpoint, no_wait: bool) -> Seq<char> {
    "/screens/"@ + screen + "/"@ + segment_of(endpoint) + (if no_wait && waits(endpoint) {
        "?no_wait=true"@
    } else {
        Seq::empty()
    })
}

/// Whether the endpoint is read with GET; all others are called with POST.
pub fn is_read(endpoint: Endpoint) -> (r: bool)
    ensures
        r == reads(endpoint),
{
    match endpoint {
        Endpoint::Info | Endpoint::Screenshot | Endpoint::A11y => true,
        _ => false,
    }
}

/// The path of an endpoint of the screen called `screen`.
pub fn screen_path(screen: &str, endpoint: Endpoint, no_wait: bool) -> (path: String)
    ensures
        path@ == path_of(screen@, endpoint, no_wait),
{
    let mut buf: Vec<char> = Vec::new();
    append_str(&mut buf, "/screens/");
    append_str(&mut buf, screen);
    append_str(&mut buf, "/");
    let waits_here = match endpoint {
        Endpoint::Info => {
            append_str(&mut buf, "info");
            false
        },
        Endpoint::Screenshot => {
            append_str(&mut buf, "screenshot");
            true
        },
        Endpoint::A11y => {
            append_str(&mut buf, "a11y");
            true
        },
        Endpoint::Tap => {
            append_str(&mut buf, "tap");
            true
        },
        Endpoint::Swipe => {
            append_str(&mut buf, "swipe");
            false
        },
        Endpoint::Type => {
            append_str(&mut buf, "type");
            false
        },
        Endpoint::Key => {
            append_str(&mut buf, "key");
            false
        },
        Endpoint::Launch => {
            append_str(&mut buf, "launch");
            true
        },
        Endpoint::Stop => {
            append_str(&mut buf, "stop");
            false
        },
        Endpoint::Reset => {
            append_str(&mut buf, "reset");
            false
        },
        Endpoint::Heartbeat => {
            append_str(&mut buf, "heartbeat");
            false
        },
        Endpoint::OpenUrl => {
            append_str(&mut buf, "open-url");
            false
        },
        Endpoint::WaitForIdle => {
            append_str(&mut buf, "wait-for-idle");
            false
        },
    };
    assert(buf@ =~= "/screens/"@ + screen@ + "/"@ + segment_of(endpoint));
    if no_wait && waits_here {
        append_str(&mut buf, "?no_wait=true");
    }
    assert(buf@ =~= path_of(screen@, endpoint, no_wait));
    string_of(&buf)
}

/// The address of `path` at the control plane.
pub fn request_url(path: &str) -> (url: String)
    ensures
        url@ == "http://localhost"@ + path@,
{
    let mut buf: Vec<char> = Vec::new();
    append_str(&mut buf, "http://localhost");
    append_str(&mut buf, path);
    assert(buf@ =~= "http://localhost"@ + path@);
    string_of(&buf)
}

/// The message for a request to `path` that was answered with the status
/// `status` and the text `text`.
pub fn request_failed(path: &str, status: &str, text: &str) -> (message: String)
    ensures
        message@ == path@ + ": "@ + status@ + " "@ + text@,
{
    let mut buf: Vec<char> = Vec::new();
    append_str(&mut buf, path);
    append_str(&mut buf, ": ");
    append_str(&mut buf, status);
    append_str(&mut buf, " ");
    append_str(&mut buf, text);
    assert(buf@ =~= path@ + ": "@ + status@ + " "@ + text@);
    string_of(&buf)
}

/// Whether a status says that a request was carried out: the statuses from
/// 200 up to, not including, 300 do.
pub open spec fn is_success(status: u16) -> bool {
    200 <= status < 300
}

/// Whether `status` says that a request was carried out.
pub fn answered_well(status: u16) -> (r: bool)
    ensures
        r == is_success(status),
{
    200 <= status && status < 300
}

/// Judges the answer to a request to `path`: `status` is its status,
/// `status_text` the status as it is shown, `text` the body.
///
/// The request failed exactly where the status is none of success; the
/// failure names the path, the status and the body.
pub fn check_status(path: &str, status: u16, status_text: &str, text: &str) -> (r: Result<
    (),
    String,
>)
    ensures
        r is Ok <==> is_success(status),
        r is Err ==> r->Err_0@ == path@ + ": "@ + status_text@ + " "@ + text@,
{
    if answered_well(status) {
        Ok(())
    } else {
        Err(request_failed(path, status_text, text))
    }
}

/// The wait that an answer reports in its header, where it has the header and
/// the header holds a number.
pub fn parse_wait_header(value: Option<&str>) -> (r: Option<u64>)
    ensures
        r == (match value {
            Some(v) => parsed_u64(v@),
            None => None,
        }),
{
    match value {
        Some(v) => parse_u64(v),
        None => None,
    }
}

// ---------------------------------------------------------------------------
// Tapping a node by its label
// ---------------------------------------------------------------------------

/// The position of the first `c` in `s` at or behind `from`.
pub open spec fn position_of(s: Seq<char>, c: char, from: int) -> Option<int>
    decreases s.len() - from,
{
    if from < 0 || from >= s.len() {
        None
    } else if s[from] == c {
        Some(from)
    } else {
        position_of(s, c, from + 1)
    }
}

/// What stands before and behind the first comma of a target; nothing for a
/// target without a comma, which is a label.
pub open spec fn split_at_comma(target: Seq<char>) -> Option<(Seq<char>, Seq<char>)> {
    match position_of(target, ',', 0) {
        Some(i) => Some((target.subrange(0, i), target.subrange(i + 1, target.len() as int))),
        None => None,
    }
}

/// The two coordinates of a tap target as it writes them, before and behind
/// its first comma. A target without a comma is a label and gives nothing.
pub fn split_target(target: &str) -> (r: Option<(String, String)>)
    ensures
        match split_at_comma(target@) {
            Some((x, y)) => r matches Some((a, b)) && a@ == x && b@ == y,
            None => r is None,
        },
{
    let chars = chars_of(target);
    let mut i: usize = 0;
    while i < chars.len()
        invariant
            i <= chars.len(),
            chars@ == target@,
            position_of(target@, ',', 0) == position_of(target@, ',', i as int),
        decreases chars.len() - i,
    {
        if chars[i] == ',' {
            let x = slice_of(&chars, 0, i);
            let y = slice_of(&chars, i + 1, chars.len());
            return Some((string_of(&x), string_of(&y)));
        }
        i += 1;
    }
    None
}

/// How often a label is looked up: as often as asked for, but at least once.
pub fn effective_tries(tries: u32) -> (n: u32)
    ensures
        n == (if tries < 1 {
            1
        } else {
            tries as int
        }),
{
    if tries < 1 {
        1
    } else {
        tries
    }
}

/// How long a screen must have been quiet between two lookups of a label.
pub const RETRY_QUIET_MS: i64 = 500;

/// The longest that the client waits between two lookups of a label.
pub const RETRY_WINDOW_MS: i64 = 5000;

/// The centre of a node, with each coordinate doubled: the tap point is half
/// of it.
#[derive(Clone, Copy, Debug, PartialEq, Eq, Structural)]
pub struct TapPoint {
    pub twice_x: i64,
    pub twice_y: i64,
}

/// The centre of `b`, with each coordinate doubled.
pub open spec fn centre_of(b: Bounds) -> TapPoint {
    TapPoint { twice_x: (b.left + b.right) as i64, twice_y: (b.top + b.bottom) as i64 }
}

/// The centre of `b`, with each coordinate doubled.
pub fn tap_point(b: &Bounds) -> (p: TapPoint)
    ensures
        p == centre_of(*b),
        p.twice_x == b.left + b.right,
        p.twice_y == b.top + b.bottom,
{
    TapPoint {
        twice_x: (b.left as i64) + (b.right as i64),
        twice_y: (b.top as i64) + (b.bottom as i64),
    }
}

/// What the client does after it has looked a label up.
pub enum LabelStep {
    /// Tap the centre of the node that was found.
    Tap(TapPoint),
    /// Wait for the screen to become idle, then look again.
    Retry { idle_timeout_ms: i64, global_timeout_ms: i64 },
    /// Give up.
    GiveUp(AppError),
}

/// What the client does after lookup number `attempt`, counted from one, out
/// of `tries`, which found `found` for `label`.
///
/// A node that was found is tapped. Else the client looks again while it has
/// lookups left, and gives up with `NodeNotFound` after the last.
pub fn after_lookup(found: Option<&A11yNode>, attempt: u32, tries: u32, label: &str) -> (step:
    LabelStep)
    ensures
        match found {
            Some(node) => step matches LabelStep::Tap(p) && p == centre_of(node.bounds),
            None => if attempt < tries {
                step matches LabelStep::Retry { idle_timeout_ms, global_timeout_ms }
                    && idle_timeout_ms == RETRY_QUIET_MS && global_timeout_ms
                    == RETRY_WINDOW_MS
            } else {
                step matches LabelStep::GiveUp(e) && e.kind == ErrorKind::NodeNotFound
                    && e.message@ == "node not found: \""@ + label@ + "\""@
            },
        },
{
    match found {
        Some(node) => LabelStep::Tap(tap_point(&node.bounds)),
        None => {
            if attempt < tries {
                LabelStep::Retry {
                    idle_timeout_ms: RETRY_QUIET_MS,
                    global_timeout_ms: RETRY_WINDOW_MS,
                }
            } else {
                let mut message: Vec<char> = Vec::new();
                append_str(&mut message, "node not found: \"");
                append_str(&mut message, label);
                append_str(&mut message, "\"");
                assert(message@ =~= "node not found: \""@ + label@ + "\""@);
                LabelStep::GiveUp(
                    AppError { kind: ErrorKind::NodeNotFound, message: string_of(&message) },
                )
            }
        },
    }
}

} // verus!
