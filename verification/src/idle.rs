//! How long the control plane waits, of its own accord, for a screen to
//! settle.
//!
//! After something was done to a screen, a caller who reads it should see
//! what came of it. So the control plane waits for the screen to become idle
//! before it answers, unless the caller asks it not to. The wait is bounded
//! by what is left of a window that opened with the last interaction: calls in
//! quick succession share one window and do not add up.

use crate::error::{AppError, ErrorKind};
use crate::registry::{elapsed_ms, index_of, ServerState};
use vstd::prelude::*;

verus! {

/// The window after an interaction within which a screen is waited for.
pub const IDLE_WINDOW_MS: u64 = 2500;

/// How long a screen must have been quiet to count as idle after an
/// interaction.
pub const IDLE_QUIET_MS: u64 = 750;

/// The longest that a launch is waited for.
pub const LAUNCH_WINDOW_MS: u64 = 30000;

/// How long a screen must have been quiet to count as idle after a launch.
pub const LAUNCH_QUIET_MS: u64 = 5000;

/// The period of the sweep that removes stale screens.
pub const REAP_PERIOD_SECS: u64 = 2;

/// What the control plane does before it answers.
#[derive(Clone, Copy, Debug, PartialEq, Eq, Structural)]
pub enum WaitPlan {
    /// It answers at once and reports a wait of zero.
    Skip,
    /// It waits until the screen has been quiet for `idle_timeout_ms`, but no
    /// longer than `global_timeout_ms`, and reports the time that took.
    Wait { idle_timeout_ms: u64, global_timeout_ms: u64 },
}

/// What is left, at `now`, of the window that the last interaction opened.
/// A screen to which nothing was done yet has the whole window left.
pub open spec fn idle_budget(last_interaction: Option<u64>, now: u64) -> int {
    let elapsed = match last_interaction {
        Some(then) => elapsed_ms(then, now),
        None => 0,
    };
    if elapsed >= IDLE_WINDOW_MS {
        0
    } else {
        IDLE_WINDOW_MS - elapsed
    }
}

/// The plan for a budget: no wait where nothing is left.
pub open spec fn plan_for(budget: int) -> WaitPlan {
    if budget > 0 {
        WaitPlan::Wait { idle_timeout_ms: IDLE_QUIET_MS, global_timeout_ms: budget as u64 }
    } else {
        WaitPlan::Skip
    }
}

/// What is left, at `now`, of the window that the last interaction opened.
pub fn auto_wait_budget(last_interaction: Option<u64>, now: u64) -> (budget: u64)
    ensures
        budget == idle_budget(last_interaction, now),
{
    let elapsed: u64 = match last_interaction {
        Some(then) => if now >= then {
            now - then
        } else {
            0
        },
        None => 0,
    };
    if elapsed >= IDLE_WINDOW_MS {
        0
    } else {
        IDLE_WINDOW_MS - elapsed
    }
}

/// What the control plane does before it answers a call on the screen called
/// `name`, made at `now`.
///
/// With `no_wait` it answers at once, whatever the name. Else it fails with
/// `NotFound` where there is no such screen, waits for what is left of the
/// window where anything is left, and answers at once where nothing is.
pub fn auto_wait_for_idle<H>(state: &ServerState<H>, name: &str, no_wait: bool, now: u64) -> (r:
    Result<WaitPlan, AppError>)
    ensures
        no_wait ==> r == Ok::<WaitPlan, AppError>(WaitPlan::Skip),
        !no_wait ==> match index_of(state@, name@) {
            Some(i) => r == Ok::<WaitPlan, AppError>(
                plan_for(idle_budget(state@[i].last_interaction, now)),
            ),
            None => r is Err && r->Err_0.kind == ErrorKind::NotFound && r->Err_0.message@
                == "screen "@ + name@ + " not found"@,
        },
{
    if no_wait {
        return Ok(WaitPlan::Skip);
    }
    match state.get_screen(name) {
        Ok(screen) => {
            let budget = auto_wait_budget(screen.last_interaction, now);
            if budget > 0 {
                Ok(WaitPlan::Wait { idle_timeout_ms: IDLE_QUIET_MS, global_timeout_ms: budget })
            } else {
                Ok(WaitPlan::Skip)
            }
        },
        Err(e) => Err(e),
    }
}

/// What the control plane does after a launch, before it answers.
pub fn launch_wait(no_wait: bool) -> (plan: WaitPlan)
    ensures
        plan == (if no_wait {
            WaitPlan::Skip
        } else {
            WaitPlan::Wait {
                idle_timeout_ms: LAUNCH_QUIET_MS,
                global_timeout_ms: LAUNCH_WINDOW_MS,
            }
        }),
{
    if no_wait {
        WaitPlan::Skip
    } else {
        WaitPlan::Wait { idle_timeout_ms: LAUNCH_QUIET_MS, global_timeout_ms: LAUNCH_WINDOW_MS }
    }
}

/// The wait that the control plane reports: nothing where it did not wait,
/// else the time that the wait took.
pub open spec fn reported(plan: WaitPlan, spent_ms: u64) -> u64 {
    if plan is Skip {
        0
    } else {
        spent_ms
    }
}

/// The wait that the control plane reports: nothing where it did not wait,
/// else the time that the wait took.
pub fn reported_wait(plan: WaitPlan, spent_ms: u64) -> (waited: u64)
    ensures
        waited == reported(plan, spent_ms),
{
    match plan {
        WaitPlan::Skip => 0,
        WaitPlan::Wait { .. } => spent_ms,
    }
}

/// Waits do not add up: when at least `since` milliseconds have passed since
/// the last interaction, no more is waited for than what the window has left
/// after `since`, and nothing once the window is over.
pub proof fn lemma_budget_shrinks_with_time(then: u64, now: u64, since: u64)
    requires
        elapsed_ms(then, now) >= since,
    ensures
        0 <= idle_budget(Some(then), now),
        since <= IDLE_WINDOW_MS ==> idle_budget(Some(then), now) <= IDLE_WINDOW_MS - since,
        since >= IDLE_WINDOW_MS ==> idle_budget(Some(then), now) == 0,
        idle_budget(Some(then), now) + elapsed_ms(then, now) >= IDLE_WINDOW_MS,
{
}

/// An interaction on its own is always followed by a wait: right after it,
/// the whole window is left.
pub proof fn lemma_budget_is_whole_at_once(then: u64)
    ensures
        idle_budget(Some(then), then) == IDLE_WINDOW_MS,
        plan_for(idle_budget(Some(then), then)) == (WaitPlan::Wait {
            idle_timeout_ms: IDLE_QUIET_MS,
            global_timeout_ms: IDLE_WINDOW_MS,
        }),
{
}

/// A call that asks not to wait is not waited for and reports a wait of
/// zero, however short a time ago something was done to the screen; so does a
/// call after the window is over.
pub proof fn lemma_no_wait_reports_zero(last_interaction: Option<u64>, now: u64, spent_ms: u64)
    ensures
        reported(WaitPlan::Skip, spent_ms) == 0,
        idle_budget(last_interaction, now) == 0 ==> reported(
            plan_for(idle_budget(last_interaction, now)),
            spent_ms,
        ) == 0,
        idle_budget(last_interaction, now) > 0 ==> plan_for(
            idle_budget(last_interaction, now),
        ) is Wait,
{
}

} // verus!
