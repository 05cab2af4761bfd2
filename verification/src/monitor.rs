//! The decisions of the automatic theme keeper: which theme it keeps, when a changed
//! renderer is left to settle, and when an automatic attempt may run.
use vstd::prelude::*;
use crate::error::{AppError, AppResult};
use crate::paths::{compatible_cdp_port, DEFAULT_CDP_PORT, LEGACY_CDP_PORT};
use crate::diagnostic::{deterministic_codes, listed};
use crate::retry::{apply_mode_for, opt_text, sat_add, ApplyMode, ApplyOrigin, RetryControl};
use crate::text::push_char;

verus! {

/// How long a newly observed renderer is left to settle before the first attempt.
pub const RENDERER_SETTLE_MS: u64 = 4000;

/// What the keeper does in one cycle.
#[derive(PartialEq, Eq, Structural, Clone, Copy, Debug)]
pub enum MonitorStep {
    /// The theme is in place.
    Healthy,
    /// A new renderer appeared; the first attempt is held back.
    Settling,
    /// Attempts are paused, exhausted or not yet due.
    Waiting,
    /// An automatic attempt may run now.
    Attempt,
}

/// The theme kept automatically: the selected one, while a theme is wanted and kept.
pub fn kept_theme(selected: Option<&str>, wants_theme: bool, auto_keep: bool) -> (r: Option<String>)
    ensures
        match r {
            Some(t) => wants_theme && auto_keep && (selected matches Some(s) && s@ == t@),
            None => !(wants_theme && auto_keep && selected is Some),
        },
{
    match selected {
        Some(s) => {
            if wants_theme && auto_keep {
                Some(s.to_string())
            } else {
                None
            }
        },
        None => None,
    }
}

/// The saved keeper settings as the keeper reads them: the debugging port moved off the
/// historical one, and keeping switched off while no theme is selected.
pub fn normalized_settings(port: u16, has_selected: bool, auto_keep: bool) -> (r: (u16, bool))
    ensures
        r.0 == if port == 0 || port == LEGACY_CDP_PORT {
            DEFAULT_CDP_PORT
        } else {
            port
        },
        r.1 == (auto_keep && has_selected),
{
    (compatible_cdp_port(port), auto_keep && has_selected)
}

/// Keeping can be switched on only after a theme was applied and selected; switching it
/// off is always allowed.
pub fn auto_keep_check(enabled: bool, wants_theme: bool, has_selected: bool) -> (r: AppResult<()>)
    ensures
        r is Ok <==> (!enabled || (wants_theme && has_selected)),
        r matches Err(e) ==> e.code@ == "THEME_NOT_SELECTED"@,
{
    if enabled && (!wants_theme || !has_selected) {
        return Err(AppError::new("THEME_NOT_SELECTED", "请先成功应用一个主题，再开启自动保持。"));
    }
    Ok(())
}

/// The start of a keeper cycle: nothing is kept while a trial runs (the retry state is
/// left as it is); otherwise a requested reset clears the retry state first.
pub fn cycle_start(trial_active: bool, reset_requested: bool, retry: &mut RetryControl) -> (r: bool)
    ensures
        r == !trial_active,
        !r ==> *final(retry) == *old(retry),
        r && reset_requested ==> final(retry).key is None && final(retry).is_fresh(),
        r && !reset_requested ==> *final(retry) == *old(retry),
{
    if trial_active {
        return false;
    }
    if reset_requested {
        retry.reset();
    }
    true
}

/// `a:b`.
pub open spec fn observation_key(a: Seq<char>, b: Seq<char>) -> Seq<char> {
    a + seq![':'] + b
}

fn key_of(a: &str, b: &str) -> (r: String)
    ensures
        r@ == observation_key(a@, b@),
{
    let mut k = a.to_string();
    push_char(&mut k, ':');
    k.append(b);
    k
}

/// One cycle while WorkBuddy is not running: the observation is `<theme>:not-running`;
/// an attempt (a launch) runs when the retry policy allows it.
pub fn stopped_step(retry: &mut RetryControl, theme_id: &str, now: u64) -> (step: MonitorStep)
    ensures
        ({
            let key = observation_key(theme_id@, "not-running"@);
            &&& if opt_text(old(retry).key) != Some(key) {
                opt_text(final(retry).key) == Some(key) && final(retry).is_fresh()
            } else {
                *final(retry) == *old(retry)
            }
            &&& step == if final(retry).allows(now) {
                MonitorStep::Attempt
            } else {
                MonitorStep::Waiting
            }
        }),
{
    let key = key_of(theme_id, "not-running");
    retry.reset_if_key_changed(key);
    if retry.can_attempt(now) {
        MonitorStep::Attempt
    } else {
        MonitorStep::Waiting
    }
}

/// One cycle with a renderer page `target_id`: a healthy page clears the policy; a newly
/// observed page is left to settle; otherwise an attempt runs when the policy allows.
pub fn renderer_step(retry: &mut RetryControl, theme_id: &str, target_id: &str, healthy: bool, now: u64) -> (step:
    MonitorStep)
    ensures
        ({
            let key = observation_key(theme_id@, target_id@);
            let changed = opt_text(old(retry).key) != Some(key);
            if healthy {
                step == MonitorStep::Healthy && final(retry).key is None && final(retry).is_fresh()
            } else if changed {
                &&& step == MonitorStep::Settling
                &&& opt_text(final(retry).key) == Some(key)
                &&& final(retry).attempts == 0
                &&& final(retry).next_attempt == Some(sat_add(now, RENDERER_SETTLE_MS))
                &&& final(retry).last_error is None
                &&& !final(retry).blocked
            } else {
                &&& *final(retry) == *old(retry)
                &&& step == if old(retry).allows(now) {
                    MonitorStep::Attempt
                } else {
                    MonitorStep::Waiting
                }
            }
        }),
{
    let key = key_of(theme_id, target_id);
    let changed = retry.reset_if_key_changed(key);
    if healthy {
        retry.reset();
        return MonitorStep::Healthy;
    }
    if changed {
        retry.defer_initial_attempt(now, RENDERER_SETTLE_MS);
        return MonitorStep::Settling;
    }
    if retry.can_attempt(now) {
        MonitorStep::Attempt
    } else {
        MonitorStep::Waiting
    }
}

/// After an automatic attempt: success clears the policy; a failure is counted with its
/// code, and a code that a retry cannot fix pauses retrying.
pub fn attempt_finished(retry: &mut RetryControl, error: Option<&str>, now: u64)
    ensures
        match error {
            None => final(retry).key is None && final(retry).is_fresh(),
            Some(code) => (final(retry).attempts, final(retry).next_attempt)
                == RetryControl::after_failure(old(retry).attempts, now) && opt_text(
                final(retry).last_error,
            ) == Some(code@) && final(retry).key == old(retry).key && final(retry).blocked
                == listed(deterministic_codes(), code@),
        },
{
    match error {
        None => retry.reset(),
        Some(code) => retry.record_error(code, now),
    }
}

/// A renderer that keeps showing a broken theme gets at most three automatic attempts:
/// after the settling cycle and three failures, the keeper only waits.
pub proof fn lemma_keeper_gives_up(r: RetryControl, now: u64)
    requires
        r.attempts >= 3,
    ensures
        !r.allows(now),
{
}

/// An apply the keeper asks for.
#[derive(Debug)]
pub struct ApplyRequest {
    pub theme_id: String,
    pub allow_restart: bool,
    pub origin: ApplyOrigin,
}

/// The keeper's apply of `theme_id`: automatic, and never allowed to restart WorkBuddy
/// (a restart always waits for the user's confirmation).
pub fn keeper_apply(theme_id: &str) -> (r: ApplyRequest)
    ensures
        r.theme_id@ == theme_id@,
        !r.allow_restart,
        r.origin == ApplyOrigin::Automatic,
{
    ApplyRequest { theme_id: theme_id.to_string(), allow_restart: false, origin: ApplyOrigin::Automatic }
}

/// Automatic keeping never restarts WorkBuddy: whatever state WorkBuddy is in, the
/// keeper's apply either launches a stopped WorkBuddy, attaches to a running one, or is
/// refused.
pub proof fn lemma_keeper_never_restarts(r: ApplyRequest, running: bool, cdp_available: bool)
    requires
        !r.allow_restart,
    ensures
        apply_mode_for(running, cdp_available, r.allow_restart) != Some(ApplyMode::Restart),
{
}

} // verus!
