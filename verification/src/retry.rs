//! Automatic re-apply policy: at most three attempts per observed target, with growing
//! delays, a pause after failures that a retry cannot fix, and the monitor snapshot the
//! settings page shows. Times are milliseconds on a monotonic clock.
use vstd::prelude::*;
use crate::diagnostic::{deterministic, deterministic_codes, listed};
use crate::error::{AppError, AppResult};

verus! {

/// How many automatic attempts one target gets.
pub const RETRY_LIMIT: u8 = 3;

/// The delay before the attempt that follows failure number `k + 1`.
pub open spec fn retry_delay_ms(k: int) -> u64 {
    if k == 0 {
        1000
    } else if k == 1 {
        2000
    } else {
        5000
    }
}

/// `a + b`, or `u64::MAX` when that does not fit.
pub open spec fn sat_add(a: u64, b: u64) -> u64 {
    if a + b > u64::MAX {
        u64::MAX
    } else {
        (a + b) as u64
    }
}

/// Retry bookkeeping for the target currently observed (`key`).
#[derive(Debug)]
pub struct RetryControl {
    pub key: Option<String>,
    pub attempts: u8,
    pub next_attempt: Option<u64>,
    pub last_error: Option<String>,
    pub blocked: bool,
}

/// The text of an optional string.
pub open spec fn opt_text(s: Option<String>) -> Option<Seq<char>> {
    match s {
        Some(t) => Some(t@),
        None => None,
    }
}

impl RetryControl {
    /// Nothing observed, nothing attempted.
    pub open spec fn is_fresh(&self) -> bool {
        &&& self.attempts == 0
        &&& self.next_attempt is None
        &&& self.last_error is None
        &&& !self.blocked
    }

    /// Whether an attempt is allowed at time `now`.
    pub open spec fn allows(&self, now: u64) -> bool {
        &&& !self.blocked
        &&& self.attempts < RETRY_LIMIT
        &&& match self.next_attempt {
            Some(t) => now >= t,
            None => true,
        }
    }

    /// The attempt count and next attempt time after one more failure at `now`.
    pub open spec fn after_failure(attempts: u8, now: u64) -> (u8, Option<u64>) {
        let a: u8 = if attempts == u8::MAX {
            u8::MAX
        } else {
            (attempts + 1) as u8
        };
        (a, if a - 1 < RETRY_LIMIT {
            Some(sat_add(now, retry_delay_ms(a - 1)))
        } else {
            None
        })
    }

    pub fn new() -> (r: RetryControl)
        ensures
            r.key is None,
            r.is_fresh(),
    {
        RetryControl {
            key: None,
            attempts: 0,
            next_attempt: None,
            last_error: None,
            blocked: false,
        }
    }

    /// Forgets the target and every failure.
    pub fn reset(&mut self)
        ensures
            final(self).key is None,
            final(self).is_fresh(),
    {
        self.key = None;
        self.attempts = 0;
        self.next_attempt = None;
        self.last_error = None;
        self.blocked = false;
    }

    /// Starts over when a different target is observed; says whether it did.
    pub fn reset_if_key_changed(&mut self, key: String) -> (changed: bool)
        ensures
            changed == (opt_text(old(self).key) != Some(key@)),
            changed ==> opt_text(final(self).key) == Some(key@) && final(self).is_fresh(),
            !changed ==> *final(self) == *old(self),
    {
        let same = match &self.key {
            Some(current) => *current == key,
            None => false,
        };
        if !same {
            self.reset();
            self.key = Some(key);
            true
        } else {
            false
        }
    }

    /// Holds the first attempt back until `delay_ms` after `now`.
    pub fn defer_initial_attempt(&mut self, now: u64, delay_ms: u64)
        ensures
            final(self).next_attempt == Some(sat_add(now, delay_ms)),
            final(self).key == old(self).key,
            final(self).attempts == old(self).attempts,
            final(self).last_error == old(self).last_error,
            final(self).blocked == old(self).blocked,
    {
        self.next_attempt = Some(now.saturating_add(delay_ms));
    }

    /// Whether an automatic attempt may run at `now`.
    pub fn can_attempt(&self, now: u64) -> (r: bool)
        ensures
            r == self.allows(now),
    {
        !self.blocked && self.attempts < RETRY_LIMIT && match self.next_attempt {
            Some(t) => now >= t,
            None => true,
        }
    }

    /// Counts a failed attempt at `now` and schedules the next one (1 s, 2 s, then 5 s
    /// later); after the third failure nothing is scheduled.
    pub fn record_failure(&mut self, now: u64)
        ensures
            (final(self).attempts, final(self).next_attempt) == RetryControl::after_failure(
                old(self).attempts,
                now,
            ),
            final(self).key == old(self).key,
            final(self).last_error == old(self).last_error,
            final(self).blocked == old(self).blocked,
    {
        self.attempts = self.attempts.saturating_add(1);
        let index = self.attempts - 1;
        self.next_attempt = if index == 0 {
            Some(now.saturating_add(1000))
        } else if index == 1 {
            Some(now.saturating_add(2000))
        } else if index == 2 {
            Some(now.saturating_add(5000))
        } else {
            None
        };
    }

    /// Counts a failure with `code`; a code that a retry cannot fix pauses retries.
    pub fn record_error(&mut self, code: &str, now: u64)
        ensures
            (final(self).attempts, final(self).next_attempt) == RetryControl::after_failure(
                old(self).attempts,
                now,
            ),
            final(self).key == old(self).key,
            opt_text(final(self).last_error) == Some(code@),
            final(self).blocked == listed(deterministic_codes(), code@),
    {
        self.record_failure(now);
        self.last_error = Some(code.to_string());
        self.blocked = deterministic(code);
    }

    /// The status line shown while waiting, and the code of the last failure.
    pub fn wait_status(&self) -> (r: (&'static str, Option<&str>))
        ensures
            r.0 == (if self.blocked {
                "自动恢复已暂停；请手动应用或更新主题切换器"
            } else if self.attempts >= RETRY_LIMIT {
                "已停止自动重试；请检查连接后手动应用"
            } else {
                "等待页面稳定后重试"
            }),
            match r.1 {
                Some(c) => opt_text(self.last_error) == Some(c@),
                None => self.last_error is None,
            },
    {
        let status = if self.blocked {
            "自动恢复已暂停；请手动应用或更新主题切换器"
        } else if self.attempts >= RETRY_LIMIT {
            "已停止自动重试；请检查连接后手动应用"
        } else {
            "等待页面稳定后重试"
        };
        let code = match &self.last_error {
            Some(c) => Some(c.as_str()),
            None => None,
        };
        (status, code)
    }
}

/// Three failures in a row exhaust the automatic attempts of a target: afterwards no
/// attempt is allowed at any time, until the target changes or the control is reset.
pub proof fn lemma_three_failures_exhaust(r: RetryControl, t1: u64, t2: u64, t3: u64, now: u64)
    requires
        r.attempts == 0,
    ensures
        ({
            let s1 = RetryControl::after_failure(r.attempts, t1);
            let s2 = RetryControl::after_failure(s1.0, t2);
            let s3 = RetryControl::after_failure(s2.0, t3);
            &&& s1.0 == 1 && s2.0 == 2 && s3.0 == 3
            &&& s1.1 == Some(sat_add(t1, 1000)) && s2.1 == Some(sat_add(t2, 2000))
            &&& s3.1 == Some(sat_add(t3, 5000))
            &&& !(RetryControl { attempts: s3.0, next_attempt: s3.1, ..r }).allows(now)
        }),
{
}

/// Where an automatic attempt was allowed, a failure never makes the next attempt
/// earlier than its own time, and the attempt count only grows.
pub proof fn lemma_failure_waits(attempts: u8, now: u64)
    requires
        attempts < RETRY_LIMIT,
    ensures
        ({
            let s = RetryControl::after_failure(attempts, now);
            &&& s.0 == attempts + 1
            &&& s.1 matches Some(t) && t >= now
        }),
{
}

/// The monitor state shown by the settings page.
#[derive(Debug)]
pub struct MonitorSnapshot {
    pub status: String,
    pub retry_count: u8,
    pub last_auto_recovery_at: Option<String>,
    pub last_error_code: Option<String>,
}

impl MonitorSnapshot {
    /// Before monitoring starts.
    pub fn new() -> (r: MonitorSnapshot)
        ensures
            r.status@ == "未监控"@,
            r.retry_count == 0,
            r.last_auto_recovery_at is None,
            r.last_error_code is None,
    {
        MonitorSnapshot {
            status: "未监控".to_string(),
            retry_count: 0,
            last_auto_recovery_at: None,
            last_error_code: None,
        }
    }
}

/// Records a monitor status; the recovery time is replaced only when one is given.
pub fn update_monitor_with_time(
    snapshot: &mut MonitorSnapshot,
    status: &str,
    retry_count: u8,
    error_code: Option<&str>,
    recovered_at: Option<String>,
)
    ensures
        final(snapshot).status@ == status@,
        final(snapshot).retry_count == retry_count,
        opt_text(final(snapshot).last_error_code) == match error_code {
            Some(c) => Some(c@),
            None => None,
        },
        final(snapshot).last_auto_recovery_at == if recovered_at is Some {
            recovered_at
        } else {
            old(snapshot).last_auto_recovery_at
        },
{
    snapshot.status = status.to_string();
    snapshot.retry_count = retry_count;
    snapshot.last_error_code = match error_code {
        Some(c) => Some(c.to_string()),
        None => None,
    };
    if recovered_at.is_some() {
        snapshot.last_auto_recovery_at = recovered_at;
    }
}

/// Records a monitor status and keeps the last recovery time.
pub fn update_monitor(snapshot: &mut MonitorSnapshot, status: &str, retry_count: u8, error_code: Option<&str>)
    ensures
        final(snapshot).status@ == status@,
        final(snapshot).retry_count == retry_count,
        opt_text(final(snapshot).last_error_code) == match error_code {
            Some(c) => Some(c@),
            None => None,
        },
        final(snapshot).last_auto_recovery_at == old(snapshot).last_auto_recovery_at,
{
    update_monitor_with_time(snapshot, status, retry_count, error_code, None);
}

/// How WorkBuddy is brought to a themed state.
#[derive(PartialEq, Eq, Structural, Clone, Copy, Debug)]
pub enum ApplyMode {
    Launch,
    Attach,
    Restart,
}

/// Who asked for an apply.
#[derive(PartialEq, Eq, Structural, Clone, Copy, Debug)]
pub enum ApplyOrigin {
    Manual,
    Automatic,
}

/// The log action of an apply.
pub fn action_for(origin: ApplyOrigin) -> (r: &'static str)
    ensures
        r == (match origin {
            ApplyOrigin::Manual => "apply",
            ApplyOrigin::Automatic => "auto-reapply",
        }),
{
    match origin {
        ApplyOrigin::Manual => "apply",
        ApplyOrigin::Automatic => "auto-reapply",
    }
}

/// How an apply reaches WorkBuddy; `None` where a restart would be needed but is not
/// allowed.
pub open spec fn apply_mode_for(running: bool, cdp_available: bool, allow_restart: bool) -> Option<
    ApplyMode,
> {
    if !running {
        Some(ApplyMode::Launch)
    } else if cdp_available {
        Some(ApplyMode::Attach)
    } else if allow_restart {
        Some(ApplyMode::Restart)
    } else {
        None
    }
}

/// Launch a stopped WorkBuddy, attach to one with its debugging port open, and restart
/// one without it only when the user confirmed a restart.
pub fn decide_apply_mode(running: bool, cdp_available: bool, allow_restart: bool) -> (r: AppResult<
    ApplyMode,
>)
    ensures
        !running ==> r == Ok::<ApplyMode, AppError>(ApplyMode::Launch),
        running && cdp_available ==> r == Ok::<ApplyMode, AppError>(ApplyMode::Attach),
        running && !cdp_available && allow_restart ==> r == Ok::<ApplyMode, AppError>(
            ApplyMode::Restart,
        ),
        running && !cdp_available && !allow_restart ==> (r matches Err(e) && e.code@
            == "RESTART_REQUIRED"@),
        match apply_mode_for(running, cdp_available, allow_restart) {
            Some(m) => r == Ok::<ApplyMode, AppError>(m),
            None => r is Err,
        },
{
    if !running {
        Ok(ApplyMode::Launch)
    } else if cdp_available {
        Ok(ApplyMode::Attach)
    } else if allow_restart {
        Ok(ApplyMode::Restart)
    } else {
        Err(AppError::new("RESTART_REQUIRED", "WorkBuddy 正在运行但未开放 CDP。请确认重启后再应用主题。"))
    }
}

} // verus!
