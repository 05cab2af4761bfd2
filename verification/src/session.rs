//! Rules of a theme trial: a ten-minute lease that only an active trial may extend, a
//! closed window that ends it, queued starts that a close cancels, background jobs that
//! stop on cancel or timeout, and what a capture or a recovery may trust.
use vstd::prelude::*;
use crate::error::{AppError, AppResult};
use crate::text::same_text;

verus! {

/// How long a trial lease lasts, and what a renewal adds, in milliseconds.
pub const TRIAL_LEASE_MS: i64 = 600_000;

/// A running or ending theme trial.
#[derive(Debug)]
pub struct TrialSession {
    pub id: String,
    pub name: String,
    pub phase: String,
    pub deadline_ms: i64,
    pub error: Option<String>,
    pub synced_sequence: Option<u64>,
    pub css_hash: Option<String>,
}

/// The trial may still be extended at `now`: it is active and its lease has not run out.
pub open spec fn renewable(s: TrialSession, now: i64) -> bool {
    s.phase@ == "active"@ && now < s.deadline_ms
}

fn busy() -> (e: AppError)
    ensures
        e.code@ == "STUDIO_BUSY"@,
{
    AppError::new("STUDIO_BUSY", "工作台状态暂不可用，请重试。")
}

impl TrialSession {
    /// A trial that starts at `now`, synced to edit `sequence`.
    pub fn live(id: String, name: String, now: i64, sequence: u64) -> (r: TrialSession)
        requires
            now + TRIAL_LEASE_MS <= i64::MAX,
        ensures
            r.id == id,
            r.name == name,
            r.phase@ == "active"@,
            r.deadline_ms == now + TRIAL_LEASE_MS,
            r.error is None,
            r.synced_sequence == Some(sequence),
            r.css_hash is None,
    {
        TrialSession {
            id,
            name,
            phase: "active".to_string(),
            deadline_ms: now + TRIAL_LEASE_MS,
            error: None,
            synced_sequence: Some(sequence),
            css_hash: None,
        }
    }

    /// Adds ten minutes to an active trial whose lease has not run out.
    pub fn renew(&mut self, now: i64) -> (r: AppResult<()>)
        ensures
            match r {
                Ok(()) => renewable(*old(self), now) && final(self).deadline_ms == old(
                    self,
                ).deadline_ms + TRIAL_LEASE_MS && *final(self) == (TrialSession {
                    deadline_ms: final(self).deadline_ms,
                    ..*old(self)
                }),
                Err(e) => *final(self) == *old(self) && if renewable(*old(self), now) {
                    old(self).deadline_ms + TRIAL_LEASE_MS > i64::MAX && e.code@ == "STUDIO_BUSY"@
                } else {
                    e.code@ == "TRIAL_EXPIRED"@
                },
            },
    {
        if !same_text(self.phase.as_str(), "active") || now >= self.deadline_ms {
            return Err(AppError::new("TRIAL_EXPIRED", "试穿已结束，不能续期。"));
        }
        match self.deadline_ms.checked_add(TRIAL_LEASE_MS) {
            Some(d) => {
                self.deadline_ms = d;
                Ok(())
            },
            None => Err(busy()),
        }
    }
}

/// Ends an active trial whose window was closed: it waits for recovery, with the close
/// as its error. Says whether it did.
pub fn close_guard(session: &mut TrialSession, closed: bool) -> (r: bool)
    ensures
        r == (closed && old(session).phase@ == "active"@),
        r ==> final(session).phase@ == "pendingRecovery"@ && match final(session).error {
            Some(e) => e@ == "TRIAL_WINDOW_CLOSED"@,
            None => false,
        } && final(session).id == old(session).id && final(session).deadline_ms == old(
            session,
        ).deadline_ms,
        !r ==> *final(session) == *old(session),
{
    if closed && same_text(session.phase.as_str(), "active") {
        session.phase = "pendingRecovery".to_string();
        session.error = Some("TRIAL_WINDOW_CLOSED".to_string());
        true
    } else {
        false
    }
}

/// A trial ended by a closed window can never be renewed again.
pub proof fn lemma_closed_trial_stays_closed(s: TrialSession, now: i64)
    requires
        s.phase@ == "pendingRecovery"@,
    ensures
        !renewable(s, now),
{
    assert("pendingRecovery"@ != "active"@) by {
        reveal_strlit("pendingRecovery");
        reveal_strlit("active");
        assert("pendingRecovery"@.len() != "active"@.len());
    }
}

/// A background job may publish only while it is neither cancelled nor overdue;
/// cancellation is reported first.
pub fn job_checkpoint(cancelled: bool, elapsed_ms: u64, limit_ms: u64) -> (r: AppResult<()>)
    ensures
        match r {
            Ok(()) => !cancelled && elapsed_ms < limit_ms,
            Err(e) => if cancelled {
                e.code@ == "TASK_CANCELLED"@
            } else {
                elapsed_ms >= limit_ms && e.code@ == "TASK_TIMEOUT"@
            },
        },
{
    if cancelled {
        return Err(AppError::new("TASK_CANCELLED", "任务已取消，未提交新结果。"));
    }
    if elapsed_ms >= limit_ms {
        return Err(AppError::new("TASK_TIMEOUT", "处理超过时间限制，未提交新结果。"));
    }
    Ok(())
}

/// The window generation that trial starts are queued against.
#[derive(Debug)]
pub struct WindowGate {
    pub epoch: u64,
    pub close_requested: bool,
}

/// The generation after a close.
pub open spec fn next_epoch(e: u64) -> u64 {
    if e == u64::MAX {
        0
    } else {
        (e + 1) as u64
    }
}

impl WindowGate {
    pub fn new() -> (r: WindowGate)
        ensures
            r.epoch == 0,
            !r.close_requested,
    {
        WindowGate { epoch: 0, close_requested: false }
    }

    /// The generation a start command is queued against.
    pub fn start_epoch(&self) -> (r: u64)
        ensures
            r == self.epoch,
    {
        self.epoch
    }

    /// Lets a queued start proceed only in the generation it was queued in; it then
    /// withdraws a pending close.
    pub fn begin_start(&mut self, requested_epoch: u64) -> (r: AppResult<()>)
        ensures
            final(self).epoch == old(self).epoch,
            match r {
                Ok(()) => requested_epoch == old(self).epoch && !final(self).close_requested,
                Err(e) => requested_epoch != old(self).epoch && e.code@ == "TRIAL_WINDOW_CLOSED"@
                    && final(self).close_requested == old(self).close_requested,
            },
    {
        if self.epoch != requested_epoch {
            return Err(AppError::new("TRIAL_WINDOW_CLOSED", "窗口已关闭，已取消排队的试穿请求。"));
        }
        self.close_requested = false;
        Ok(())
    }

    /// Closing the window starts a new generation and requests the close.
    pub fn mark_closed(&mut self)
        ensures
            final(self).epoch == next_epoch(old(self).epoch),
            final(self).close_requested,
    {
        self.epoch = self.epoch.wrapping_add(1);
        self.close_requested = true;
    }
}

/// A start queued before a close can never begin after it.
pub proof fn lemma_close_cancels_queued_start(queued: u64)
    ensures
        next_epoch(queued) != queued,
{
}

/// What a recovery may restore over: with no theme node, only an original page where
/// that is allowed; with one node, only a theme state the trial itself knew; never more
/// than one node.
pub open spec fn surface_known(
    count: u64,
    id: Option<Seq<char>>,
    hash: Option<Seq<char>>,
    known: Seq<(String, String)>,
    allow_original: bool,
) -> bool {
    if count == 0 {
        allow_original
    } else if count == 1 {
        exists|i: int|
            0 <= i < known.len() && id == Some((#[trigger] known[i]).0@) && hash == Some(known[i].1@)
    } else {
        false
    }
}

/// The view of an optional text.
pub open spec fn opt_str(s: Option<&str>) -> Option<Seq<char>> {
    match s {
        Some(t) => Some(t@),
        None => None,
    }
}

/// Whether the renderer's theme state is one recovery may act on.
pub fn recovery_surface_is_known(
    count: u64,
    id: Option<&str>,
    hash: Option<&str>,
    known: &[(String, String)],
    allow_original: bool,
) -> (r: bool)
    ensures
        r == surface_known(count, opt_str(id), opt_str(hash), known@, allow_original),
{
    if count == 0 {
        return allow_original;
    }
    if count != 1 {
        return false;
    }
    let (want_id, want_hash) = match (id, hash) {
        (Some(i), Some(h)) => (i, h),
        _ => {
            return false;
        },
    };
    let mut k: usize = 0;
    while k < known.len()
        invariant
            k <= known@.len(),
            count == 1,
            id == Some(want_id),
            hash == Some(want_hash),
            forall|j: int|
                0 <= j < k ==> !(want_id@ == (#[trigger] known@[j]).0@ && want_hash@ == known@[j].1@),
        decreases known@.len() - k,
    {
        if same_text(known[k].0.as_str(), want_id) && same_text(known[k].1.as_str(), want_hash) {
            assert(opt_str(id) == Some((known@[k as int]).0@));
            return true;
        }
        k = k + 1;
    }
    false
}

/// What a captured frame claims to show.
#[derive(Debug)]
pub struct FrameBinding {
    pub trial_id: String,
    pub draft_id: String,
    pub sequence: u64,
    pub css_hash: String,
    pub target_id: String,
}

/// The draft a trial is showing, with the hash of its compiled stylesheet.
#[derive(Debug)]
pub struct DraftBinding {
    pub draft_id: String,
    pub edit_sequence: u64,
    pub css_hash: String,
}

/// A frame may be published only if it still shows the live trial: same trial, still
/// active and within its lease, the synced edit, stylesheet and renderer page, and the
/// draft's current edit and stylesheet.
pub open spec fn binding_holds(
    session: TrialSession,
    target_id: Option<String>,
    draft: Option<DraftBinding>,
    frame: FrameBinding,
    now: i64,
) -> bool {
    match draft {
        None => false,
        Some(d) => {
            &&& session.id@ == frame.trial_id@
            &&& session.phase@ == "active"@
            &&& now < session.deadline_ms
            &&& session.synced_sequence == Some(frame.sequence)
            &&& (session.css_hash matches Some(h) && h@ == frame.css_hash@)
            &&& (target_id matches Some(t) && t@ == frame.target_id@)
            &&& d.draft_id@ == frame.draft_id@
            &&& d.edit_sequence == frame.sequence
            &&& d.css_hash@ == frame.css_hash@
        },
    }
}

/// Refuses a frame that no longer shows the live trial.
pub fn validate_capture_binding(
    session: &TrialSession,
    target_id: &Option<String>,
    draft: &Option<DraftBinding>,
    frame: &FrameBinding,
    now: i64,
) -> (r: AppResult<()>)
    ensures
        match r {
            Ok(()) => binding_holds(*session, *target_id, *draft, *frame, now),
            Err(e) => !binding_holds(*session, *target_id, *draft, *frame, now) && e.code@
                == "CAPTURE_CHANGED"@,
        },
{
    let changed = AppError::new("CAPTURE_CHANGED", "截图期间参数或试穿状态发生变化，已丢弃旧画面，请刷新。");
    let d = match draft {
        Some(d) => d,
        None => {
            return Err(changed);
        },
    };
    let hash_ok = match &session.css_hash {
        Some(h) => same_text(h.as_str(), frame.css_hash.as_str()),
        None => false,
    };
    let target_ok = match target_id {
        Some(t) => same_text(t.as_str(), frame.target_id.as_str()),
        None => false,
    };
    let synced_ok = match session.synced_sequence {
        Some(s) => s == frame.sequence,
        None => false,
    };
    if !same_text(session.id.as_str(), frame.trial_id.as_str()) || !same_text(
        session.phase.as_str(),
        "active",
    ) || now >= session.deadline_ms || !synced_ok || !hash_ok || !target_ok || !same_text(
        d.draft_id.as_str(),
        frame.draft_id.as_str(),
    ) || d.edit_sequence != frame.sequence || !same_text(
        d.css_hash.as_str(),
        frame.css_hash.as_str(),
    ) {
        return Err(changed);
    }
    Ok(())
}

/// The renderer is known to show `key`, healthy: a fresh sample with the debugging port
/// open, one theme node, and `key` as its theme.
pub fn known_healthy(
    fresh: bool,
    cdp_available: bool,
    style_node_count: Option<u32>,
    current_theme_id: Option<&str>,
    key: &str,
) -> (r: bool)
    ensures
        r == (fresh && cdp_available && style_node_count == Some(1u32) && opt_str(current_theme_id)
            == Some(key@)),
{
    let count_ok = match style_node_count {
        Some(c) => c == 1,
        None => false,
    };
    let id_ok = match current_theme_id {
        Some(t) => same_text(t, key),
        None => false,
    };
    fresh && cdp_available && count_ok && id_ok
}


/// How a trial reaches a renderer it can theme.
#[derive(PartialEq, Eq, Structural, Clone, Copy, Debug)]
pub enum TrialLaunch {
    /// WorkBuddy runs with its debugging port open.
    Ready,
    /// WorkBuddy is not running and is started.
    Launch,
    /// WorkBuddy runs without the port and is closed and started again.
    Restart,
}

/// A trial needs a running WorkBuddy with its debugging port; starting or restarting it
/// needs the user's confirmation.
pub fn trial_launch_plan(running: bool, cdp_available: bool, allow_restart: bool) -> (r: AppResult<
    TrialLaunch,
>)
    ensures
        match r {
            Ok(TrialLaunch::Ready) => running && cdp_available,
            Ok(TrialLaunch::Launch) => !running && allow_restart,
            Ok(TrialLaunch::Restart) => running && !cdp_available && allow_restart,
            Err(e) => !(running && cdp_available) && !allow_restart && e.code@ == "RESTART_REQUIRED"@,
        },
{
    if running && cdp_available {
        return Ok(TrialLaunch::Ready);
    }
    if !allow_restart {
        return Err(AppError::new("RESTART_REQUIRED", "实机试用需要先确认启动或重启 WorkBuddy。"));
    }
    if running {
        Ok(TrialLaunch::Restart)
    } else {
        Ok(TrialLaunch::Launch)
    }
}

/// The theme a trial must return to: none when the page has no theme node, the current
/// theme when it has one; anything else is refused.
pub fn trial_baseline(style_node_count: Option<u32>, current_theme_id: Option<&str>) -> (r: AppResult<
    Option<String>,
>)
    ensures
        match r {
            Ok(None) => style_node_count == Some(0u32),
            Ok(Some(k)) => style_node_count == Some(1u32) && opt_str(current_theme_id) == Some(k@),
            Err(e) => e.code@ == "TRIAL_BASELINE_UNKNOWN"@ && !(style_node_count == Some(0u32) || (
            style_node_count == Some(1u32) && current_theme_id is Some)),
        },
{
    match style_node_count {
        Some(0) => Ok(None),
        Some(1) => match current_theme_id {
            Some(k) => Ok(Some(k.to_string())),
            None => Err(AppError::new("TRIAL_BASELINE_UNKNOWN", "当前主题无法识别。")),
        },
        _ => Err(AppError::new("TRIAL_BASELINE_UNKNOWN", "无法确认原主题节点，未开始试用。")),
    }
}

/// A trial may restore an unthemed page only where it began unthemed or the renderer
/// was replaced since.
pub fn allow_original_surface(previous_key: bool, journal_target: Option<&str>, current_target: &str) -> (r:
    bool)
    ensures
        r == (!previous_key || match journal_target {
            Some(t) => t@ != current_target@,
            None => false,
        }),
{
    !previous_key || match journal_target {
        Some(t) => !same_text(t, current_target),
        None => false,
    }
}

/// A trial that ended (not active, or past its lease) is recovered at most once per
/// interval, and never automatically after an outside theme change.
pub fn recovery_due(session: &TrialSession, now: i64, since_last_ms: Option<u64>, interval_ms: u64) -> (r:
    bool)
    ensures
        r == ((session.phase@ != "active"@ || now >= session.deadline_ms) && match since_last_ms {
            Some(e) => e >= interval_ms,
            None => true,
        } && !(session.error matches Some(c) && c@ == "TRIAL_EXTERNAL_CHANGE"@)),
{
    let ended = !same_text(session.phase.as_str(), "active") || now >= session.deadline_ms;
    let due = match since_last_ms {
        Some(e) => e >= interval_ms,
        None => true,
    };
    let external = match &session.error {
        Some(c) => same_text(c.as_str(), "TRIAL_EXTERNAL_CHANGE"),
        None => false,
    };
    ended && due && !external
}

/// The renderer is sampled at most once per interval.
pub fn sample_due(since_last_ms: Option<u64>, interval_ms: u64) -> (r: bool)
    ensures
        r == match since_last_ms {
            Some(e) => e >= interval_ms,
            None => true,
        },
{
    match since_last_ms {
        Some(e) => e >= interval_ms,
        None => true,
    }
}

/// Whether the trial is live at `now`: active and within its lease.
pub fn is_live(session: &TrialSession, now: i64) -> (r: bool)
    ensures
        r == renewable(*session, now),
{
    same_text(session.phase.as_str(), "active") && now < session.deadline_ms
}

/// A trial command may act only on the live trial it names: the window is still open,
/// and the trial exists, carries that id, and is live.
pub fn live_trial_check(session: &Option<TrialSession>, id: &str, now: i64, window_closed: bool) -> (r:
    AppResult<()>)
    ensures
        match r {
            Ok(()) => !window_closed && (*session matches Some(s) && s.id@ == id@ && renewable(
                s,
                now,
            )),
            Err(e) => if window_closed {
                e.code@ == "TRIAL_WINDOW_CLOSED"@
            } else {
                !(*session matches Some(s) && s.id@ == id@ && renewable(s, now)) && e.code@
                    == "TRIAL_EXPIRED"@
            },
        },
{
    if window_closed {
        return Err(AppError::new("TRIAL_WINDOW_CLOSED", "编辑窗口已关闭，正在恢复之前的效果。"));
    }
    let live = match session {
        Some(s) => same_text(s.id.as_str(), id) && is_live(s, now),
        None => false,
    };
    if !live {
        return Err(AppError::new("TRIAL_EXPIRED", "试穿已结束或正在恢复。"));
    }
    Ok(())
}

/// An edit may be synced into the trial only when it is the draft's latest edit, is not
/// older than the edit the trial shows, and keeps the trial's background image.
pub fn sync_check(draft_sequence: u64, requested: u64, shown_sequence: u64, same_asset: bool) -> (r:
    AppResult<()>)
    ensures
        match r {
            Ok(()) => draft_sequence == requested && requested >= shown_sequence && same_asset,
            Err(e) => if draft_sequence != requested || requested < shown_sequence {
                e.code@ == "TRIAL_STALE_UPDATE"@
            } else {
                !same_asset && e.code@ == "TRIAL_IMAGE_CHANGED"@
            },
        },
{
    if draft_sequence != requested || requested < shown_sequence {
        return Err(AppError::new("TRIAL_STALE_UPDATE", "已跳过旧参数，等待最新修改。"));
    }
    if !same_asset {
        return Err(AppError::new("TRIAL_IMAGE_CHANGED", "试穿期间不能替换背景资源，请先结束试穿。"));
    }
    Ok(())
}

/// The trial already shows an edit when it synced that very edit and the stylesheet did
/// not change; the renderer is then only checked again.
pub fn sync_unchanged(synced_sequence: Option<u64>, requested: u64, same_css: bool) -> (r: bool)
    ensures
        r == (synced_sequence == Some(requested) && same_css),
{
    match synced_sequence {
        Some(s) => s == requested && same_css,
        None => false,
    }
}

/// A stopped recovery is resolved by hand only when an outside theme change or a damaged
/// journal stopped it, and a damaged journal only by restoring the original look.
pub fn manual_recovery_check(external: bool, corrupt: bool, restore_original: bool) -> (r: AppResult<
    (),
>)
    ensures
        match r {
            Ok(()) => (external || corrupt) && (corrupt ==> restore_original),
            Err(e) => if !external && !corrupt {
                e.code@ == "RECOVERY_NOT_REQUIRED"@
            } else {
                corrupt && !restore_original && e.code@ == "RECOVERY_TARGET_UNKNOWN"@
            },
        },
{
    if !external && !corrupt {
        return Err(AppError::new("RECOVERY_NOT_REQUIRED", "当前没有需要人工处理的恢复异常。"));
    }
    if corrupt && !restore_original {
        return Err(AppError::new("RECOVERY_TARGET_UNKNOWN", "损坏的记录需要显式恢复原版，不能猜测原主题。"));
    }
    Ok(())
}

/// Starts recovering a trial. A committed trial needs none: its journal is only dropped
/// (`false`, the session untouched). Otherwise the session enters `restoring`.
pub fn begin_recovery(session: &mut TrialSession, committed: bool) -> (r: bool)
    ensures
        r == !committed,
        !r ==> *final(session) == *old(session),
        r ==> final(session).phase@ == "restoring"@ && *final(session) == (TrialSession {
            phase: final(session).phase,
            ..*old(session)
        }),
{
    if committed {
        return false;
    }
    session.phase = "restoring".to_string();
    true
}

/// A recovery needs a running WorkBuddy to act on; while it is closed the journal is
/// kept and recovery waits.
pub fn recovery_reachable(running: bool) -> (r: AppResult<()>)
    ensures
        r is Ok <==> running,
        r matches Err(e) ==> e.code@ == "TRIAL_WAITING_WORKBUDDY"@,
{
    if !running {
        return Err(AppError::new("TRIAL_WAITING_WORKBUDDY", "WorkBuddy 已关闭；恢复记录已保留，待它重新连接后验证恢复结果。"));
    }
    Ok(())
}

/// What a recovery does on the renderer it reached.
#[derive(PartialEq, Eq, Structural, Clone, Copy, Debug)]
pub enum RecoveryAction {
    /// The page shows a theme state the trial does not know: automatic keeping is switched
    /// off and the user decides (`TRIAL_EXTERNAL_CHANGE`).
    PauseKeeping,
    /// Apply again the theme the trial began from.
    ApplyPrevious,
    /// Remove the theme and check that no theme node is left.
    RestoreOriginal,
}

/// The recovery's action: an unknown page state is never overwritten unless the user
/// asked to restore whatever it shows; otherwise the trial returns to the theme it began
/// from, or to the original look when it began without one.
pub fn recovery_plan(restore_external: bool, surface_known: bool, has_previous: bool) -> (r:
    RecoveryAction)
    ensures
        r == if !restore_external && !surface_known {
            RecoveryAction::PauseKeeping
        } else if has_previous {
            RecoveryAction::ApplyPrevious
        } else {
            RecoveryAction::RestoreOriginal
        },
{
    if !restore_external && !surface_known {
        RecoveryAction::PauseKeeping
    } else if has_previous {
        RecoveryAction::ApplyPrevious
    } else {
        RecoveryAction::RestoreOriginal
    }
}

/// The error a recovery stops with when the page shows an unknown theme state.
pub fn external_change() -> (e: AppError)
    ensures
        e.code@ == "TRIAL_EXTERNAL_CHANGE"@,
{
    AppError::new("TRIAL_EXTERNAL_CHANGE", "检测到外部换肤，已暂停自动保持；请手动选择保留当前外观或恢复原版。")
}

/// Restoring the original look is verified only when no theme node is left.
pub fn original_restored(style_node_count: u32) -> (r: AppResult<()>)
    ensures
        r is Ok <==> style_node_count == 0,
        r matches Err(e) ==> e.code@ == "RESTORE_VERIFY_FAILED"@,
{
    if style_node_count != 0 {
        return Err(AppError::new("RESTORE_VERIFY_FAILED", "原版恢复尚未验证。"));
    }
    Ok(())
}

/// A failed recovery leaves the trial waiting for the next one, with the failure's code.
pub fn recovery_failed(session: &mut TrialSession, code: &str)
    ensures
        final(session).phase@ == "pendingRecovery"@,
        opt_string(final(session).error) == Some(code@),
        *final(session) == (TrialSession {
            phase: final(session).phase,
            error: final(session).error,
            ..*old(session)
        }),
{
    session.phase = "pendingRecovery".to_string();
    session.error = Some(code.to_string());
}

/// The text of an optional string.
pub open spec fn opt_string(s: Option<String>) -> Option<Seq<char>> {
    match s {
        Some(t) => Some(t@),
        None => None,
    }
}

impl TrialSession {
    /// A trial being prepared: no lease yet, nothing synced, no error.
    pub fn preparing(id: String, name: String) -> (r: TrialSession)
        ensures
            r.id == id,
            r.name == name,
            r.phase@ == "preparing"@,
            r.deadline_ms == 0,
            r.error is None,
            r.synced_sequence is None,
            r.css_hash is None,
    {
        TrialSession {
            id,
            name,
            phase: "preparing".to_string(),
            deadline_ms: 0,
            error: None,
            synced_sequence: None,
            css_hash: None,
        }
    }

    /// The trial waits for recovery; nothing else changes.
    pub fn await_recovery(&mut self)
        ensures
            final(self).phase@ == "pendingRecovery"@,
            *final(self) == (TrialSession { phase: final(self).phase, ..*old(self) }),
    {
        self.phase = "pendingRecovery".to_string();
    }

    /// The trial is being kept: its theme is saved and applied for good; nothing else
    /// changes.
    pub fn begin_commit(&mut self)
        ensures
            final(self).phase@ == "committing"@,
            *final(self) == (TrialSession { phase: final(self).phase, ..*old(self) }),
    {
        self.phase = "committing".to_string();
    }
}

} // verus!
