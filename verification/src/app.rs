use vstd::prelude::*;
use vstd::string::StringExecFns;
use crate::text::{decimal, push_char, push_decimal, push_zero_padded, zero_padded};
use crate::theme::{light_theme, spec_light_base16, Color, Theme};

verus! {

/// A change that a calendar sync made to the stored items.
#[derive(Clone, Debug, PartialEq, Eq)]
pub enum CalendarChange {
    Created { title: String },
    Updated { title: String },
    Removed { title: String },
}

/// A wall-clock time of day in the local time zone.
#[derive(Clone, Copy, Debug, PartialEq, Eq, Structural)]
pub struct ClockTime {
    pub hour: u8,
    pub minute: u8,
}

/// What the sync worker reports. Instants are Unix seconds; `synced_at` is the
/// local time of day at which the sync finished.
#[derive(Clone, Debug)]
pub enum SyncStatus {
    Syncing { calendar: String },
    Synced { synced_at: ClockTime, next_sync_at: i64, changes: Vec<CalendarChange> },
    Failed { calendar: String, error: String, next_sync_at: i64 },
}

/// A navigation request queued by a button of the screen.
#[derive(Clone, Copy, Debug, PartialEq, Eq, Structural)]
pub enum LayoutAction {
    ShiftWeeks(i64),
    ResetWeeks,
}

/// What the footer shows about syncing.
pub struct SyncFooterState {
    pub syncing: bool,
    pub next_sync_at: Option<i64>,
    pub latest_changes: String,
}

impl SyncFooterState {
    pub fn new() -> (s: Self)
        ensures
            !s.syncing,
            s.next_sync_at is None,
            s.latest_changes@ == "no sync changes yet"@,
    {
        SyncFooterState { syncing: false, next_sync_at: None, latest_changes: String::from_str("no sync changes yet") }
    }
}

/// The decisions of the screen: which weeks it shows and what the footer says.
pub struct AppState {
    pub sync_footer: SyncFooterState,
    pub week_offset: i64,
    /// When the user last moved to other weeks, in Unix seconds.
    pub last_navigation_at: Option<i64>,
}

/// How one change is described: `created "title"`, `updated "title"` or `removed "title"`.
pub open spec fn describe_change(c: CalendarChange) -> Seq<char> {
    match c {
        CalendarChange::Created { title } => "created "@ + seq!['"'] + title@ + seq!['"'],
        CalendarChange::Updated { title } => "updated "@ + seq!['"'] + title@ + seq!['"'],
        CalendarChange::Removed { title } => "removed "@ + seq!['"'] + title@ + seq!['"'],
    }
}

/// The descriptions of the first `n` changes, joined by `, `.
pub open spec fn spec_join_changes(changes: Seq<CalendarChange>, n: nat) -> Seq<char>
    decreases n,
{
    if n == 0 {
        Seq::empty()
    } else if n == 1 {
        describe_change(changes[0])
    } else {
        spec_join_changes(changes, (n - 1) as nat) + ", "@ + describe_change(changes[n - 1])
    }
}

/// The footer's summary of a sync: the first three changes, joined by `, `.
pub open spec fn spec_format_changes(changes: Seq<CalendarChange>) -> Seq<char> {
    spec_join_changes(changes, if changes.len() < 3 { changes.len() } else { 3 })
}

fn push_change(s: &mut String, c: &CalendarChange)
    ensures
        final(s)@ == old(s)@ + describe_change(*c),
{
    proof {
        reveal_strlit("created ");
        reveal_strlit("updated ");
        reveal_strlit("removed ");
    }
    match c {
        CalendarChange::Created { title } => {
            s.append("created ");
            push_char(s, '"');
            s.append(title.as_str());
        },
        CalendarChange::Updated { title } => {
            s.append("updated ");
            push_char(s, '"');
            s.append(title.as_str());
        },
        CalendarChange::Removed { title } => {
            s.append("removed ");
            push_char(s, '"');
            s.append(title.as_str());
        },
    }
    push_char(s, '"');
    assert(final(s)@ =~= old(s)@ + describe_change(*c));
}

/// Describes at most the first three changes of a sync.
pub fn format_changes(changes: &[CalendarChange]) -> (text: String)
    ensures
        text@ == spec_format_changes(changes@),
{
    let n = if changes.len() < 3 { changes.len() } else { 3 };
    let mut text = String::new();
    let mut i: usize = 0;
    while i < n
        invariant
            n <= changes@.len(),
            n <= 3,
            i <= n,
            text@ == spec_join_changes(changes@, i as nat),
        decreases n - i,
    {
        if i > 0 {
            proof {
                reveal_strlit(", ");
            }
            text.append(", ");
        }
        push_change(&mut text, &changes[i]);
        assert(text@ =~= spec_join_changes(changes@, (i + 1) as nat));
        i += 1;
    }
    text
}

/// The seconds left until `next_sync_at`, never negative.
pub open spec fn seconds_left(next_sync_at: i64, now: i64) -> nat {
    if next_sync_at > now { (next_sync_at - now) as nat } else { 0 }
}

/// A countdown as `MM:SS`, minutes and seconds each at least two digits.
pub open spec fn spec_format_countdown(next_sync_at: i64, now: i64) -> Seq<char> {
    let s = seconds_left(next_sync_at, now);
    zero_padded(decimal(s / 60), 2) + ":"@ + zero_padded(decimal(s % 60), 2)
}

/// The time left until the next sync, as `MM:SS`.
pub fn format_countdown(next_sync_at: i64, now: i64) -> (text: String)
    ensures
        text@ == spec_format_countdown(next_sync_at, now),
{
    let seconds: u64 = if next_sync_at > now { (next_sync_at as i128 - now as i128) as u64 } else { 0 };
    let mut text = String::new();
    push_zero_padded(&mut text, seconds / 60, 2);
    proof {
        reveal_strlit(":");
    }
    text.append(":");
    push_zero_padded(&mut text, seconds % 60, 2);
    assert(text@ =~= spec_format_countdown(next_sync_at, now));
    text
}

/// A local time of day as `HH:MM`.
pub open spec fn spec_clock(t: ClockTime) -> Seq<char> {
    zero_padded(decimal(t.hour as nat), 2) + ":"@ + zero_padded(decimal(t.minute as nat), 2)
}

/// What the footer's last line says after a sync report.
pub open spec fn spec_latest_changes(status: SyncStatus) -> Seq<char> {
    match status {
        SyncStatus::Syncing { calendar } => "syncing "@ + calendar@,
        SyncStatus::Synced { synced_at, changes, .. } => if changes@.len() > 0 {
            "updated "@ + spec_clock(synced_at) + ": "@ + spec_format_changes(changes@)
        } else {
            "updated "@ + spec_clock(synced_at) + ": no changes"@
        },
        SyncStatus::Failed { calendar, error, .. } => "sync failed "@ + calendar@ + ": "@ + error@,
    }
}

/// What the footer shows: icon, icon color and the two status lines.
pub struct FooterView {
    pub color: Color,
    pub icon: &'static str,
    pub status: String,
    pub latest_changes: String,
}

/// How long the screen stays on other weeks without being touched before it
/// returns to the current week: two minutes.
pub open spec fn idle_reset_seconds() -> int {
    120
}

/// The week offset after a navigation request: a shift adds its weeks, a reset
/// returns to the current week.
pub open spec fn action_week_offset(offset: int, action: Option<LayoutAction>) -> int {
    match action {
        None => offset,
        Some(LayoutAction::ShiftWeeks(delta)) => offset + delta,
        Some(LayoutAction::ResetWeeks) => 0,
    }
}

/// When the user last navigated, after a navigation request at `now`.
pub open spec fn action_last_navigation(
    offset: int,
    last: Option<i64>,
    action: Option<LayoutAction>,
    now: i64,
) -> Option<i64> {
    match action {
        None => last,
        Some(LayoutAction::ShiftWeeks(_)) => Some(now),
        Some(LayoutAction::ResetWeeks) => if offset == 0 { last } else { None },
    }
}

/// Whether a navigation request changes the shown weeks (so the calendar is rebuilt).
pub open spec fn action_rebuilds(offset: int, action: Option<LayoutAction>) -> bool {
    match action {
        None => false,
        Some(LayoutAction::ShiftWeeks(_)) => true,
        Some(LayoutAction::ResetWeeks) => offset != 0,
    }
}

/// Navigation laws: shifting forward and back by the same number of weeks returns
/// to the same weeks; a reset always shows the current week, and a reset while the
/// current week is shown changes nothing.
pub proof fn lemma_navigation(offset: int, delta: i64, neg_delta: i64, last: Option<i64>, now: i64)
    requires
        neg_delta == -delta,
    ensures
        action_week_offset(
            action_week_offset(offset, Some(LayoutAction::ShiftWeeks(delta))),
            Some(LayoutAction::ShiftWeeks(neg_delta)),
        ) == offset,
        action_week_offset(offset, Some(LayoutAction::ResetWeeks)) == 0,
        action_week_offset(0, Some(LayoutAction::ResetWeeks)) == 0,
        !action_rebuilds(0, Some(LayoutAction::ResetWeeks)),
        action_last_navigation(0, last, Some(LayoutAction::ResetWeeks), now) == last,
{
}

/// The status line of the footer: `sync in progress` while syncing, else a
/// countdown to the next sync, or `next sync pending` before any report.
pub open spec fn footer_status_text(syncing: bool, next_sync_at: Option<i64>, now: i64) -> Seq<char> {
    if syncing {
        "sync in progress"@
    } else if let Some(next) = next_sync_at {
        "next sync in "@ + spec_format_countdown(next, now)
    } else {
        "next sync pending"@
    }
}

/// Once a sync has reported, finished or failed, the footer no longer says
/// `next sync pending`: it counts down to the next sync.
pub proof fn lemma_reported_sync_not_pending(next_sync_at: i64, now: i64)
    ensures
        footer_status_text(false, Some(next_sync_at), now) != "next sync pending"@,
        footer_status_text(false, Some(next_sync_at), now) == "next sync in "@ + spec_format_countdown(next_sync_at, now),
{
    reveal_strlit("next sync in ");
    reveal_strlit("next sync pending");
    let t = footer_status_text(false, Some(next_sync_at), now);
    assert(t[10] == 'i');
    assert("next sync pending"@[10] == 'p');
}

impl AppState {
    pub fn new() -> (s: Self)
        ensures
            s.week_offset == 0,
            s.last_navigation_at is None,
            !s.sync_footer.syncing,
            s.sync_footer.next_sync_at is None,
            s.sync_footer.latest_changes@ == "no sync changes yet"@,
    {
        AppState { sync_footer: SyncFooterState::new(), week_offset: 0, last_navigation_at: None }
    }

    /// Takes a sync report into the footer. Returns whether the calendar must be
    /// rebuilt: only after a sync that changed something.
    pub fn handle_sync_status(&mut self, status: SyncStatus) -> (rebuild: bool)
        ensures
            rebuild == (status matches SyncStatus::Synced { changes, .. } && changes@.len() > 0),
            final(self).sync_footer.syncing == (status is Syncing),
            final(self).sync_footer.next_sync_at == match status {
                SyncStatus::Syncing { .. } => old(self).sync_footer.next_sync_at,
                SyncStatus::Synced { next_sync_at, .. } => Some(next_sync_at),
                SyncStatus::Failed { next_sync_at, .. } => Some(next_sync_at),
            },
            final(self).sync_footer.latest_changes@ == spec_latest_changes(status),
            final(self).week_offset == old(self).week_offset,
            final(self).last_navigation_at == old(self).last_navigation_at,
    {
        let ghost st = status;
        let mut rebuild_calendar = false;
        let mut text = String::new();
        match status {
            SyncStatus::Syncing { calendar } => {
                self.sync_footer.syncing = true;
                proof {
                    reveal_strlit("syncing ");
                }
                text.append("syncing ");
                text.append(calendar.as_str());
            },
            SyncStatus::Synced { synced_at, next_sync_at, changes } => {
                self.sync_footer.syncing = false;
                self.sync_footer.next_sync_at = Some(next_sync_at);
                proof {
                    reveal_strlit("updated ");
                    reveal_strlit(": ");
                    reveal_strlit(": no changes");
                    reveal_strlit(":");
                }
                text.append("updated ");
                push_zero_padded(&mut text, synced_at.hour as u64, 2);
                text.append(":");
                push_zero_padded(&mut text, synced_at.minute as u64, 2);
                if changes.len() > 0 {
                    rebuild_calendar = true;
                    text.append(": ");
                    let summary = format_changes(changes.as_slice());
                    text.append(summary.as_str());
                } else {
                    text.append(": no changes");
                }
            },
            SyncStatus::Failed { calendar, error, next_sync_at } => {
                self.sync_footer.syncing = false;
                self.sync_footer.next_sync_at = Some(next_sync_at);
                proof {
                    reveal_strlit("sync failed ");
                    reveal_strlit(": ");
                }
                text.append("sync failed ");
                text.append(calendar.as_str());
                text.append(": ");
                text.append(error.as_str());
            },
        }
        assert(text@ =~= spec_latest_changes(st));
        self.sync_footer.latest_changes = text;
        rebuild_calendar
    }

    /// What the footer shows at time `now`: while syncing the `incomplete` icon in the
    /// theme's success color and `sync in progress`; otherwise the `circle-fill` icon in
    /// the text color and a countdown to the next sync, or `next sync pending` before
    /// the first report.
    pub fn footer(&self, now: i64) -> (view: FooterView)
        ensures
            view.color == (if self.sync_footer.syncing {
                Theme::spec_from_base16(spec_light_base16()).success
            } else {
                Theme::spec_from_base16(spec_light_base16()).text
            }),
            view.icon@ == (if self.sync_footer.syncing { "incomplete"@ } else { "circle-fill"@ }),
            view.status@ == footer_status_text(self.sync_footer.syncing, self.sync_footer.next_sync_at, now),
            view.latest_changes@ == self.sync_footer.latest_changes@,
    {
        let theme = light_theme();
        let color = if self.sync_footer.syncing { theme.success } else { theme.text };
        let status = if self.sync_footer.syncing {
            String::from_str("sync in progress")
        } else if let Some(next_sync_at) = self.sync_footer.next_sync_at {
            let mut s = String::from_str("next sync in ");
            let countdown = format_countdown(next_sync_at, now);
            s.append(countdown.as_str());
            s
        } else {
            String::from_str("next sync pending")
        };
        let icon = if self.sync_footer.syncing { "incomplete" } else { "circle-fill" };
        FooterView { color, icon, status, latest_changes: self.sync_footer.latest_changes.clone() }
    }

    /// Carries out a queued navigation request at time `now`. Returns whether the
    /// calendar must be rebuilt: after every shift, and after a reset that changed
    /// the shown weeks.
    pub fn handle_layout_action(&mut self, action: Option<LayoutAction>, now: i64) -> (rebuild: bool)
        requires
            i64::MIN <= action_week_offset(old(self).week_offset as int, action) <= i64::MAX,
        ensures
            rebuild == action_rebuilds(old(self).week_offset as int, action),
            final(self).week_offset == action_week_offset(old(self).week_offset as int, action),
            final(self).last_navigation_at == action_last_navigation(
                old(self).week_offset as int,
                old(self).last_navigation_at,
                action,
                now,
            ),
            final(self).sync_footer == old(self).sync_footer,
    {
        match action {
            None => false,
            Some(LayoutAction::ShiftWeeks(delta)) => {
                self.week_offset = self.week_offset + delta;
                self.last_navigation_at = Some(now);
                true
            },
            Some(LayoutAction::ResetWeeks) => {
                if self.week_offset == 0 {
                    return false;
                }
                self.week_offset = 0;
                self.last_navigation_at = None;
                true
            },
        }
    }

    /// Returns to the current week when the screen has shown other weeks for two
    /// minutes since the last navigation. Returns whether it did (and the calendar
    /// must be rebuilt).
    pub fn reset_after_idle(&mut self, now: i64) -> (reset: bool)
        ensures
            reset == (old(self).week_offset != 0 && match old(self).last_navigation_at {
                Some(at) => now - at >= idle_reset_seconds(),
                None => false,
            }),
            reset ==> final(self).week_offset == 0 && final(self).last_navigation_at is None,
            !reset ==> *final(self) == *old(self),
            final(self).sync_footer == old(self).sync_footer,
    {
        let last = match self.last_navigation_at {
            Some(at) => at,
            None => {
                return false;
            },
        };
        if self.week_offset == 0 || (now as i128) - (last as i128) < 120 {
            return false;
        }
        self.week_offset = 0;
        self.last_navigation_at = None;
        true
    }
}

} // verus!
