//! The poll scheduler's state and decisions: the running flag, the refresh
//! interval and its floor, the rate limit, the single-flight fetch gate,
//! per-account session failures and pauses, and the adaptive interval.
//!
//! The loop itself, the provider calls and the delivery of events stand
//! outside: they ask these functions what to do and report what happened.

use crate::credentials::{field_set, CredentialService};
use crate::error::{prefixed, AppError, ProviderError};
use crate::history::{appended, HistoryService};
use crate::models::{Account, AppSettings, UsageData, UsageLimit};
use crate::notifications::{
    process_spec, reset_soon_due, Alert, NotificationService, NotificationState,
};
use crate::table::AccountTable;
use vstd::prelude::*;
use vstd::string::*;

verus! {

/// Minimum time between fetches, and the floor of the refresh interval.
pub const MIN_REFRESH_INTERVAL_SECS: u64 = 10;

/// A gap between loop ticks longer than this means the system slept.
pub const SLEEP_DETECTION_THRESHOLD_SECS: u64 = 30;

/// Consecutive authentication failures after which an account is paused.
pub const MAX_SESSION_ERRORS: u64 = 3;

/// Refresh interval before settings are read.
pub const DEFAULT_INTERVAL_SECS: u64 = 300;

/// `max(secs, floor)`.
pub open spec fn floored_interval(secs: u64) -> u64 {
    if secs < MIN_REFRESH_INTERVAL_SECS {
        MIN_REFRESH_INTERVAL_SECS
    } else {
        secs
    }
}

/// Whether a fetch may start at `now` (milliseconds) after the last one at
/// `last` (0 when there was none): at least the floor must have passed.
pub open spec fn can_fetch_at(last: u64, now: u64) -> bool {
    last == 0 || (now >= last && now - last >= MIN_REFRESH_INTERVAL_SECS * 1000)
}

pub open spec fn paused_in(m: Map<Seq<char>, bool>, id: Seq<char>) -> bool {
    m.contains_key(id) && m[id]
}

pub open spec fn count_in(m: Map<Seq<char>, u64>, id: Seq<char>) -> u64 {
    if m.contains_key(id) {
        m[id]
    } else {
        0
    }
}

/// `n + 1`, saturating at the largest `u64`.
pub open spec fn bumped(n: u64) -> u64 {
    if n == u64::MAX {
        n
    } else {
        (n + 1) as u64
    }
}

/// Pause flags and error counts after an authentication failure of `id`:
/// a paused account stays as it is; another counts the failure, and is
/// paused once the count reaches the threshold.
pub open spec fn after_auth_failure(
    paused: Map<Seq<char>, bool>,
    counts: Map<Seq<char>, u64>,
    id: Seq<char>,
) -> (Map<Seq<char>, bool>, Map<Seq<char>, u64>) {
    if paused_in(paused, id) {
        (paused, counts)
    } else {
        let n = bumped(count_in(counts, id));
        (
            if n >= MAX_SESSION_ERRORS {
                paused.insert(id, true)
            } else {
                paused
            },
            counts.insert(id, n),
        )
    }
}

/// Pause flags and error counts after a successful fetch of `id`: both
/// cleared when either was set.
pub open spec fn after_success(
    paused: Map<Seq<char>, bool>,
    counts: Map<Seq<char>, u64>,
    id: Seq<char>,
) -> (Map<Seq<char>, bool>, Map<Seq<char>, u64>) {
    if count_in(counts, id) > 0 || paused_in(paused, id) {
        (paused.insert(id, false), counts.insert(id, 0))
    } else {
        (paused, counts)
    }
}

/// The refresh interval for the highest utilization seen in a cycle
/// (hundredths of a percent), by bands with inclusive lower bounds.
pub open spec fn adaptive_interval_for(max_utilization: u32) -> u64 {
    if max_utilization >= 9000 {
        60
    } else if max_utilization >= 7500 {
        180
    } else if max_utilization >= 5000 {
        300
    } else {
        600
    }
}

/// The highest utilization among `lims`, and `floor` when none is higher.
pub open spec fn max_utilization_of(floor: u32, lims: Seq<UsageLimit>) -> u32
    decreases lims.len(),
{
    if lims.len() == 0 {
        floor
    } else {
        let m = max_utilization_of(floor, lims.drop_last());
        if lims.last().utilization > m {
            lims.last().utilization
        } else {
            m
        }
    }
}

/// Once a fetch is recorded at `t1`, a refresh at `t2` (not earlier) is
/// refused while less than the floor has passed, and allowed after.
pub proof fn law_refresh_rate_limit(t1: u64, t2: u64)
    requires
        t1 > 0,
        t2 >= t1,
    ensures
        t2 - t1 < MIN_REFRESH_INTERVAL_SECS * 1000 ==> !can_fetch_at(t1, t2),
        t2 - t1 >= MIN_REFRESH_INTERVAL_SECS * 1000 ==> can_fetch_at(t1, t2),
{
}

/// Three consecutive authentication failures of an active account pause
/// it with an error count of three; a fourth changes nothing.
pub proof fn law_three_auth_failures_pause(
    paused: Map<Seq<char>, bool>,
    counts: Map<Seq<char>, u64>,
    id: Seq<char>,
)
    requires
        !paused_in(paused, id),
        count_in(counts, id) == 0,
    ensures
        ({
            let s1 = after_auth_failure(paused, counts, id);
            let s2 = after_auth_failure(s1.0, s1.1, id);
            let s3 = after_auth_failure(s2.0, s2.1, id);
            let s4 = after_auth_failure(s3.0, s3.1, id);
            &&& !paused_in(s1.0, id) && count_in(s1.1, id) == 1
            &&& !paused_in(s2.0, id) && count_in(s2.1, id) == 2
            &&& paused_in(s3.0, id) && count_in(s3.1, id) == 3
            &&& s4 == s3
        }),
{
}

/// A successful fetch leaves the account active with no errors counted.
pub proof fn law_success_clears(
    paused: Map<Seq<char>, bool>,
    counts: Map<Seq<char>, u64>,
    id: Seq<char>,
)
    ensures
        ({
            let s = after_success(paused, counts, id);
            !paused_in(s.0, id) && count_in(s.1, id) == 0
        }),
{
}

/// Shared state of the scheduler.
pub struct SchedulerState {
    running: bool,
    /// Accounts paused after repeated authentication failures.
    paused_accounts: AccountTable<bool>,
    /// Consecutive authentication failures per account.
    session_error_counts: AccountTable<u64>,
    /// Start of the last fetch, in milliseconds since the epoch; 0 for none.
    last_fetch: u64,
    interval_secs: u64,
    /// The single-flight gate: a fetch cycle is under way.
    fetch_in_progress: bool,
    /// The last snapshot of each account, to detect resets against.
    previous_usage: AccountTable<UsageData>,
    notification_state: NotificationState,
}

impl SchedulerState {
    pub closed spec fn running_view(&self) -> bool {
        self.running
    }

    pub closed spec fn paused_view(&self) -> Map<Seq<char>, bool> {
        self.paused_accounts@
    }

    pub closed spec fn counts_view(&self) -> Map<Seq<char>, u64> {
        self.session_error_counts@
    }

    pub closed spec fn last_fetch_view(&self) -> u64 {
        self.last_fetch
    }

    pub closed spec fn interval_view(&self) -> u64 {
        self.interval_secs
    }

    pub closed spec fn busy_view(&self) -> bool {
        self.fetch_in_progress
    }

    pub closed spec fn previous_view(&self) -> Map<Seq<char>, UsageData> {
        self.previous_usage@
    }

    pub closed spec fn notifications_view(&self) -> NotificationState {
        self.notification_state
    }

    /// The tables are well formed and the interval is at least the floor.
    pub closed spec fn wf(&self) -> bool {
        &&& self.paused_accounts.wf()
        &&& self.session_error_counts.wf()
        &&& self.previous_usage.wf()
        &&& self.interval_secs >= MIN_REFRESH_INTERVAL_SECS
    }

    /// A stopped scheduler with the default interval and no account state.
    pub fn new() -> (r: Self)
        ensures
            r.wf(),
            !r.running_view(),
            r.paused_view() == Map::<Seq<char>, bool>::empty(),
            r.counts_view() == Map::<Seq<char>, u64>::empty(),
            r.previous_view() == Map::<Seq<char>, UsageData>::empty(),
            r.last_fetch_view() == 0,
            r.interval_view() == DEFAULT_INTERVAL_SECS,
            !r.busy_view(),
            r.notifications_view().thresholds() == Set::<(Seq<char>, Seq<char>, u32)>::empty(),
            r.notifications_view().warnings() == Set::<(Seq<char>, Seq<char>)>::empty(),
    {
        SchedulerState {
            running: false,
            paused_accounts: AccountTable::new(),
            session_error_counts: AccountTable::new(),
            last_fetch: 0,
            interval_secs: DEFAULT_INTERVAL_SECS,
            fetch_in_progress: false,
            previous_usage: AccountTable::new(),
            notification_state: NotificationState::new(),
        }
    }

    pub fn is_running(&self) -> (r: bool)
        ensures
            r == self.running_view(),
    {
        self.running
    }

    pub fn set_running(&mut self, running: bool)
        requires
            old(self).wf(),
        ensures
            final(self).wf(),
            final(self).running_view() == running,
            final(self).paused_view() == old(self).paused_view(),
            final(self).counts_view() == old(self).counts_view(),
            final(self).last_fetch_view() == old(self).last_fetch_view(),
            final(self).interval_view() == old(self).interval_view(),
            final(self).busy_view() == old(self).busy_view(),
            final(self).previous_view() == old(self).previous_view(),
            final(self).notifications_view() == old(self).notifications_view(),
    {
        self.running = running;
    }

    pub fn is_account_paused(&self, account_id: &str) -> (r: bool)
        requires
            self.wf(),
        ensures
            r == paused_in(self.paused_view(), account_id@),
    {
        match self.paused_accounts.get(account_id) {
            Some(p) => *p,
            None => false,
        }
    }

    pub fn set_account_paused(&mut self, account_id: &str, paused: bool)
        requires
            old(self).wf(),
        ensures
            final(self).wf(),
            final(self).paused_view() == old(self).paused_view().insert(account_id@, paused),
            final(self).counts_view() == old(self).counts_view(),
            final(self).running_view() == old(self).running_view(),
            final(self).last_fetch_view() == old(self).last_fetch_view(),
            final(self).interval_view() == old(self).interval_view(),
            final(self).busy_view() == old(self).busy_view(),
            final(self).previous_view() == old(self).previous_view(),
            final(self).notifications_view() == old(self).notifications_view(),
    {
        self.paused_accounts.insert(account_id, paused);
    }

    pub fn any_account_paused(&self) -> (r: bool)
        requires
            self.wf(),
        ensures
            r == exists|k: Seq<char>| paused_in(self.paused_view(), k),
    {
        let r = self.paused_accounts.any_true();
        proof {
            if r {
                let k = choose|k: Seq<char>| self.paused_accounts@.contains_key(k) && #[trigger] self.paused_accounts@[k];
                assert(paused_in(self.paused_view(), k));
            } else {
                assert forall|k: Seq<char>| !#[trigger] paused_in(self.paused_view(), k) by {
                    if self.paused_accounts@.contains_key(k) {
                        assert(!self.paused_accounts@[k]);
                    }
                }
            }
        }
        r
    }

    pub fn get_account_error_count(&self, account_id: &str) -> (r: u64)
        requires
            self.wf(),
        ensures
            r == count_in(self.counts_view(), account_id@),
    {
        match self.session_error_counts.get(account_id) {
            Some(n) => *n,
            None => 0,
        }
    }

    /// Counts one more consecutive failure and returns the new count.
    pub fn increment_account_error_count(&mut self, account_id: &str) -> (r: u64)
        requires
            old(self).wf(),
        ensures
            final(self).wf(),
            r == bumped(count_in(old(self).counts_view(), account_id@)),
            final(self).counts_view() == old(self).counts_view().insert(account_id@, r),
            final(self).paused_view() == old(self).paused_view(),
            final(self).running_view() == old(self).running_view(),
            final(self).last_fetch_view() == old(self).last_fetch_view(),
            final(self).interval_view() == old(self).interval_view(),
            final(self).busy_view() == old(self).busy_view(),
            final(self).previous_view() == old(self).previous_view(),
            final(self).notifications_view() == old(self).notifications_view(),
    {
        let n = self.get_account_error_count(account_id);
        let m = if n == u64::MAX {
            n
        } else {
            n + 1
        };
        self.session_error_counts.insert(account_id, m);
        m
    }

    pub fn reset_account_error_count(&mut self, account_id: &str)
        requires
            old(self).wf(),
        ensures
            final(self).wf(),
            final(self).counts_view() == old(self).counts_view().insert(account_id@, 0),
            final(self).paused_view() == old(self).paused_view(),
            final(self).running_view() == old(self).running_view(),
            final(self).last_fetch_view() == old(self).last_fetch_view(),
            final(self).interval_view() == old(self).interval_view(),
            final(self).busy_view() == old(self).busy_view(),
            final(self).previous_view() == old(self).previous_view(),
            final(self).notifications_view() == old(self).notifications_view(),
    {
        self.session_error_counts.insert(account_id, 0);
    }

    /// Clears every account's pause flag and error count at once.
    pub fn reset_all_account_states(&mut self)
        requires
            old(self).wf(),
        ensures
            final(self).wf(),
            final(self).paused_view() == Map::<Seq<char>, bool>::empty(),
            final(self).counts_view() == Map::<Seq<char>, u64>::empty(),
            final(self).running_view() == old(self).running_view(),
            final(self).last_fetch_view() == old(self).last_fetch_view(),
            final(self).interval_view() == old(self).interval_view(),
            final(self).busy_view() == old(self).busy_view(),
            final(self).previous_view() == old(self).previous_view(),
            final(self).notifications_view() == old(self).notifications_view(),
    {
        self.paused_accounts.clear();
        self.session_error_counts.clear();
    }

    pub fn get_interval(&self) -> (r: u64)
        ensures
            r == self.interval_view(),
    {
        self.interval_secs
    }

    /// Sets the refresh interval, raised to the floor when below it.
    pub fn set_interval(&mut self, secs: u64)
        requires
            old(self).wf(),
        ensures
            final(self).wf(),
            final(self).interval_view() == floored_interval(secs),
            final(self).running_view() == old(self).running_view(),
            final(self).paused_view() == old(self).paused_view(),
            final(self).counts_view() == old(self).counts_view(),
            final(self).last_fetch_view() == old(self).last_fetch_view(),
            final(self).busy_view() == old(self).busy_view(),
            final(self).previous_view() == old(self).previous_view(),
            final(self).notifications_view() == old(self).notifications_view(),
    {
        self.interval_secs = if secs < MIN_REFRESH_INTERVAL_SECS {
            MIN_REFRESH_INTERVAL_SECS
        } else {
            secs
        };
    }

    pub fn get_last_fetch(&self) -> (r: u64)
        ensures
            r == self.last_fetch_view(),
    {
        self.last_fetch
    }

    pub fn set_last_fetch(&mut self, millis: u64)
        requires
            old(self).wf(),
        ensures
            final(self).wf(),
            final(self).last_fetch_view() == millis,
            final(self).running_view() == old(self).running_view(),
            final(self).paused_view() == old(self).paused_view(),
            final(self).counts_view() == old(self).counts_view(),
            final(self).interval_view() == old(self).interval_view(),
            final(self).busy_view() == old(self).busy_view(),
            final(self).previous_view() == old(self).previous_view(),
            final(self).notifications_view() == old(self).notifications_view(),
    {
        self.last_fetch = millis;
    }

    /// Whether enough time has passed since the last fetch, at `now_ms`.
    pub fn can_fetch(&self, now_ms: u64) -> (r: bool)
        ensures
            r == can_fetch_at(self.last_fetch_view(), now_ms),
    {
        let last = self.last_fetch;
        if last == 0 {
            return true;
        }
        now_ms >= last && now_ms - last >= MIN_REFRESH_INTERVAL_SECS * 1000
    }

    pub fn get_previous_usage(&self, account_id: &str) -> (r: Option<&UsageData>)
        requires
            self.wf(),
        ensures
            match r {
                Some(d) => self.previous_view().contains_key(account_id@) && self.previous_view()[account_id@] == *d,
                None => !self.previous_view().contains_key(account_id@),
            },
    {
        self.previous_usage.get(account_id)
    }

    pub fn set_previous_usage(&mut self, account_id: &str, data: UsageData)
        requires
            old(self).wf(),
        ensures
            final(self).wf(),
            final(self).previous_view() == old(self).previous_view().insert(account_id@, data),
            final(self).running_view() == old(self).running_view(),
            final(self).paused_view() == old(self).paused_view(),
            final(self).counts_view() == old(self).counts_view(),
            final(self).last_fetch_view() == old(self).last_fetch_view(),
            final(self).interval_view() == old(self).interval_view(),
            final(self).busy_view() == old(self).busy_view(),
            final(self).notifications_view() == old(self).notifications_view(),
    {
        self.previous_usage.insert(account_id, data);
    }

    pub fn notifications(&self) -> (r: &NotificationState)
        ensures
            *r == self.notifications_view(),
    {
        &self.notification_state
    }
}

/// Session status of one account, for the user interface.
#[derive(Debug, Clone)]
pub struct SessionStatusEvent {
    pub account_id: String,
    pub valid: bool,
    pub error_count: u64,
    pub paused: bool,
}

/// The outcome of fetching one account: its snapshot or its error.
#[derive(Debug, Clone)]
pub struct UsageUpdateEvent {
    pub provider: String,
    pub account_id: String,
    pub data: Option<UsageData>,
    pub error: Option<String>,
}

/// The scheduler's status, for the user interface.
#[derive(Debug, Clone, Copy, PartialEq, Eq, Structural)]
pub struct SchedulerStatusEvent {
    pub running: bool,
    pub interval_secs: u64,
    pub next_refresh_secs: Option<u64>,
}

/// The scheduler's status, as returned to callers.
#[derive(Debug, Clone, Copy, PartialEq, Eq, Structural)]
pub struct SchedulerStatusResponse {
    pub running: bool,
    pub interval_secs: u64,
    pub last_fetch: u64,
}

/// Whether any account is paused, as returned to callers.
#[derive(Debug, Clone, Copy, PartialEq, Eq, Structural)]
pub struct SessionStatusResponse {
    pub valid: bool,
    pub error_count: u64,
    pub paused: bool,
}

/// What the poll loop does on a tick.
#[derive(Debug, Clone, Copy, PartialEq, Eq, Structural)]
pub enum TickAction {
    /// The system slept: fetch now and announce the wake.
    WakeFetch,
    /// The interval has passed: fetch.
    Fetch,
    /// Nothing to do.
    Idle,
}

/// Everything that processing one account's fetch produced.
#[derive(Debug, Clone)]
pub struct AccountOutcome {
    pub update: UsageUpdateEvent,
    /// A change of the account's session status, if any.
    pub session: Option<SessionStatusEvent>,
    /// Alerts to deliver, in order; `limit` indexes the snapshot's limits.
    pub alerts: Vec<Alert>,
    /// Positions of the limits found reset.
    pub resets: Vec<usize>,
    /// Whether to deliver the session-expiry notice.
    pub expiry_notice: bool,
}

/// Imminent-reset warnings over the limits `lims`, in order.
pub open spec fn upcoming_all(
    w: Set<(Seq<char>, Seq<char>)>,
    s: crate::models::NotificationSettings,
    account: Seq<char>,
    lims: Seq<UsageLimit>,
    now: i64,
    dnd: bool,
) -> (Set<(Seq<char>, Seq<char>)>, Seq<Alert>)
    decreases lims.len(),
{
    if lims.len() == 0 {
        (w, seq![])
    } else {
        let r = upcoming_all(w, s, account, lims.drop_last(), now, dnd);
        let lim = lims.last();
        if reset_soon_due(&s, r.0, account, &lim, now) && !dnd {
            (
                r.0.insert((account, lim.id@)),
                r.1.push(
                    Alert::ResetSoon {
                        limit: (lims.len() - 1) as usize,
                        minutes: ((lim.resets_at - now) / 60) as i64,
                        percent: lim.percent(),
                    },
                ),
            )
        } else {
            r
        }
    }
}

/// The alert bookkeeping after a successful fetch of `data` for the account
/// `id`: sent thresholds, sent warnings, alerts, and reset limits.
pub open spec fn alerts_after(
    t: Set<(Seq<char>, Seq<char>, u32)>,
    w: Set<(Seq<char>, Seq<char>)>,
    s: crate::models::NotificationSettings,
    id: Seq<char>,
    data: UsageData,
    prev: Option<UsageData>,
    now: i64,
    dnd: bool,
) -> (Set<(Seq<char>, Seq<char>, u32)>, Set<(Seq<char>, Seq<char>)>, Seq<Alert>, Seq<usize>) {
    let sp = if s.enabled {
        process_spec(t, w, s.thresholds@, s.notify_on_reset, data.account_id@, data.limits@, prev, dnd)
    } else {
        (t, w, seq![], seq![])
    };
    let up = upcoming_all(sp.1, s, id, data.limits@, now, dnd);
    (sp.0, up.0, sp.2 + up.1, sp.3)
}

/// The previous snapshot of `id` in `m`.
pub open spec fn previous_of(m: Map<Seq<char>, UsageData>, id: Seq<char>) -> Option<UsageData> {
    if m.contains_key(id) {
        Some(m[id])
    } else {
        None
    }
}

/// The scheduler's decisions.
pub struct SchedulerService;

impl SchedulerService {
    /// Starts the scheduler unless it runs already, seeding the interval
    /// from settings when they could be read. Returns the status to
    /// announce, or `None` when nothing changed.
    pub fn start(state: &mut SchedulerState, settings_interval: Option<u64>) -> (r: Option<SchedulerStatusEvent>)
        requires
            old(state).wf(),
        ensures
            final(state).wf(),
            old(state).running_view() ==> r is None && final(state).interval_view() == old(state).interval_view(),
            !old(state).running_view() ==> {
                &&& final(state).interval_view() == match settings_interval {
                    Some(x) => floored_interval(x),
                    None => old(state).interval_view(),
                }
                &&& r == Some(SchedulerStatusEvent {
                    running: true,
                    interval_secs: final(state).interval_view(),
                    next_refresh_secs: Some(final(state).interval_view()),
                })
            },
            final(state).running_view(),
            final(state).paused_view() == old(state).paused_view(),
            final(state).counts_view() == old(state).counts_view(),
            final(state).last_fetch_view() == old(state).last_fetch_view(),
            final(state).busy_view() == old(state).busy_view(),
            final(state).previous_view() == old(state).previous_view(),
            final(state).notifications_view() == old(state).notifications_view(),
    {
        if state.is_running() {
            return None;
        }
        state.set_running(true);
        match settings_interval {
            Some(x) => state.set_interval(x),
            None => {},
        }
        let interval = state.get_interval();
        Some(SchedulerStatusEvent { running: true, interval_secs: interval, next_refresh_secs: Some(interval) })
    }

    /// Stops the scheduler if it runs. Returns the status to announce, or
    /// `None` when it was not running.
    pub fn stop(state: &mut SchedulerState) -> (r: Option<SchedulerStatusEvent>)
        requires
            old(state).wf(),
        ensures
            final(state).wf(),
            !final(state).running_view(),
            r == (if old(state).running_view() {
                Some(SchedulerStatusEvent {
                    running: false,
                    interval_secs: old(state).interval_view(),
                    next_refresh_secs: None,
                })
            } else {
                None
            }),
            final(state).interval_view() == old(state).interval_view(),
            final(state).paused_view() == old(state).paused_view(),
            final(state).counts_view() == old(state).counts_view(),
            final(state).last_fetch_view() == old(state).last_fetch_view(),
            final(state).busy_view() == old(state).busy_view(),
            final(state).previous_view() == old(state).previous_view(),
            final(state).notifications_view() == old(state).notifications_view(),
    {
        if !state.is_running() {
            return None;
        }
        state.set_running(false);
        Some(SchedulerStatusEvent { running: false, interval_secs: state.get_interval(), next_refresh_secs: None })
    }

    /// Sets the refresh interval to `max(secs, floor)`.
    pub fn set_interval(state: &mut SchedulerState, secs: u64) -> (r: SchedulerStatusEvent)
        requires
            old(state).wf(),
        ensures
            final(state).wf(),
            final(state).interval_view() == floored_interval(secs),
            r == (SchedulerStatusEvent {
                running: old(state).running_view(),
                interval_secs: floored_interval(secs),
                next_refresh_secs: if old(state).running_view() {
                    Some(floored_interval(secs))
                } else {
                    None
                },
            }),
            final(state).running_view() == old(state).running_view(),
            final(state).last_fetch_view() == old(state).last_fetch_view(),
            final(state).busy_view() == old(state).busy_view(),
            final(state).previous_view() == old(state).previous_view(),
            final(state).notifications_view() == old(state).notifications_view(),
            final(state).paused_view() == old(state).paused_view(),
            final(state).counts_view() == old(state).counts_view(),
    {
        state.set_interval(secs);
        let interval = state.get_interval();
        let running = state.is_running();
        SchedulerStatusEvent {
            running,
            interval_secs: interval,
            next_refresh_secs: if running {
                Some(interval)
            } else {
                None
            },
        }
    }

    /// Begins a fetch cycle unless one is running or the rate limit forbids
    /// it. A request while a cycle runs is dropped without an error. A new
    /// cycle sets the last fetch time and holds off others until it ends.
    pub fn begin_fetch(state: &mut SchedulerState, now_ms: u64) -> (r: bool)
        requires
            old(state).wf(),
        ensures
            final(state).wf(),
            r == (!old(state).busy_view() && can_fetch_at(old(state).last_fetch_view(), now_ms)),
            r ==> final(state).busy_view() && final(state).last_fetch_view() == now_ms,
            !r ==> final(state).busy_view() == old(state).busy_view()
                && final(state).last_fetch_view() == old(state).last_fetch_view(),
            final(state).running_view() == old(state).running_view(),
            final(state).interval_view() == old(state).interval_view(),
            final(state).paused_view() == old(state).paused_view(),
            final(state).counts_view() == old(state).counts_view(),
            final(state).previous_view() == old(state).previous_view(),
            final(state).notifications_view() == old(state).notifications_view(),
    {
        if state.fetch_in_progress {
            return false;
        }
        if !state.can_fetch(now_ms) {
            return false;
        }
        state.fetch_in_progress = true;
        state.last_fetch = now_ms;
        true
    }

    /// Opens the fetch gate again; called on every way out of a cycle.
    pub fn end_fetch(state: &mut SchedulerState)
        requires
            old(state).wf(),
        ensures
            final(state).wf(),
            !final(state).busy_view(),
            final(state).running_view() == old(state).running_view(),
            final(state).interval_view() == old(state).interval_view(),
            final(state).last_fetch_view() == old(state).last_fetch_view(),
            final(state).paused_view() == old(state).paused_view(),
            final(state).counts_view() == old(state).counts_view(),
            final(state).previous_view() == old(state).previous_view(),
            final(state).notifications_view() == old(state).notifications_view(),
    {
        state.fetch_in_progress = false;
    }

    /// A refresh on request: refused with a rate-limit error when the last
    /// fetch was less than the floor ago; else it tries to start a cycle and
    /// says whether one started (a cycle under way makes it a silent skip).
    pub fn force_refresh(state: &mut SchedulerState, now_ms: u64) -> (r: Result<bool, AppError>)
        requires
            old(state).wf(),
        ensures
            final(state).wf(),
            r is Err <==> !can_fetch_at(old(state).last_fetch_view(), now_ms),
            r matches Err(e) ==> e is RateLimit,
            r matches Ok(started) ==> {
                &&& started == !old(state).busy_view()
                &&& started ==> final(state).busy_view() && final(state).last_fetch_view() == now_ms
                &&& !started ==> final(state).last_fetch_view() == old(state).last_fetch_view()
                    && final(state).busy_view() == old(state).busy_view()
            },
            r is Err ==> final(state).last_fetch_view() == old(state).last_fetch_view()
                && final(state).busy_view() == old(state).busy_view(),
            final(state).running_view() == old(state).running_view(),
            final(state).interval_view() == old(state).interval_view(),
            final(state).paused_view() == old(state).paused_view(),
            final(state).counts_view() == old(state).counts_view(),
            final(state).previous_view() == old(state).previous_view(),
            final(state).notifications_view() == old(state).notifications_view(),
    {
        if !state.can_fetch(now_ms) {
            return Err(AppError::RateLimit(String::from_str("Please wait before refreshing again")));
        }
        Ok(Self::begin_fetch(state, now_ms))
    }

    /// Clears every account's pause and error count, then refreshes.
    pub fn resume(state: &mut SchedulerState, now_ms: u64) -> (r: Result<bool, AppError>)
        requires
            old(state).wf(),
        ensures
            final(state).wf(),
            final(state).paused_view() == Map::<Seq<char>, bool>::empty(),
            final(state).counts_view() == Map::<Seq<char>, u64>::empty(),
            r is Err <==> !can_fetch_at(old(state).last_fetch_view(), now_ms),
            r matches Ok(started) ==> started == !old(state).busy_view(),
            final(state).previous_view() == old(state).previous_view(),
            final(state).notifications_view() == old(state).notifications_view(),
            r matches Err(e) ==> e is RateLimit,
            r matches Ok(started) ==> (started ==> final(state).busy_view() && final(state).last_fetch_view() == now_ms),
            r matches Ok(started) ==> (!started ==> final(state).last_fetch_view() == old(state).last_fetch_view() && final(state).busy_view() == old(state).busy_view()),
            r is Err ==> final(state).last_fetch_view() == old(state).last_fetch_view() && final(state).busy_view() == old(state).busy_view(),
            final(state).running_view() == old(state).running_view(),
            final(state).interval_view() == old(state).interval_view(),
    {
        state.reset_all_account_states();
        Self::force_refresh(state, now_ms)
    }

    pub fn get_status(state: &SchedulerState) -> (r: SchedulerStatusResponse)
        ensures
            r == (SchedulerStatusResponse {
                running: state.running_view(),
                interval_secs: state.interval_view(),
                last_fetch: state.last_fetch_view(),
            }),
    {
        SchedulerStatusResponse {
            running: state.is_running(),
            interval_secs: state.get_interval(),
            last_fetch: state.get_last_fetch(),
        }
    }

    pub fn get_session_status(state: &SchedulerState) -> (r: SessionStatusResponse)
        requires
            state.wf(),
        ensures
            r.paused == exists|k: Seq<char>| paused_in(state.paused_view(), k),
            r.valid == !r.paused,
            r.error_count == 0,
    {
        let any_paused = state.any_account_paused();
        SessionStatusResponse { valid: !any_paused, error_count: 0, paused: any_paused }
    }

    /// What the loop does on a tick, given the seconds since the previous
    /// tick and since the last check: a gap longer than the sleep threshold
    /// fetches at once; else a fetch is due once the interval has passed.
    pub fn tick_action(since_tick_secs: u64, since_check_secs: u64, interval_secs: u64) -> (r: TickAction)
        ensures
            r == (if since_tick_secs > SLEEP_DETECTION_THRESHOLD_SECS {
                TickAction::WakeFetch
            } else if since_check_secs >= interval_secs {
                TickAction::Fetch
            } else {
                TickAction::Idle
            }),
    {
        if since_tick_secs > SLEEP_DETECTION_THRESHOLD_SECS {
            TickAction::WakeFetch
        } else if since_check_secs >= interval_secs {
            TickAction::Fetch
        } else {
            TickAction::Idle
        }
    }

    /// The positions of the accounts (by id) to fetch in a cycle, in order:
    /// every account that is not paused.
    pub fn accounts_to_fetch(state: &SchedulerState, account_ids: &Vec<String>) -> (r: Vec<usize>)
        requires
            state.wf(),
        ensures
            r@ == Seq::new(account_ids@.len(), |i: int| i as usize).filter(
                |i: usize| !paused_in(state.paused_view(), account_ids@[i as int]@),
            ),
    {
        let ghost all = Seq::new(account_ids@.len(), |i: int| i as usize);
        let ghost keep = |i: usize| !paused_in(state.paused_view(), account_ids@[i as int]@);
        let mut out: Vec<usize> = Vec::new();
        let mut i: usize = 0;
        while i < account_ids.len()
            invariant
                i <= account_ids@.len(),
                state.wf(),
                all == Seq::new(account_ids@.len(), |i: int| i as usize),
                keep == (|i: usize| !paused_in(state.paused_view(), account_ids@[i as int]@)),
                out@ == all.take(i as int).filter(keep),
            decreases account_ids@.len() - i,
        {
            proof {
                assert(all.take(i + 1).drop_last() =~= all.take(i as int));
                assert(all.take(i + 1).last() == i);
                reveal(Seq::filter);
            }
            if !state.is_account_paused(account_ids[i].as_str()) {
                out.push(i);
            }
            i = i + 1;
        }
        proof {
            assert(all.take(account_ids@.len() as int) =~= all);
        }
        out
    }

    /// The adaptive interval for the highest utilization of a cycle.
    pub fn adaptive_interval(max_utilization: u32) -> (r: u64)
        ensures
            r == adaptive_interval_for(max_utilization),
    {
        if max_utilization >= 9000 {
            60
        } else if max_utilization >= 7500 {
            180
        } else if max_utilization >= 5000 {
            300
        } else {
            600
        }
    }

    /// In adaptive mode, moves the interval to the band of the cycle's
    /// highest utilization; announces the status only when it changed.
    pub fn maybe_adjust_interval_from_utilization(
        state: &mut SchedulerState,
        max_utilization: u32,
        adaptive: bool,
    ) -> (r: Option<SchedulerStatusEvent>)
        requires
            old(state).wf(),
        ensures
            final(state).wf(),
            ({
                let new = adaptive_interval_for(max_utilization);
                if adaptive && new != old(state).interval_view() {
                    &&& final(state).interval_view() == new
                    &&& r == Some(SchedulerStatusEvent {
                        running: old(state).running_view(),
                        interval_secs: new,
                        next_refresh_secs: Some(new),
                    })
                } else {
                    &&& final(state).interval_view() == old(state).interval_view()
                    &&& r is None
                }
            }),
            final(state).running_view() == old(state).running_view(),
            final(state).last_fetch_view() == old(state).last_fetch_view(),
            final(state).busy_view() == old(state).busy_view(),
            final(state).paused_view() == old(state).paused_view(),
            final(state).counts_view() == old(state).counts_view(),
            final(state).previous_view() == old(state).previous_view(),
            final(state).notifications_view() == old(state).notifications_view(),
    {
        if !adaptive {
            return None;
        }
        let new_interval = Self::adaptive_interval(max_utilization);
        if new_interval != state.get_interval() {
            state.set_interval(new_interval);
            Some(SchedulerStatusEvent {
                running: state.is_running(),
                interval_secs: new_interval,
                next_refresh_secs: Some(new_interval),
            })
        } else {
            None
        }
    }

    /// The check made before fetching an account: its credentials must
    /// have an organization id and a session key.
    pub fn check_account_credentials(account: &Account) -> (r: Result<(), ProviderError>)
        ensures
            r is Ok <==> (field_set(account.credentials.org_id) && field_set(
                account.credentials.session_key,
            )),
            r matches Err(e) ==> e == ProviderError::InvalidCredentials(e->InvalidCredentials_0)
                && e->InvalidCredentials_0@ == "Missing org_id or session_key for account "@
                + account.name@,
    {
        if CredentialService::validate_claude(&account.credentials) {
            Ok(())
        } else {
            Err(
                ProviderError::InvalidCredentials(
                    prefixed("Missing org_id or session_key for account ", &account.name),
                ),
            )
        }
    }

    /// Handles the outcome of fetching one account.
    ///
    /// On success: clears the account's error count and pause (announcing
    /// the restored session when either was set), raises `max_utilization`
    /// to the snapshot's highest reading, decides alerts against the
    /// previous snapshot, appends the snapshot to `history`, and keeps it as
    /// the previous one.
    ///
    /// On an authentication-class failure: counts it (pausing the account at
    /// the threshold; an account already paused stays as it is), asks for
    /// the session-expiry notice, and announces the session status. Other
    /// failures change nothing. Either way the error is reported.
    pub fn process_account_result(
        state: &mut SchedulerState,
        history: &mut HistoryService,
        settings: &AppSettings,
        account: &Account,
        result: Result<UsageData, AppError>,
        max_utilization: &mut u32,
        now: i64,
        dnd: bool,
    ) -> (r: AccountOutcome)
        requires
            old(state).wf(),
            old(history).wf(),
        ensures
            final(state).wf(),
            final(history).wf(),
            final(state).running_view() == old(state).running_view(),
            final(state).interval_view() == old(state).interval_view(),
            final(state).last_fetch_view() == old(state).last_fetch_view(),
            final(state).busy_view() == old(state).busy_view(),
            r.update.account_id@ == account.id@,
            r.update.provider == account.provider,
            match result {
                Ok(data) => {
                    let id = account.id@;
                    let st = after_success(old(state).paused_view(), old(state).counts_view(), id);
                    let al = alerts_after(
                        old(state).notifications_view().thresholds(),
                        old(state).notifications_view().warnings(),
                        settings.notifications,
                        id,
                        data,
                        previous_of(old(state).previous_view(), id),
                        now,
                        dnd,
                    );
                    &&& final(state).paused_view() == st.0
                    &&& final(state).counts_view() == st.1
                    &&& final(state).previous_view() == old(state).previous_view().insert(id, data)
                    &&& final(state).notifications_view().thresholds() == al.0
                    &&& final(state).notifications_view().warnings() == al.1
                    &&& r.alerts@ == al.2
                    &&& r.resets@ == al.3
                    &&& appended(old(history).entries_view(), data, final(history).entries_view())
                    &&& *final(max_utilization) == max_utilization_of(*old(max_utilization), data.limits@)
                    &&& (r.session is Some <==> (count_in(old(state).counts_view(), id) > 0
                        || paused_in(old(state).paused_view(), id)))
                    &&& (r.session matches Some(ev) ==> ev.account_id@ == id && ev.valid
                        && ev.error_count == 0 && !ev.paused)
                    &&& !r.expiry_notice
                    &&& r.update.error is None
                    &&& (r.update.data matches Some(d) && d.provider == data.provider
                        && d.account_id == data.account_id && d.account_name == data.account_name
                        && d.timestamp == data.timestamp && d.limits@ == data.limits@)
                },
                Err(e) => {
                    let id = account.id@;
                    &&& final(state).previous_view() == old(state).previous_view()
                    &&& final(state).notifications_view() == old(state).notifications_view()
                    &&& final(history).entries_view() == old(history).entries_view()
                    &&& *final(max_utilization) == *old(max_utilization)
                    &&& r.alerts@.len() == 0
                    &&& r.resets@.len() == 0
                    &&& r.update.data is None
                    &&& (r.update.error matches Some(m) && m@ == e.message())
                    &&& if e.is_auth_class() {
                        let st = after_auth_failure(old(state).paused_view(), old(state).counts_view(), id);
                        &&& final(state).paused_view() == st.0
                        &&& final(state).counts_view() == st.1
                        &&& r.expiry_notice == (settings.notifications.enabled
                            && settings.notifications.notify_on_expiry && !dnd)
                        &&& (r.session matches Some(ev) && ev.account_id@ == id && !ev.valid
                            && ev.error_count == count_in(st.1, id) && ev.paused == paused_in(st.0, id))
                    } else {
                        &&& final(state).paused_view() == old(state).paused_view()
                        &&& final(state).counts_view() == old(state).counts_view()
                        &&& !r.expiry_notice
                        &&& r.session is None
                    }
                },
            },
    {
        let id = account.id.as_str();
        match result {
            Ok(data) => {
                let count = state.get_account_error_count(id);
                let was_paused = state.is_account_paused(id);
                let session = if count > 0 || was_paused {
                    state.reset_account_error_count(id);
                    state.set_account_paused(id, false);
                    Some(
                        SessionStatusEvent {
                            account_id: account.id.clone(),
                            valid: true,
                            error_count: 0,
                            paused: false,
                        },
                    )
                } else {
                    None
                };
                let ghost m0 = *max_utilization;
                let mut k: usize = 0;
                while k < data.limits.len()
                    invariant
                        k <= data.limits@.len(),
                        *max_utilization == max_utilization_of(m0, data.limits@.take(k as int)),
                    decreases data.limits@.len() - k,
                {
                    proof {
                        assert(data.limits@.take(k + 1).drop_last() =~= data.limits@.take(k as int));
                    }
                    if data.limits[k].utilization > *max_utilization {
                        *max_utilization = data.limits[k].utilization;
                    }
                    k = k + 1;
                }
                proof {
                    assert(data.limits@.take(data.limits@.len() as int) =~= data.limits@);
                }
                let ghost prev = previous_of(state.previous_view(), account.id@);
                let previous = state.previous_usage.get(id);
                proof {
                    assert(crate::notifications::deref_opt(previous) == prev);
                }
                let ua = NotificationService::process_usage(
                    &mut state.notification_state,
                    &settings.notifications,
                    &data,
                    previous,
                    dnd,
                );
                let mut alerts = ua.alerts;
                let ghost sp = alerts_after(
                    old(state).notifications_view().thresholds(),
                    old(state).notifications_view().warnings(),
                    settings.notifications,
                    account.id@,
                    data,
                    prev,
                    now,
                    dnd,
                );
                let ghost w1 = state.notification_state.warnings();
                let ghost a1 = alerts@;
                let ghost ps = state.paused_view();
                let ghost cs = state.counts_view();
                let ghost pv = state.previous_view();
                let ghost mx = *max_utilization;
                let mut i: usize = 0;
                while i < data.limits.len()
                    invariant
                        i <= data.limits@.len(),
                        id@ == account.id@,
                        state.wf(),
                        state.paused_view() == ps,
                        state.counts_view() == cs,
                        state.previous_view() == pv,
                        state.running_view() == old(state).running_view(),
                        state.interval_view() == old(state).interval_view(),
                        state.last_fetch_view() == old(state).last_fetch_view(),
                        state.busy_view() == old(state).busy_view(),
                        *max_utilization == mx,
                        history.wf(),
                        history.entries_view() == old(history).entries_view(),
                        state.notification_state.thresholds() == sp.0,
                        ({
                            let up = upcoming_all(w1, settings.notifications, account.id@, data.limits@.take(i as int), now, dnd);
                            &&& state.notification_state.warnings() == up.0
                            &&& alerts@ == a1 + up.1
                        }),
                    decreases data.limits@.len() - i,
                {
                    proof {
                        assert(data.limits@.take(i + 1).drop_last() =~= data.limits@.take(i as int));
                        assert(data.limits@.take(i + 1).last() == data.limits@[i as int]);
                    }
                    match NotificationService::check_upcoming_reset(
                        &mut state.notification_state,
                        &settings.notifications,
                        id,
                        i,
                        &data.limits[i],
                        now,
                        dnd,
                    ) {
                        Some(a) => {
                            alerts.push(a);
                        },
                        None => {},
                    }
                    i = i + 1;
                    proof {
                        let up = upcoming_all(w1, settings.notifications, account.id@, data.limits@.take(i as int), now, dnd);
                        assert(alerts@ =~= a1 + up.1);
                    }
                }
                proof {
                    assert(data.limits@.take(data.limits@.len() as int) =~= data.limits@);
                }
                history.add_entry(&data);
                let copy = data.duplicate();
                state.previous_usage.insert(id, data);
                AccountOutcome {
                    update: UsageUpdateEvent {
                        provider: account.provider.clone(),
                        account_id: account.id.clone(),
                        data: Some(copy),
                        error: None,
                    },
                    session,
                    alerts,
                    resets: ua.resets,
                    expiry_notice: false,
                }
            },
            Err(e) => {
                let message = e.to_string();
                let mut session: Option<SessionStatusEvent> = None;
                let mut expiry_notice = false;
                if e.is_authentication_error() {
                    expiry_notice = NotificationService::send_session_expiry_warning(&settings.notifications, dnd);
                    if state.is_account_paused(id) {
                        let count = state.get_account_error_count(id);
                        session = Some(
                            SessionStatusEvent {
                                account_id: account.id.clone(),
                                valid: false,
                                error_count: count,
                                paused: true,
                            },
                        );
                    } else {
                        let count = state.increment_account_error_count(id);
                        let paused = count >= MAX_SESSION_ERRORS;
                        if paused {
                            state.set_account_paused(id, true);
                        }
                        session = Some(
                            SessionStatusEvent {
                                account_id: account.id.clone(),
                                valid: false,
                                error_count: count,
                                paused,
                            },
                        );
                    }
                }
                AccountOutcome {
                    update: UsageUpdateEvent {
                        provider: account.provider.clone(),
                        account_id: account.id.clone(),
                        data: None,
                        error: Some(message),
                    },
                    session,
                    alerts: Vec::new(),
                    resets: Vec::new(),
                    expiry_notice,
                }
            },
        }
    }
}

} // verus!
