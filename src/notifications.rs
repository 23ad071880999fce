//! Deciding and deduplicating user alerts: utilization thresholds, detected
//! resets, imminent resets, and the do-not-disturb window.

use crate::clock::{clock_time_of, parse_clock_time};
use crate::models::{NotificationSettings, UsageData, UsageLimit};
use crate::text::{decimal, push_decimal, push_signed_decimal, signed_decimal};
use vstd::prelude::*;
use vstd::string::*;

verus! {

pub open spec fn tkey(e: (String, String, u32)) -> (Seq<char>, Seq<char>, u32) {
    (e.0@, e.1@, e.2)
}

pub open spec fn wkey(e: (String, String)) -> (Seq<char>, Seq<char>) {
    (e.0@, e.1@)
}

pub open spec fn has_t(s: Seq<(String, String, u32)>, x: (Seq<char>, Seq<char>, u32)) -> bool {
    exists|j: int| 0 <= j < s.len() && #[trigger] tkey(s[j]) == x
}

pub open spec fn has_w(s: Seq<(String, String)>, x: (Seq<char>, Seq<char>)) -> bool {
    exists|j: int| 0 <= j < s.len() && #[trigger] wkey(s[j]) == x
}

/// Which alerts have been delivered, so that none is repeated.
pub struct NotificationState {
    /// (account, limit, threshold) already alerted.
    sent_thresholds: Vec<(String, String, u32)>,
    /// (account, limit) already warned of an imminent reset.
    sent_reset_warnings: Vec<(String, String)>,
}

impl NotificationState {
    /// The (account, limit, threshold) triples already alerted.
    pub closed spec fn thresholds(&self) -> Set<(Seq<char>, Seq<char>, u32)> {
        Set::new(|k: (Seq<char>, Seq<char>, u32)| has_t(self.sent_thresholds@, k))
    }

    /// The (account, limit) pairs already warned of an imminent reset.
    pub closed spec fn warnings(&self) -> Set<(Seq<char>, Seq<char>)> {
        Set::new(|k: (Seq<char>, Seq<char>)| has_w(self.sent_reset_warnings@, k))
    }

    pub fn new() -> (r: Self)
        ensures
            r.thresholds() == Set::<(Seq<char>, Seq<char>, u32)>::empty(),
            r.warnings() == Set::<(Seq<char>, Seq<char>)>::empty(),
    {
        let r = NotificationState { sent_thresholds: Vec::new(), sent_reset_warnings: Vec::new() };
        assert(r.thresholds() =~= Set::<(Seq<char>, Seq<char>, u32)>::empty());
        assert(r.warnings() =~= Set::<(Seq<char>, Seq<char>)>::empty());
        r
    }

    pub fn was_threshold_notified(&self, account_id: &str, limit_id: &str, threshold: u32) -> (r:
        bool)
        ensures
            r == self.thresholds().contains((account_id@, limit_id@, threshold)),
    {
        let a = String::from_str(account_id);
        let l = String::from_str(limit_id);
        let mut i: usize = 0;
        while i < self.sent_thresholds.len()
            invariant
                i <= self.sent_thresholds@.len(),
                a@ == account_id@,
                l@ == limit_id@,
                forall|j: int|
                    0 <= j < i ==> tkey(self.sent_thresholds@[j]) != (
                        account_id@,
                        limit_id@,
                        threshold,
                    ),
            decreases self.sent_thresholds@.len() - i,
        {
            let e = &self.sent_thresholds[i];
            if e.0 == a && e.1 == l && e.2 == threshold {
                assert(tkey(self.sent_thresholds@[i as int]) == (account_id@, limit_id@, threshold));
                return true;
            }
            i = i + 1;
        }
        false
    }

    pub fn mark_threshold_notified(&mut self, account_id: &str, limit_id: &str, threshold: u32)
        ensures
            final(self).thresholds() == old(self).thresholds().insert(
                (account_id@, limit_id@, threshold),
            ),
            final(self).warnings() == old(self).warnings(),
    {
        if !self.was_threshold_notified(account_id, limit_id, threshold) {
            let ghost s0 = self.sent_thresholds@;
            self.sent_thresholds.push(
                (String::from_str(account_id), String::from_str(limit_id), threshold),
            );
            proof {
                let s1 = self.sent_thresholds@;
                let k = (account_id@, limit_id@, threshold);
                assert forall|x| old(self).thresholds().insert(k).contains(x) implies #[trigger] self.thresholds().contains(x) by {
                    if x == k {
                        assert(tkey(s1[s0.len() as int]) == x);
                    } else {
                        let j = choose|j: int| 0 <= j < s0.len() && #[trigger] tkey(s0[j]) == x;
                        assert(tkey(s1[j]) == x);
                    }
                }
                assert forall|x| #[trigger] self.thresholds().contains(x) implies old(self).thresholds().insert(k).contains(x) by {
                    let j = choose|j: int| 0 <= j < s1.len() && #[trigger] tkey(s1[j]) == x;
                    if j < s0.len() {
                        assert(tkey(s0[j]) == x);
                    }
                }
                assert(self.thresholds() =~= old(self).thresholds().insert(k));
            }
        } else {
            assert(self.thresholds() =~= old(self).thresholds().insert(
                (account_id@, limit_id@, threshold),
            ));
        }
    }

    /// Removes the triples of `account_id` and `limit_id` whose threshold is
    /// `threshold` (when `above` is false) or greater than it (when true).
    fn drop_thresholds(&mut self, account_id: &str, limit_id: &str, threshold: u32, above: bool)
        ensures
            final(self).thresholds() == old(self).thresholds().filter(
                |k: (Seq<char>, Seq<char>, u32)|
                    !dropped(k, account_id@, limit_id@, threshold, above),
            ),
            final(self).warnings() == old(self).warnings(),
    {
        let a = String::from_str(account_id);
        let l = String::from_str(limit_id);
        let ghost s0 = self.sent_thresholds@;
        let mut kept: Vec<(String, String, u32)> = Vec::new();
        let mut i: usize = 0;
        while i < self.sent_thresholds.len()
            invariant
                i <= s0.len(),
                self.sent_thresholds@ == s0,
                a@ == account_id@,
                l@ == limit_id@,
                forall|x: (Seq<char>, Seq<char>, u32)|
                    #[trigger] has_t(kept@, x) <==> (has_t(s0.take(i as int), x) && !dropped(
                        x,
                        account_id@,
                        limit_id@,
                        threshold,
                        above,
                    )),
            decreases s0.len() - i,
        {
            let e = &self.sent_thresholds[i];
            let hit = e.0 == a && e.1 == l && (if above {
                e.2 > threshold
            } else {
                e.2 == threshold
            });
            let ghost k0 = kept@;
            if !hit {
                kept.push((e.0.clone(), e.1.clone(), e.2));
            }
            proof {
                let ii = i as int;
                let upto_next = s0.take(ii + 1);
                let upto_here = s0.take(ii);
                assert forall|x: (Seq<char>, Seq<char>, u32)|
                    #[trigger] has_t(kept@, x) <==> (has_t(upto_next, x) && !dropped(
                        x,
                        account_id@,
                        limit_id@,
                        threshold,
                        above,
                    )) by {
                    if has_t(kept@, x) {
                        let j = choose|j: int| 0 <= j < kept@.len() && #[trigger] tkey(kept@[j]) == x;
                        if j < k0.len() {
                            assert(tkey(k0[j]) == x);
                            assert(has_t(k0, x));
                            let m = choose|m: int| 0 <= m < upto_here.len() && #[trigger] tkey(upto_here[m]) == x;
                            assert(tkey(upto_next[m]) == x);
                        } else {
                            assert(tkey(upto_next[ii]) == x);
                        }
                    }
                    if has_t(upto_next, x) && !dropped(x, account_id@, limit_id@, threshold, above) {
                        let j = choose|j: int| 0 <= j < upto_next.len() && #[trigger] tkey(upto_next[j]) == x;
                        if j < ii {
                            assert(tkey(upto_here[j]) == x);
                            assert(has_t(k0, x));
                            let m = choose|m: int| 0 <= m < k0.len() && #[trigger] tkey(k0[m]) == x;
                            assert(tkey(kept@[m]) == x);
                        } else {
                            assert(tkey(kept@[k0.len() as int]) == x);
                        }
                    }
                }
            }
            i = i + 1;
        }
        assert(s0.take(s0.len() as int) =~= s0);
        self.sent_thresholds = kept;
        assert(self.thresholds() =~= old(self).thresholds().filter(
            |k: (Seq<char>, Seq<char>, u32)|
                !dropped(k, account_id@, limit_id@, threshold, above),
        ));
    }

    pub fn clear_threshold(&mut self, account_id: &str, limit_id: &str, threshold: u32)
        ensures
            final(self).thresholds() == old(self).thresholds().remove(
                (account_id@, limit_id@, threshold),
            ),
            final(self).warnings() == old(self).warnings(),
    {
        self.drop_thresholds(account_id, limit_id, threshold, false);
        assert(self.thresholds() =~= old(self).thresholds().remove(
            (account_id@, limit_id@, threshold),
        ));
    }

    /// Forgets the thresholds above `current_percent` of one limit, so that
    /// they alert again on the next rise.
    pub fn clear_thresholds_above(&mut self, account_id: &str, limit_id: &str, current_percent: u32)
        ensures
            final(self).thresholds() == cleared_above(
                old(self).thresholds(),
                account_id@,
                limit_id@,
                current_percent,
            ),
            final(self).warnings() == old(self).warnings(),
    {
        self.drop_thresholds(account_id, limit_id, current_percent, true);
        assert(self.thresholds() =~= cleared_above(
            old(self).thresholds(),
            account_id@,
            limit_id@,
            current_percent,
        ));
    }

    pub fn was_reset_warning_sent(&self, account_id: &str, limit_id: &str) -> (r: bool)
        ensures
            r == self.warnings().contains((account_id@, limit_id@)),
    {
        let a = String::from_str(account_id);
        let l = String::from_str(limit_id);
        let mut i: usize = 0;
        while i < self.sent_reset_warnings.len()
            invariant
                i <= self.sent_reset_warnings@.len(),
                a@ == account_id@,
                l@ == limit_id@,
                forall|j: int|
                    0 <= j < i ==> wkey(self.sent_reset_warnings@[j]) != (account_id@, limit_id@),
            decreases self.sent_reset_warnings@.len() - i,
        {
            let e = &self.sent_reset_warnings[i];
            if e.0 == a && e.1 == l {
                assert(wkey(self.sent_reset_warnings@[i as int]) == (account_id@, limit_id@));
                return true;
            }
            i = i + 1;
        }
        false
    }

    pub fn mark_reset_warning_sent(&mut self, account_id: &str, limit_id: &str)
        ensures
            final(self).warnings() == old(self).warnings().insert((account_id@, limit_id@)),
            final(self).thresholds() == old(self).thresholds(),
    {
        if !self.was_reset_warning_sent(account_id, limit_id) {
            let ghost s0 = self.sent_reset_warnings@;
            self.sent_reset_warnings.push((String::from_str(account_id), String::from_str(limit_id)));
            proof {
                let s1 = self.sent_reset_warnings@;
                let k = (account_id@, limit_id@);
                assert forall|x| old(self).warnings().insert(k).contains(x) implies #[trigger] self.warnings().contains(x) by {
                    if x == k {
                        assert(wkey(s1[s0.len() as int]) == x);
                    } else {
                        let j = choose|j: int| 0 <= j < s0.len() && #[trigger] wkey(s0[j]) == x;
                        assert(wkey(s1[j]) == x);
                    }
                }
                assert forall|x| #[trigger] self.warnings().contains(x) implies old(self).warnings().insert(k).contains(x) by {
                    let j = choose|j: int| 0 <= j < s1.len() && #[trigger] wkey(s1[j]) == x;
                    if j < s0.len() {
                        assert(wkey(s0[j]) == x);
                    }
                }
                assert(self.warnings() =~= old(self).warnings().insert(k));
            }
        } else {
            assert(self.warnings() =~= old(self).warnings().insert((account_id@, limit_id@)));
        }
    }

    pub fn clear_reset_warning(&mut self, account_id: &str, limit_id: &str)
        ensures
            final(self).warnings() == old(self).warnings().remove((account_id@, limit_id@)),
            final(self).thresholds() == old(self).thresholds(),
    {
        let a = String::from_str(account_id);
        let l = String::from_str(limit_id);
        let ghost s0 = self.sent_reset_warnings@;
        let ghost k = (account_id@, limit_id@);
        let mut kept: Vec<(String, String)> = Vec::new();
        let mut i: usize = 0;
        while i < self.sent_reset_warnings.len()
            invariant
                i <= s0.len(),
                self.sent_reset_warnings@ == s0,
                a@ == account_id@,
                l@ == limit_id@,
                k == (account_id@, limit_id@),
                forall|x: (Seq<char>, Seq<char>)|
                    #[trigger] has_w(kept@, x) <==> (has_w(s0.take(i as int), x) && x != k),
            decreases s0.len() - i,
        {
            let e = &self.sent_reset_warnings[i];
            let hit = e.0 == a && e.1 == l;
            let ghost k0 = kept@;
            if !hit {
                kept.push((e.0.clone(), e.1.clone()));
            }
            proof {
                let ii = i as int;
                let upto_next = s0.take(ii + 1);
                let upto_here = s0.take(ii);
                assert forall|x: (Seq<char>, Seq<char>)|
                    #[trigger] has_w(kept@, x) <==> (has_w(upto_next, x) && x != k) by {
                    if has_w(kept@, x) {
                        let j = choose|j: int| 0 <= j < kept@.len() && #[trigger] wkey(kept@[j]) == x;
                        if j < k0.len() {
                            assert(wkey(k0[j]) == x);
                            assert(has_w(k0, x));
                            let m = choose|m: int| 0 <= m < upto_here.len() && #[trigger] wkey(upto_here[m]) == x;
                            assert(wkey(upto_next[m]) == x);
                        } else {
                            assert(wkey(upto_next[ii]) == x);
                        }
                    }
                    if has_w(upto_next, x) && x != k {
                        let j = choose|j: int| 0 <= j < upto_next.len() && #[trigger] wkey(upto_next[j]) == x;
                        if j < ii {
                            assert(wkey(upto_here[j]) == x);
                            assert(has_w(k0, x));
                            let m = choose|m: int| 0 <= m < k0.len() && #[trigger] wkey(k0[m]) == x;
                            assert(wkey(kept@[m]) == x);
                        } else {
                            assert(wkey(kept@[k0.len() as int]) == x);
                        }
                    }
                }
            }
            i = i + 1;
        }
        assert(s0.take(s0.len() as int) =~= s0);
        self.sent_reset_warnings = kept;
        assert(self.warnings() =~= old(self).warnings().remove(k));
    }
}

/// Whether `drop_thresholds` removes the triple `k`.
pub open spec fn dropped(
    k: (Seq<char>, Seq<char>, u32),
    account: Seq<char>,
    limit: Seq<char>,
    threshold: u32,
    above: bool,
) -> bool {
    k.0 == account && k.1 == limit && (if above {
        k.2 > threshold
    } else {
        k.2 == threshold
    })
}

/// An alert for the user. `limit` is the position of the limit in the
/// snapshot's list of limits; `percent` its utilization in whole percent.
#[derive(Debug, Clone, Copy, PartialEq, Eq, Structural)]
pub enum Alert {
    /// Utilization reached `threshold`.
    Threshold { limit: usize, threshold: u32, percent: u32 },
    /// Utilization dropped enough that the limit looks reset.
    Reset { limit: usize, percent: u32 },
    /// The limit resets in `minutes` while utilization is high.
    ResetSoon { limit: usize, minutes: i64, percent: u32 },
}

/// The name shown in front of an alert: none for the default account.
pub open spec fn name_prefix(account_name: Seq<char>) -> Seq<char> {
    if account_name != "Default"@ && account_name.len() > 0 {
        "["@ + account_name + "] "@
    } else {
        seq![]
    }
}

impl Alert {
    pub open spec fn title_text(self) -> Seq<char> {
        match self {
            Alert::Threshold { threshold, .. } => decimal(threshold as nat) + "% Usage Alert"@,
            Alert::Reset { .. } => "Usage Reset"@,
            Alert::ResetSoon { .. } => "Limit Reset Soon"@,
        }
    }

    pub open spec fn body_text(self, account_name: Seq<char>, label: Seq<char>) -> Seq<char> {
        name_prefix(account_name) + label + match self {
            Alert::Threshold { percent, .. } => " is at "@ + decimal(
                (if percent > 100 {
                    100
                } else {
                    percent
                }) as nat,
            ) + "% usage"@,
            Alert::Reset { percent, .. } => " has reset! Now at "@ + decimal(percent as nat) + "%"@,
            Alert::ResetSoon { minutes, percent, .. } => " will reset in "@ + signed_decimal(
                minutes as int,
            ) + " minutes (currently at "@ + decimal(percent as nat) + "%)"@,
        }
    }

    /// The title of the notification.
    pub fn title(&self) -> (r: String)
        ensures
            r@ == self.title_text(),
    {
        match self {
            Alert::Threshold { threshold, .. } => {
                let mut r = String::new();
                push_decimal(&mut r, *threshold as u64);
                r.append("% Usage Alert");
                assert(r@ =~= self.title_text());
                r
            },
            Alert::Reset { .. } => String::from_str("Usage Reset"),
            Alert::ResetSoon { .. } => String::from_str("Limit Reset Soon"),
        }
    }

    /// The text of the notification, for the account `account_name` and
    /// the limit labelled `label`.
    pub fn body(&self, account_name: &str, label: &str) -> (r: String)
        ensures
            r@ == self.body_text(account_name@, label@),
    {
        let mut r = String::new();
        let default_name = String::from_str("Default");
        let name = String::from_str(account_name);
        if name != default_name && account_name.unicode_len() > 0 {
            r.append("[");
            r.append(account_name);
            r.append("] ");
        }
        r.append(label);
        match self {
            Alert::Threshold { percent, .. } => {
                r.append(" is at ");
                let shown: u32 = if *percent > 100 {
                    100
                } else {
                    *percent
                };
                push_decimal(&mut r, shown as u64);
                r.append("% usage");
            },
            Alert::Reset { percent, .. } => {
                r.append(" has reset! Now at ");
                push_decimal(&mut r, *percent as u64);
                r.append("%");
            },
            Alert::ResetSoon { minutes, percent, .. } => {
                r.append(" will reset in ");
                push_signed_decimal(&mut r, *minutes);
                r.append(" minutes (currently at ");
                push_decimal(&mut r, *percent as u64);
                r.append("%)");
            },
        }
        assert(r@ =~= self.body_text(account_name@, label@));
        r
    }
}

/// The session-expiry notice: title and text.
pub fn session_expiry_text() -> (r: (String, String))
    ensures
        r.0@ == "Session Expiring"@,
        r.1@ == "Your session may be expiring soon. Please refresh your credentials."@,
{
    (
        String::from_str("Session Expiring"),
        String::from_str("Your session may be expiring soon. Please refresh your credentials."),
    )
}

/// What processing one snapshot produced: the alerts to deliver, in order,
/// and the positions of the limits found reset.
#[derive(Debug, Clone)]
pub struct UsageAlerts {
    pub alerts: Vec<Alert>,
    pub resets: Vec<usize>,
}

/// The sent set once the thresholds of one limit above `percent` are
/// forgotten.
pub open spec fn cleared_above(
    sent: Set<(Seq<char>, Seq<char>, u32)>,
    account: Seq<char>,
    limit: Seq<char>,
    percent: u32,
) -> Set<(Seq<char>, Seq<char>, u32)> {
    sent.filter(
        |k: (Seq<char>, Seq<char>, u32)| !(k.0 == account && k.1 == limit && k.2 > percent),
    )
}

/// Threshold alerts for the limit at position `i`, one for each of `th`.
pub open spec fn as_threshold_alerts(th: Seq<u32>, i: usize, percent: u32) -> Seq<Alert>
    decreases th.len(),
{
    if th.len() == 0 {
        seq![]
    } else {
        as_threshold_alerts(th.drop_last(), i, percent).push(
            Alert::Threshold { limit: i, threshold: th.last(), percent },
        )
    }
}

/// The thresholds that alert for one limit at `percent`, in the order of
/// `ths`: reached, not yet alerted, and not repeated earlier in `ths`.
pub open spec fn threshold_alerts(
    sent: Set<(Seq<char>, Seq<char>, u32)>,
    account: Seq<char>,
    limit: Seq<char>,
    percent: u32,
    ths: Seq<u32>,
) -> Seq<u32>
    decreases ths.len(),
{
    if ths.len() == 0 {
        seq![]
    } else {
        let before = threshold_alerts(sent, account, limit, percent, ths.drop_last());
        let t = ths.last();
        if percent >= t && !sent.contains((account, limit, t)) && !ths.drop_last().contains(t) {
            before.push(t)
        } else {
            before
        }
    }
}

/// The sent set once every threshold of `ths` reached at `percent` is marked.
pub open spec fn threshold_marks(
    sent: Set<(Seq<char>, Seq<char>, u32)>,
    account: Seq<char>,
    limit: Seq<char>,
    percent: u32,
    ths: Seq<u32>,
) -> Set<(Seq<char>, Seq<char>, u32)> {
    sent.union(
        Set::new(
            |k: (Seq<char>, Seq<char>, u32)|
                k.0 == account && k.1 == limit && ths.contains(k.2) && percent >= k.2,
        ),
    )
}

/// Utilization, in whole percent, of the first limit of `s` named `limit`.
pub open spec fn first_percent(s: Seq<UsageLimit>, limit: Seq<char>) -> Option<u32>
    decreases s.len(),
{
    if s.len() == 0 {
        None
    } else {
        match first_percent(s.drop_last(), limit) {
            Some(p) => Some(p),
            None => if s.last().id@ == limit {
                Some(s.last().percent())
            } else {
                None
            },
        }
    }
}

/// The snapshot behind an optional reference.
pub open spec fn deref_opt(o: Option<&UsageData>) -> Option<UsageData> {
    match o {
        Some(d) => Some(*d),
        None => None,
    }
}

pub open spec fn previous_percent(prev: Option<UsageData>, limit: Seq<char>) -> Option<u32> {
    match prev {
        Some(d) => first_percent(d.limits@, limit),
        None => None,
    }
}

/// The reset heuristic: the limit was at 50% or more and has since dropped
/// by more than 40 points.
pub open spec fn is_reset(prev: u32, curr: u32) -> bool {
    prev >= 50 && curr + 40 < prev
}

pub open spec fn reset_detected(prev: Option<UsageData>, limit: Seq<char>, curr: u32) -> bool {
    match previous_percent(prev, limit) {
        Some(p) => is_reset(p, curr),
        None => false,
    }
}

/// The sent set once the default thresholds of one limit are forgotten.
pub open spec fn reset_cleared(
    sent: Set<(Seq<char>, Seq<char>, u32)>,
    account: Seq<char>,
    limit: Seq<char>,
) -> Set<(Seq<char>, Seq<char>, u32)> {
    sent.remove((account, limit, 50)).remove((account, limit, 75)).remove(
        (account, limit, 90),
    ).remove((account, limit, 100))
}

/// The effect of processing one limit (at position `i`) of a snapshot:
/// the new sent thresholds, the new warnings, the alerts and the resets.
pub open spec fn limit_step(
    t: Set<(Seq<char>, Seq<char>, u32)>,
    w: Set<(Seq<char>, Seq<char>)>,
    ths: Seq<u32>,
    on_reset: bool,
    account: Seq<char>,
    i: int,
    lim: UsageLimit,
    prev: Option<UsageData>,
    dnd: bool,
) -> (Set<(Seq<char>, Seq<char>, u32)>, Set<(Seq<char>, Seq<char>)>, Seq<Alert>, Seq<usize>) {
    let p = lim.percent();
    let l = lim.id@;
    let t1 = cleared_above(t, account, l, p);
    let th = if dnd {
        seq![]
    } else {
        threshold_alerts(t1, account, l, p, ths)
    };
    let t2 = if dnd {
        t1
    } else {
        threshold_marks(t1, account, l, p, ths)
    };
    let reset = on_reset && reset_detected(prev, l, p);
    let t3 = if reset {
        reset_cleared(t2, account, l)
    } else {
        t2
    };
    let w1 = if reset {
        w.remove((account, l))
    } else {
        w
    };
    let alerts = as_threshold_alerts(th, i as usize, p) + if reset && !dnd {
        seq![Alert::Reset { limit: i as usize, percent: p }]
    } else {
        seq![]
    };
    let resets = if reset {
        seq![i as usize]
    } else {
        seq![]
    };
    (t3, w1, alerts, resets)
}

/// The effect of processing the limits `lims` in order.
pub open spec fn process_spec(
    t: Set<(Seq<char>, Seq<char>, u32)>,
    w: Set<(Seq<char>, Seq<char>)>,
    ths: Seq<u32>,
    on_reset: bool,
    account: Seq<char>,
    lims: Seq<UsageLimit>,
    prev: Option<UsageData>,
    dnd: bool,
) -> (Set<(Seq<char>, Seq<char>, u32)>, Set<(Seq<char>, Seq<char>)>, Seq<Alert>, Seq<usize>)
    decreases lims.len(),
{
    if lims.len() == 0 {
        (t, w, seq![], seq![])
    } else {
        let r = process_spec(t, w, ths, on_reset, account, lims.drop_last(), prev, dnd);
        let st = limit_step(
            r.0,
            r.1,
            ths,
            on_reset,
            account,
            lims.len() - 1,
            lims.last(),
            prev,
            dnd,
        );
        (st.0, st.1, r.2 + st.2, r.3 + st.3)
    }
}

/// Whether an imminent-reset warning is due for `lim`: notifications and
/// reset notices are on, the reset is at most an hour ahead, utilization is
/// at least 75%, and no warning was sent yet.
pub open spec fn reset_soon_due(
    s: &NotificationSettings,
    w: Set<(Seq<char>, Seq<char>)>,
    account: Seq<char>,
    lim: &UsageLimit,
    now: i64,
) -> bool {
    &&& s.enabled
    &&& s.notify_on_reset
    &&& 0 < lim.resets_at - now <= 3600
    &&& lim.percent() >= 75
    &&& !w.contains((account, lim.id@))
}

pub open spec fn clock_minutes(s: Option<String>) -> Option<int> {
    match s {
        Some(t) => match clock_time_of(t@) {
            Some((h, m)) => Some(h * 60 + m),
            None => None,
        },
        None => None,
    }
}

/// Whether minute `now` of the day lies in `[start, end)`, the window
/// running past midnight when `start > end`.
pub open spec fn in_window(start: int, end: int, now: int) -> bool {
    if start > end {
        now >= start || now < end
    } else {
        now >= start && now < end
    }
}

pub open spec fn dnd_active_at(s: &NotificationSettings, now_minute: u32) -> bool {
    &&& s.dnd_enabled
    &&& clock_minutes(s.dnd_start_time) is Some
    &&& clock_minutes(s.dnd_end_time) is Some
    &&& in_window(
        clock_minutes(s.dnd_start_time)->0,
        clock_minutes(s.dnd_end_time)->0,
        now_minute as int,
    )
}

proof fn lemma_first_percent_prefix(s: Seq<UsageLimit>, n: int, limit: Seq<char>)
    requires
        0 <= n <= s.len(),
        first_percent(s.take(n), limit) is Some,
    ensures
        first_percent(s, limit) == first_percent(s.take(n), limit),
    decreases s.len() - n,
{
    if n < s.len() {
        assert(s.take(n + 1).drop_last() =~= s.take(n));
        lemma_first_percent_prefix(s, n + 1, limit);
    } else {
        assert(s.take(n) =~= s);
    }
}

fn minutes_of(t: &Option<String>) -> (r: Option<u32>)
    ensures
        match r {
            Some(m) => clock_minutes(*t) == Some(m as int),
            None => clock_minutes(*t) is None,
        },
{
    match t {
        Some(s) => match parse_clock_time(s.as_str()) {
            Some((h, m)) => Some(h * 60 + m),
            None => None,
        },
        None => None,
    }
}

/// Decides and records alerts.
pub struct NotificationService;

impl NotificationService {
    /// Alerts for each threshold that `percent` has reached and that was not
    /// alerted yet for this account and limit. When `deliver` is false (the
    /// do-not-disturb window), nothing is alerted and nothing is marked, so
    /// that the alert can come once the window ends.
    pub fn check_threshold_notifications(
        state: &mut NotificationState,
        account_id: &str,
        limit_id: &str,
        percent: u32,
        thresholds: &Vec<u32>,
        deliver: bool,
    ) -> (r: Vec<u32>)
        ensures
            r@ == (if deliver {
                threshold_alerts(old(state).thresholds(), account_id@, limit_id@, percent, thresholds@)
            } else {
                seq![]
            }),
            final(state).thresholds() == (if deliver {
                threshold_marks(old(state).thresholds(), account_id@, limit_id@, percent, thresholds@)
            } else {
                old(state).thresholds()
            }),
            final(state).warnings() == old(state).warnings(),
    {
        let mut out: Vec<u32> = Vec::new();
        if !deliver {
            return out;
        }
        let ghost t0 = state.thresholds();
        let ghost a = account_id@;
        let ghost l = limit_id@;
        proof {
            assert(thresholds@.take(0) =~= seq![]);
            assert(threshold_marks(t0, a, l, percent, seq![]) =~= t0);
        }
        let mut j: usize = 0;
        while j < thresholds.len()
            invariant
                j <= thresholds@.len(),
                t0 == old(state).thresholds(),
                a == account_id@,
                l == limit_id@,
                state.thresholds() == threshold_marks(t0, a, l, percent, thresholds@.take(j as int)),
                state.warnings() == old(state).warnings(),
                out@ == threshold_alerts(t0, a, l, percent, thresholds@.take(j as int)),
            decreases thresholds@.len() - j,
        {
            let t = thresholds[j];
            let ghost pre = thresholds@.take(j as int);
            let ghost post = thresholds@.take(j + 1);
            proof {
                assert(post.drop_last() =~= pre);
                assert(post.last() == t);
                assert forall|x: u32| post.contains(x) <==> (pre.contains(x) || x == t) by {
                    if post.contains(x) {
                        let m = choose|m: int| 0 <= m < post.len() && post[m] == x;
                        if m < pre.len() {
                            assert(pre[m] == x);
                        }
                    }
                    if pre.contains(x) {
                        let m = choose|m: int| 0 <= m < pre.len() && pre[m] == x;
                        assert(post[m] == x);
                    }
                    if x == t {
                        assert(post[j as int] == x);
                    }
                }
            }
            if percent >= t && !state.was_threshold_notified(account_id, limit_id, t) {
                state.mark_threshold_notified(account_id, limit_id, t);
                out.push(t);
                proof {
                    assert(state.thresholds() =~= threshold_marks(t0, a, l, percent, post));
                }
            } else {
                proof {
                    assert(state.thresholds() =~= threshold_marks(t0, a, l, percent, post));
                }
            }
            j = j + 1;
        }
        proof {
            assert(thresholds@.take(thresholds@.len() as int) =~= thresholds@);
        }
        out
    }

    /// Utilization, in whole percent, of the first limit of `previous`
    /// named `limit_id`.
    pub fn find_previous_percent(previous: Option<&UsageData>, limit_id: &str) -> (r: Option<u32>)
        ensures
            r == previous_percent(deref_opt(previous), limit_id@),
    {
        match previous {
            None => None,
            Some(d) => {
                assert(previous_percent(deref_opt(previous), limit_id@) == first_percent(d.limits@, limit_id@));
                let key = String::from_str(limit_id);
                let mut j: usize = 0;
                while j < d.limits.len()
                    invariant
                        j <= d.limits@.len(),
                        key@ == limit_id@,
                        previous_percent(deref_opt(previous), limit_id@) == first_percent(d.limits@, limit_id@),
                        first_percent(d.limits@.take(j as int), limit_id@) is None,
                    decreases d.limits@.len() - j,
                {
                    proof {
                        assert(d.limits@.take(j + 1).drop_last() =~= d.limits@.take(j as int));
                    }
                    if d.limits[j].id == key {
                        let p = d.limits[j].utilization / 100;
                        proof {
                            let pre = d.limits@.take(j + 1);
                            assert(pre.last() == d.limits@[j as int]);
                            assert(first_percent(pre, limit_id@) == Some(p));
                            lemma_first_percent_prefix(d.limits@, j + 1, limit_id@);
                            assert(first_percent(d.limits@, limit_id@) == Some(p));
                        }
                        return Some(p);
                    }
                    j = j + 1;
                }
                proof {
                    assert(d.limits@.take(d.limits@.len() as int) =~= d.limits@);
                }
                None
            },
        }
    }

    /// Detects a reset of `limit` against the previous snapshot; on one,
    /// forgets the limit's imminent-reset warning and its default thresholds
    /// (50, 75, 90, 100), so that they alert again on the next rise.
    pub fn check_reset_notification(
        state: &mut NotificationState,
        account_id: &str,
        limit: &UsageLimit,
        previous: Option<&UsageData>,
    ) -> (r: bool)
        ensures
            r == reset_detected(deref_opt(previous), limit.id@, limit.percent()),
            final(state).thresholds() == (if r {
                reset_cleared(old(state).thresholds(), account_id@, limit.id@)
            } else {
                old(state).thresholds()
            }),
            final(state).warnings() == (if r {
                old(state).warnings().remove((account_id@, limit.id@))
            } else {
                old(state).warnings()
            }),
    {
        let curr = limit.utilization / 100;
        match Self::find_previous_percent(previous, limit.id.as_str()) {
            Some(prev) => {
                if prev >= 50 && curr < prev - 40 {
                    let l = limit.id.as_str();
                    state.clear_reset_warning(account_id, l);
                    state.clear_threshold(account_id, l, 50);
                    state.clear_threshold(account_id, l, 75);
                    state.clear_threshold(account_id, l, 90);
                    state.clear_threshold(account_id, l, 100);
                    true
                } else {
                    false
                }
            },
            None => false,
        }
    }

    /// Processes a fresh snapshot of an account: for each limit in order,
    /// forgets thresholds above the current utilization, alerts newly
    /// reached thresholds, and (when reset notices are on) detects a reset
    /// against `previous`. `dnd` suppresses delivery without marking.
    pub fn process_usage(
        state: &mut NotificationState,
        settings: &NotificationSettings,
        usage: &UsageData,
        previous: Option<&UsageData>,
        dnd: bool,
    ) -> (r: UsageAlerts)
        ensures
            !settings.enabled ==> {
                &&& final(state).thresholds() == old(state).thresholds()
                &&& final(state).warnings() == old(state).warnings()
                &&& r.alerts@.len() == 0
                &&& r.resets@.len() == 0
            },
            settings.enabled ==> {
                let sp = process_spec(
                    old(state).thresholds(),
                    old(state).warnings(),
                    settings.thresholds@,
                    settings.notify_on_reset,
                    usage.account_id@,
                    usage.limits@,
                    deref_opt(previous),
                    dnd,
                );
                &&& final(state).thresholds() == sp.0
                &&& final(state).warnings() == sp.1
                &&& r.alerts@ == sp.2
                &&& r.resets@ == sp.3
            },
    {
        let mut alerts: Vec<Alert> = Vec::new();
        let mut resets: Vec<usize> = Vec::new();
        if !settings.enabled {
            return UsageAlerts { alerts, resets };
        }
        let account_id = usage.account_id.as_str();
        let ghost a = usage.account_id@;
        let ghost t0 = state.thresholds();
        let ghost w0 = state.warnings();
        let ghost ths = settings.thresholds@;
        let ghost on_reset = settings.notify_on_reset;
        proof {
            assert(usage.limits@.take(0) =~= seq![]);
            assert(alerts@ =~= seq![]);
            assert(resets@ =~= seq![]);
        }
        let mut i: usize = 0;
        while i < usage.limits.len()
            invariant
                i <= usage.limits@.len(),
                account_id@ == a,
                a == usage.account_id@,
                t0 == old(state).thresholds(),
                w0 == old(state).warnings(),
                ths == settings.thresholds@,
                on_reset == settings.notify_on_reset,
                ({
                    let sp = process_spec(t0, w0, ths, on_reset, a, usage.limits@.take(i as int), deref_opt(previous), dnd);
                    &&& state.thresholds() == sp.0
                    &&& state.warnings() == sp.1
                    &&& alerts@ == sp.2
                    &&& resets@ == sp.3
                }),
            decreases usage.limits@.len() - i,
        {
            let limit = &usage.limits[i];
            let percent = limit.utilization / 100;
            let ghost sp0 = process_spec(t0, w0, ths, on_reset, a, usage.limits@.take(i as int), deref_opt(previous), dnd);
            let ghost st = limit_step(sp0.0, sp0.1, ths, on_reset, a, i as int, *limit, deref_opt(previous), dnd);
            let ghost al0 = alerts@;
            proof {
                assert(usage.limits@.take(i + 1).drop_last() =~= usage.limits@.take(i as int));
            }
            state.clear_thresholds_above(account_id, limit.id.as_str(), percent);
            let reached = Self::check_threshold_notifications(
                state,
                account_id,
                limit.id.as_str(),
                percent,
                &settings.thresholds,
                !dnd,
            );
            let mut k: usize = 0;
            while k < reached.len()
                invariant
                    k <= reached@.len(),
                    alerts@ == al0 + as_threshold_alerts(reached@.take(k as int), i, percent),
                decreases reached@.len() - k,
            {
                alerts.push(Alert::Threshold { limit: i, threshold: reached[k], percent });
                proof {
                    assert(reached@.take(k + 1).drop_last() =~= reached@.take(k as int));
                }
                k = k + 1;
                proof {
                    assert(alerts@ =~= al0 + as_threshold_alerts(reached@.take(k as int), i, percent));
                }
            }
            proof {
                assert(reached@.take(reached@.len() as int) =~= reached@);
            }
            if settings.notify_on_reset {
                if Self::check_reset_notification(state, account_id, limit, previous) {
                    if !dnd {
                        alerts.push(Alert::Reset { limit: i, percent });
                    }
                    resets.push(i);
                }
            }
            proof {
                assert(alerts@ =~= sp0.2 + st.2);
                assert(resets@ =~= sp0.3 + st.3);
            }
            i = i + 1;
        }
        proof {
            assert(usage.limits@.take(usage.limits@.len() as int) =~= usage.limits@);
        }
        UsageAlerts { alerts, resets }
    }

    /// Warns once that a limit resets within the hour while utilization is
    /// at least 75%. Suppressed, and not marked, during do-not-disturb.
    pub fn check_upcoming_reset(
        state: &mut NotificationState,
        settings: &NotificationSettings,
        account_id: &str,
        limit_index: usize,
        limit: &UsageLimit,
        now: i64,
        dnd: bool,
    ) -> (r: Option<Alert>)
        ensures
            ({
                let due = reset_soon_due(settings, old(state).warnings(), account_id@, limit, now);
                &&& r == (if due && !dnd {
                    Some(
                        Alert::ResetSoon {
                            limit: limit_index,
                            minutes: ((limit.resets_at - now) / 60) as i64,
                            percent: limit.percent(),
                        },
                    )
                } else {
                    None
                })
                &&& final(state).warnings() == (if due && !dnd {
                    old(state).warnings().insert((account_id@, limit.id@))
                } else {
                    old(state).warnings()
                })
            }),
            final(state).thresholds() == old(state).thresholds(),
    {
        if !settings.enabled || !settings.notify_on_reset || dnd {
            return None;
        }
        let until: i128 = limit.resets_at as i128 - now as i128;
        let percent = limit.utilization / 100;
        if 0 < until && until <= 3600 && percent >= 75 && !state.was_reset_warning_sent(
            account_id,
            limit.id.as_str(),
        ) {
            state.mark_reset_warning_sent(account_id, limit.id.as_str());
            let minutes: i64 = (until / 60) as i64;
            Some(Alert::ResetSoon { limit: limit_index, minutes, percent })
        } else {
            None
        }
    }

    /// Whether a session-expiry notice goes out: notifications and expiry
    /// notices are on, and do-not-disturb is not active.
    pub fn send_session_expiry_warning(settings: &NotificationSettings, dnd: bool) -> (r: bool)
        ensures
            r == (settings.enabled && settings.notify_on_expiry && !dnd),
    {
        settings.enabled && settings.notify_on_expiry && !dnd
    }

    /// Whether minute `now_minute` of the local day falls in the configured
    /// do-not-disturb window `[start, end)`.
    pub fn is_dnd_active(settings: &NotificationSettings, now_minute: u32) -> (r: bool)
        ensures
            r == dnd_active_at(settings, now_minute),
    {
        if !settings.dnd_enabled {
            return false;
        }
        let start = match minutes_of(&settings.dnd_start_time) {
            Some(m) => m,
            None => return false,
        };
        let end = match minutes_of(&settings.dnd_end_time) {
            Some(m) => m,
            None => return false,
        };
        if start > end {
            now_minute >= start || now_minute < end
        } else {
            now_minute >= start && now_minute < end
        }
    }
}

} // verus!
