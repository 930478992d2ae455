//! Multi-tier retention of dated artifacts.
//!
//! Artifacts are offered newest first. Each tier (daily, weekly, monthly,
//! quarterly, yearly) keeps the first artifact of each calendar bucket until its
//! quota of buckets is used up; an artifact is kept if any tier takes it.

use vstd::prelude::*;
use crate::date::{CalendarDate, ordinal_of, quarter_of, iso_week_number, lemma_ordinal_injective};

verus! {

/// How many buckets each tier keeps; `None` keeps every bucket of the tier.
#[derive(Clone, Copy, Debug)]
pub struct RetentionConfig {
    /// First artifact of each day.
    pub daily: Option<usize>,
    /// First artifact of each ISO week.
    pub weekly: Option<usize>,
    /// First artifact of each month.
    pub monthly: Option<usize>,
    /// First artifact of each quarter.
    pub quarterly: Option<usize>,
    /// First artifact of each year.
    pub yearly: Option<usize>,
}

impl Default for RetentionConfig {
    fn default() -> (r: Self)
        ensures
            r.daily == Some(10usize),
            r.weekly == Some(0usize),
            r.monthly == Some(10usize),
            r.quarterly == Some(0usize),
            r.yearly == Some(10usize),
    {
        RetentionConfig {
            daily: Some(10),
            weekly: Some(0),
            monthly: Some(10),
            quarterly: Some(0),
            yearly: Some(10),
        }
    }
}

/// Key of the daily bucket: year and day of the year.
pub open spec fn daily_key(d: CalendarDate) -> (i32, u32) {
    (d.year, ordinal_of(d.year as int, d.month as int, d.day as int) as u32)
}

/// Key of the weekly bucket: year and ISO week.
pub open spec fn weekly_key(d: CalendarDate) -> (i32, u32) {
    (d.year, iso_week_number(d.year, d.month, d.day))
}

/// Key of the monthly bucket: year and month.
pub open spec fn monthly_key(d: CalendarDate) -> (i32, u32) {
    (d.year, d.month)
}

/// Key of the quarterly bucket: year and quarter.
pub open spec fn quarterly_key(d: CalendarDate) -> (i32, u32) {
    (d.year, quarter_of(d.month as int) as u32)
}

/// Key of the yearly bucket: the year.
pub open spec fn yearly_key(d: CalendarDate) -> i32 {
    d.year
}

/// A tier with `quota` that has seen the keys `seen` takes `key`: it has room
/// left and the key is new to it.
pub open spec fn takes<K>(quota: Option<usize>, seen: Seq<K>, key: K) -> bool {
    (quota is None || seen.len() < quota->0) && !seen.contains(key)
}

/// The keys a tier has seen after it was offered `key`.
pub open spec fn after_offer<K>(quota: Option<usize>, seen: Seq<K>, key: K) -> Seq<K> {
    if takes(quota, seen, key) {
        seen.push(key)
    } else {
        seen
    }
}

/// The state of a retention run: the quotas and the bucket keys seen by each
/// tier, in the order they were taken.
pub struct RetentionView {
    pub config: RetentionConfig,
    pub daily: Seq<(i32, u32)>,
    pub weekly: Seq<(i32, u32)>,
    pub monthly: Seq<(i32, u32)>,
    pub quarterly: Seq<(i32, u32)>,
    pub yearly: Seq<i32>,
}

/// A run that has seen nothing yet.
pub open spec fn fresh(config: RetentionConfig) -> RetentionView {
    RetentionView {
        config,
        daily: Seq::empty(),
        weekly: Seq::empty(),
        monthly: Seq::empty(),
        quarterly: Seq::empty(),
        yearly: Seq::empty(),
    }
}

/// Whether the artifact dated `d` is kept in state `v`: some tier takes it.
pub open spec fn retained(v: RetentionView, d: CalendarDate) -> bool {
    ||| takes(v.config.daily, v.daily, daily_key(d))
    ||| takes(v.config.weekly, v.weekly, weekly_key(d))
    ||| takes(v.config.monthly, v.monthly, monthly_key(d))
    ||| takes(v.config.quarterly, v.quarterly, quarterly_key(d))
    ||| takes(v.config.yearly, v.yearly, yearly_key(d))
}

/// The state after the artifact dated `d` was offered in state `v`.
pub open spec fn after_retain(v: RetentionView, d: CalendarDate) -> RetentionView {
    RetentionView {
        config: v.config,
        daily: after_offer(v.config.daily, v.daily, daily_key(d)),
        weekly: after_offer(v.config.weekly, v.weekly, weekly_key(d)),
        monthly: after_offer(v.config.monthly, v.monthly, monthly_key(d)),
        quarterly: after_offer(v.config.quarterly, v.quarterly, quarterly_key(d)),
        yearly: after_offer(v.config.yearly, v.yearly, yearly_key(d)),
    }
}

/// Offers `dates` one after the other from state `start`: the decisions, in
/// order, and the final state.
pub open spec fn replay(start: RetentionView, dates: Seq<CalendarDate>) -> (Seq<bool>, RetentionView)
    decreases dates.len(),
{
    if dates.len() == 0 {
        (Seq::empty(), start)
    } else {
        let (decisions, v) = replay(start, dates.drop_last());
        (decisions.push(retained(v, dates.last())), after_retain(v, dates.last()))
    }
}

/// Every tier of `config` is unbounded.
pub open spec fn all_unbounded(config: RetentionConfig) -> bool {
    &&& config.daily is None
    &&& config.weekly is None
    &&& config.monthly is None
    &&& config.quarterly is None
    &&& config.yearly is None
}

/// Every tier of `config` has a quota of zero.
pub open spec fn all_zero(config: RetentionConfig) -> bool {
    &&& config.daily == Some(0usize)
    &&& config.weekly == Some(0usize)
    &&& config.monthly == Some(0usize)
    &&& config.quarterly == Some(0usize)
    &&& config.yearly == Some(0usize)
}

/// No date before position `i` of `dates` falls on the day of `dates[i]`.
pub open spec fn first_of_its_day(dates: Seq<CalendarDate>, i: int) -> bool {
    forall|j: int| 0 <= j < i ==> daily_key(#[trigger] dates[j]) != daily_key(dates[i])
}

/// Some date of `dates` has the daily key `k`.
pub open spec fn day_seen(dates: Seq<CalendarDate>, k: (i32, u32)) -> bool {
    exists|j: int| 0 <= j < dates.len() && daily_key(#[trigger] dates[j]) == k
}

/// Every bucket key of `d` is among those seen in `v`.
pub open spec fn holds_keys_of(v: RetentionView, d: CalendarDate) -> bool {
    &&& v.daily.contains(daily_key(d))
    &&& v.weekly.contains(weekly_key(d))
    &&& v.monthly.contains(monthly_key(d))
    &&& v.quarterly.contains(quarterly_key(d))
    &&& v.yearly.contains(yearly_key(d))
}

/// The bucket keys seen in `v` are still seen, in the same order, in `w`.
pub open spec fn keys_kept(v: RetentionView, w: RetentionView) -> bool {
    &&& v.daily.is_prefix_of(w.daily)
    &&& v.weekly.is_prefix_of(w.weekly)
    &&& v.monthly.is_prefix_of(w.monthly)
    &&& v.quarterly.is_prefix_of(w.quarterly)
    &&& v.yearly.is_prefix_of(w.yearly)
}

/// Offering dates one by one yields one decision per date and keeps the quotas.
pub proof fn lemma_replay_len(start: RetentionView, dates: Seq<CalendarDate>)
    ensures
        replay(start, dates).0.len() == dates.len(),
        replay(start, dates).1.config == start.config,
    decreases dates.len(),
{
    if dates.len() > 0 {
        lemma_replay_len(start, dates.drop_last());
    }
}

proof fn lemma_offer_keeps<K>(quota: Option<usize>, seen: Seq<K>, key: K)
    ensures
        quota is None ==> after_offer(quota, seen, key).contains(key),
        forall|k: K| seen.contains(k) ==> #[trigger] after_offer(quota, seen, key).contains(k),
        forall|k: K| #[trigger] after_offer(quota, seen, key).contains(k) ==> seen.contains(k) || k == key,
{
    let after = after_offer(quota, seen, key);
    if takes(quota, seen, key) {
        assert(after[seen.len() as int] == key);
        assert forall|k: K| seen.contains(k) implies #[trigger] after.contains(k) by {
            let i = choose|i: int| 0 <= i < seen.len() && seen[i] == k;
            assert(after[i] == k);
        }
        assert forall|k: K| #[trigger] after.contains(k) implies seen.contains(k) || k == key by {
            let i = choose|i: int| 0 <= i < after.len() && after[i] == k;
            if i < seen.len() {
                assert(seen[i] == k);
            }
        }
    }
}

proof fn lemma_retain_keeps(v: RetentionView, d: CalendarDate)
    ensures
        all_unbounded(v.config) ==> holds_keys_of(after_retain(v, d), d),
        forall|e: CalendarDate| holds_keys_of(v, e) ==> #[trigger] holds_keys_of(after_retain(v, d), e),
        forall|k: (i32, u32)| #[trigger] after_retain(v, d).daily.contains(k) ==> v.daily.contains(k) || k == daily_key(d),
{
    lemma_offer_keeps(v.config.daily, v.daily, daily_key(d));
    lemma_offer_keeps(v.config.weekly, v.weekly, weekly_key(d));
    lemma_offer_keeps(v.config.monthly, v.monthly, monthly_key(d));
    lemma_offer_keeps(v.config.quarterly, v.quarterly, quarterly_key(d));
    lemma_offer_keeps(v.config.yearly, v.yearly, yearly_key(d));
}

/// With every tier unbounded, an artifact is kept exactly when no artifact
/// offered before it fell on the same day: every date is kept the first time
/// its day comes up, and only a repeat of an already offered day is dropped.
pub proof fn lemma_unbounded_keeps_each_new_day(config: RetentionConfig, dates: Seq<CalendarDate>)
    requires
        all_unbounded(config),
        forall|i: int| 0 <= i < dates.len() ==> (#[trigger] dates[i]).wf(),
    ensures
        replay(fresh(config), dates).0.len() == dates.len(),
        forall|i: int|
            0 <= i < dates.len() ==> (replay(fresh(config), dates).0[i] <==> first_of_its_day(
                dates,
                i,
            )),
{
    lemma_unbounded_run(config, dates);
}

proof fn lemma_unbounded_run(config: RetentionConfig, dates: Seq<CalendarDate>)
    requires
        all_unbounded(config),
        forall|i: int| 0 <= i < dates.len() ==> (#[trigger] dates[i]).wf(),
    ensures
        replay(fresh(config), dates).0.len() == dates.len(),
        replay(fresh(config), dates).1.config == config,
        forall|j: int|
            0 <= j < dates.len() ==> holds_keys_of(replay(fresh(config), dates).1, #[trigger] dates[j]),
        forall|k: (i32, u32)| #[trigger]
            replay(fresh(config), dates).1.daily.contains(k) ==> day_seen(dates, k),
        forall|i: int|
            0 <= i < dates.len() ==> (replay(fresh(config), dates).0[i] <==> first_of_its_day(
                dates,
                i,
            )),
    decreases dates.len(),
{
    lemma_replay_len(fresh(config), dates);
    if dates.len() == 0 {
        return;
    }
    let pre = dates.drop_last();
    let d = dates.last();
    let last = dates.len() - 1;
    lemma_unbounded_run(config, pre);
    let (ds, v) = replay(fresh(config), pre);
    let w = after_retain(v, d);
    lemma_retain_keeps(v, d);
    assert(d.wf());
    if day_seen(pre, daily_key(d)) {
        let j = choose|j: int| 0 <= j < pre.len() && daily_key(#[trigger] pre[j]) == daily_key(d);
        assert(pre[j].wf());
        lemma_ordinal_injective(pre[j], d);
        assert(holds_keys_of(v, pre[j]));
        assert(!retained(v, d));
        assert(!first_of_its_day(dates, last)) by {
            assert(dates[j] == pre[j]);
        }
    } else {
        assert(!v.daily.contains(daily_key(d)));
        assert(retained(v, d));
        assert forall|j: int| 0 <= j < last implies daily_key(#[trigger] dates[j]) != daily_key(
            dates[last],
        ) by {
            assert(dates[j] == pre[j]);
        }
    }
    assert forall|j: int| 0 <= j < dates.len() implies holds_keys_of(w, #[trigger] dates[j]) by {
        if j < last {
            assert(dates[j] == pre[j]);
            assert(holds_keys_of(v, pre[j]));
        }
    }
    assert forall|k: (i32, u32)| #[trigger] w.daily.contains(k) implies day_seen(dates, k) by {
        if v.daily.contains(k) {
            let j = choose|j: int| 0 <= j < pre.len() && daily_key(#[trigger] pre[j]) == k;
            assert(dates[j] == pre[j]);
        } else {
            assert(daily_key(dates[last]) == k);
        }
    }
    assert forall|i: int| 0 <= i < last implies (replay(fresh(config), dates).0[i]
        <==> first_of_its_day(dates, i)) by {
        assert(first_of_its_day(dates, i) == first_of_its_day(pre, i)) by {
            assert forall|j: int| 0 <= j <= i implies dates[j] == pre[j] by {}
        }
    }
}

/// With every tier at quota zero, no artifact is ever kept.
pub proof fn lemma_zero_quotas_keep_nothing(v: RetentionView, d: CalendarDate)
    requires
        all_zero(v.config),
    ensures
        !retained(v, d),
{
}

/// Offering more dates never changes a decision already made, and never
/// evicts a bucket key already seen.
pub proof fn lemma_decisions_never_revised(
    start: RetentionView,
    dates: Seq<CalendarDate>,
    later: Seq<CalendarDate>,
)
    ensures
        replay(start, dates + later).0.len() == dates.len() + later.len(),
        replay(start, dates + later).0.subrange(0, dates.len() as int) == replay(start, dates).0,
        keys_kept(replay(start, dates).1, replay(start, dates + later).1),
    decreases later.len(),
{
    lemma_replay_len(start, dates);
    lemma_replay_len(start, dates + later);
    if later.len() == 0 {
        assert(dates + later =~= dates);
        assert(replay(start, dates).0.subrange(0, dates.len() as int) =~= replay(start, dates).0);
    } else {
        let shorter = later.drop_last();
        lemma_decisions_never_revised(start, dates, shorter);
        assert((dates + later).drop_last() =~= dates + shorter);
        let (ds, v) = replay(start, dates + shorter);
        let (es, w) = replay(start, dates + later);
        assert(es.subrange(0, dates.len() as int) =~= ds.subrange(0, dates.len() as int));
        let u = replay(start, dates).1;
        let d = (dates + later).last();
        assert(w == after_retain(v, d));
        assert(u.daily.is_prefix_of(w.daily)) by {
            assert(v.daily.is_prefix_of(w.daily));
        }
        assert(u.weekly.is_prefix_of(w.weekly)) by {
            assert(v.weekly.is_prefix_of(w.weekly));
        }
        assert(u.monthly.is_prefix_of(w.monthly)) by {
            assert(v.monthly.is_prefix_of(w.monthly));
        }
        assert(u.quarterly.is_prefix_of(w.quarterly)) by {
            assert(v.quarterly.is_prefix_of(w.quarterly));
        }
        assert(u.yearly.is_prefix_of(w.yearly)) by {
            assert(v.yearly.is_prefix_of(w.yearly));
        }
    }
}

/// Decides which dated artifacts to keep, offered newest first.
#[derive(Clone, Debug)]
pub struct Retention {
    pub config: RetentionConfig,
    /// Daily bucket keys taken so far, in the order taken.
    pub daily: Vec<(i32, u32)>,
    /// Weekly bucket keys taken so far, in the order taken.
    pub weekly: Vec<(i32, u32)>,
    /// Monthly bucket keys taken so far, in the order taken.
    pub monthly: Vec<(i32, u32)>,
    /// Quarterly bucket keys taken so far, in the order taken.
    pub quarterly: Vec<(i32, u32)>,
    /// Years taken so far, in the order taken.
    pub yearly: Vec<i32>,
}

impl View for Retention {
    type V = RetentionView;

    open spec fn view(&self) -> RetentionView {
        RetentionView {
            config: self.config,
            daily: self.daily@,
            weekly: self.weekly@,
            monthly: self.monthly@,
            quarterly: self.quarterly@,
            yearly: self.yearly@,
        }
    }
}

impl From<RetentionConfig> for Retention {
    fn from(config: RetentionConfig) -> (r: Self)
        ensures
            r@ == fresh(config),
            r.config == config,
    {
        Self::new(config)
    }
}

impl vstd::std_specs::convert::FromSpecImpl<RetentionConfig> for Retention {
    open spec fn obeys_from_spec() -> bool {
        false
    }

    open spec fn from_spec(config: RetentionConfig) -> Retention {
        arbitrary()
    }
}

impl Retention {
    /// A retention run with `config` that has seen nothing yet.
    pub fn new(config: RetentionConfig) -> (r: Self)
        ensures
            r@ == fresh(config),
            r.config == config,
    {
        let r = Retention {
            config,
            daily: Vec::new(),
            weekly: Vec::new(),
            monthly: Vec::new(),
            quarterly: Vec::new(),
            yearly: Vec::new(),
        };
        assert(r@.daily =~= Seq::<(i32, u32)>::empty());
        assert(r@.weekly =~= Seq::<(i32, u32)>::empty());
        assert(r@.monthly =~= Seq::<(i32, u32)>::empty());
        assert(r@.quarterly =~= Seq::<(i32, u32)>::empty());
        assert(r@.yearly =~= Seq::<i32>::empty());
        r
    }

    /// Whether the artifact dated `date` is kept. Dates must be offered newest
    /// first, each artifact once.
    pub fn retain(&mut self, date: CalendarDate) -> (kept: bool)
        requires
            date.wf(),
        ensures
            kept == retained(old(self)@, date),
            final(self)@ == after_retain(old(self)@, date),
            final(self).config == old(self).config,
    {
        let daily_key = (date.year, date.ordinal());
        let new_daily = offer_pair(self.config.daily, &mut self.daily, daily_key);
        let weekly_key = (date.year, date.iso_week());
        let new_weekly = offer_pair(self.config.weekly, &mut self.weekly, weekly_key);
        let monthly_key = (date.year, date.month);
        let new_monthly = offer_pair(self.config.monthly, &mut self.monthly, monthly_key);
        let quarterly_key = (date.year, date.quarter());
        let new_quarterly = offer_pair(self.config.quarterly, &mut self.quarterly, quarterly_key);
        let new_yearly = offer_year(self.config.yearly, &mut self.yearly, date.year);
        new_daily || new_weekly || new_monthly || new_quarterly || new_yearly
    }

    /// The decisions for `dates`, offered in order (newest first).
    pub fn retain_all(&mut self, dates: &Vec<CalendarDate>) -> (kept: Vec<bool>)
        requires
            forall|i: int| 0 <= i < dates@.len() ==> (#[trigger] dates@[i]).wf(),
        ensures
            kept@ == replay(old(self)@, dates@).0,
            final(self)@ == replay(old(self)@, dates@).1,
            final(self).config == old(self).config,
    {
        let ghost start = self@;
        let mut kept: Vec<bool> = Vec::new();
        let mut i: usize = 0;
        while i < dates.len()
            invariant
                i <= dates@.len(),
                forall|k: int| 0 <= k < dates@.len() ==> (#[trigger] dates@[k]).wf(),
                kept@ == replay(start, dates@.subrange(0, i as int)).0,
                self@ == replay(start, dates@.subrange(0, i as int)).1,
                self.config == start.config,
            decreases dates.len() - i,
        {
            assert(dates@.subrange(0, i + 1).drop_last() =~= dates@.subrange(0, i as int));
            let k = self.retain(dates[i]);
            kept.push(k);
            i += 1;
        }
        assert(dates@.subrange(0, dates@.len() as int) =~= dates@);
        kept
    }
}

fn has_room(quota: Option<usize>, len: usize) -> (r: bool)
    ensures
        r == (quota is None || len < quota->0),
{
    match quota {
        None => true,
        Some(q) => len < q,
    }
}

fn contains_pair(seen: &Vec<(i32, u32)>, key: (i32, u32)) -> (found: bool)
    ensures
        found == seen@.contains(key),
{
    let mut i: usize = 0;
    while i < seen.len()
        invariant
            0 <= i <= seen.len(),
            forall|j: int| 0 <= j < i ==> seen@[j] != key,
        decreases seen.len() - i,
    {
        if seen[i].0 == key.0 && seen[i].1 == key.1 {
            assert(seen@[i as int] == key);
            return true;
        }
        i += 1;
    }
    false
}

fn contains_year(seen: &Vec<i32>, key: i32) -> (found: bool)
    ensures
        found == seen@.contains(key),
{
    let mut i: usize = 0;
    while i < seen.len()
        invariant
            0 <= i <= seen.len(),
            forall|j: int| 0 <= j < i ==> seen@[j] != key,
        decreases seen.len() - i,
    {
        if seen[i] == key {
            return true;
        }
        i += 1;
    }
    false
}

fn offer_pair(quota: Option<usize>, seen: &mut Vec<(i32, u32)>, key: (i32, u32)) -> (taken: bool)
    ensures
        taken == takes(quota, old(seen)@, key),
        final(seen)@ == after_offer(quota, old(seen)@, key),
{
    if has_room(quota, seen.len()) && !contains_pair(seen, key) {
        seen.push(key);
        true
    } else {
        false
    }
}

fn offer_year(quota: Option<usize>, seen: &mut Vec<i32>, key: i32) -> (taken: bool)
    ensures
        taken == takes(quota, old(seen)@, key),
        final(seen)@ == after_offer(quota, old(seen)@, key),
{
    if has_room(quota, seen.len()) && !contains_year(seen, key) {
        seen.push(key);
        true
    } else {
        false
    }
}

} // verus!
