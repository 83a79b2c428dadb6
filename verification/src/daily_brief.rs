//! The daily brief: the day's net-worth movement, top movers, allocation
//! drift, stale signals and pending drafts; one brief per day, a same-day
//! recomputation replacing the earlier one.
use vstd::prelude::*;

use crate::dated_store::{derefs, lemma_rewrite_in_place, position_of, upserted, Dated, DatedStore};
use crate::dates::{now_millis, CalendarDate};
use crate::decimal::{abs_int, dec_div, dec_sub, decimal_div, decimal_sub, max_units, pow10, Dec};
use crate::text::owned;

verus! {

/// Net-worth movement against the previous brief.
pub struct NetWorthDelta {
    pub previous: Dec,
    pub current: Dec,
    pub absolute: Dec,
    /// `absolute / previous` (0.0125 is +1.25%); none when there was no
    /// baseline.
    pub percent: Option<Dec>,
}

/// The two figures are valid, their difference is in range, and so is
/// its ratio to a nonzero baseline (with a unit to spare for rounding).
pub open spec fn delta_in_range(previous: Dec, current: Dec) -> bool {
    &&& previous.valid()
    &&& current.valid()
    &&& abs_int(current.units() - previous.units()) <= max_units()
    &&& previous.units() != 0 ==> (abs_int(current.units() - previous.units()) + pow10(28)) * pow10(28) <= max_units()
        * abs_int(previous.units())
}

pub open spec fn from_pair(p: (i128, u32)) -> Dec {
    Dec { mantissa: p.0, scale: p.1 }
}

impl NetWorthDelta {
    /// The movement from `previous` to `current`.
    pub fn new(previous: Dec, current: Dec) -> (r: Self)
        requires
            delta_in_range(previous, current),
        ensures
            r.previous == previous,
            r.current == current,
            r.absolute == from_pair(decimal_sub(current.pair(), previous.pair())),
            previous.units() == 0 ==> r.percent is None,
            previous.units() != 0 ==> r.percent == Some(from_pair(decimal_div(r.absolute.pair(), previous.pair()))),
            r.absolute.valid(),
    {
        let absolute = dec_sub(current, previous);
        let percent = if previous.mantissa == 0 {
            proof {
                assert(previous.units() == 0);
            }
            None
        } else {
            proof {
                crate::decimal::lemma_pow10_positive(28);
                crate::decimal::lemma_pow10_positive((28 - previous.scale) as nat);
                assert(previous.units() != 0) by (nonlinear_arith)
                    requires
                        previous.mantissa != 0,
                        pow10((28 - previous.scale) as nat) >= 1,
                        previous.units() == previous.mantissa * pow10((28 - previous.scale) as nat),
                ;
                let p = pow10(28);
                let e = abs_int(current.units() - previous.units());
                assert(abs_int(absolute.units()) <= e + p);
                assert(abs_int(absolute.units()) * p <= (e + p) * p) by (nonlinear_arith)
                    requires
                        abs_int(absolute.units()) <= e + p,
                        p >= 1,
                ;
            }
            Some(dec_div(absolute, previous))
        };
        proof {
            if previous.mantissa == 0 {
                assert(previous.units() == 0);
            }
        }
        NetWorthDelta { previous, current, absolute, percent }
    }
}

/// One holding's part in the day's movement.
pub struct HoldingMover {
    pub asset_id: String,
    pub display_name: String,
    pub previous_value: Dec,
    pub current_value: Dec,
    pub delta: Dec,
    pub percent: Option<Dec>,
    pub currency: String,
}

/// One category that is off its target.
pub struct AllocationDriftEntry {
    pub category_key: String,
    pub target_pct: Dec,
    pub actual_pct: Dec,
    /// `actual - target`, signed.
    pub drift_pct: Dec,
}

/// A signal that has gone stale (an FX rate, a quote, a broker sync).
pub struct StaleSignal {
    pub key: String,
    pub age_hours: i64,
}

/// Drafts of one tool that were opened and not confirmed.
pub struct PendingDraftSummary {
    pub tool_name: String,
    pub count: u32,
}

/// One day's brief.
pub struct DailyBrief {
    pub brief_date: CalendarDate,
    pub base_currency: String,
    pub net_worth: NetWorthDelta,
    pub top_movers: Vec<HoldingMover>,
    pub allocation_drift: Vec<AllocationDriftEntry>,
    pub stale_signals: Vec<StaleSignal>,
    pub pending_drafts: Vec<PendingDraftSummary>,
    /// When the brief was computed, in milliseconds since the epoch.
    pub computed_at: i64,
    /// Whether the user has opened the brief.
    pub read: bool,
}

impl Dated for DailyBrief {
    open spec fn date_of(&self) -> CalendarDate {
        self.brief_date
    }

    fn date(&self) -> (r: CalendarDate) {
        self.brief_date
    }
}

impl DailyBrief {
    /// A brief with the day's net-worth movement and nothing else, unread,
    /// computed now.
    pub fn new(brief_date: CalendarDate, base_currency: &str, net_worth: NetWorthDelta) -> (r: Self)
        ensures
            r.brief_date == brief_date,
            r.base_currency@ == base_currency@,
            r.net_worth == net_worth,
            r.top_movers@.len() == 0,
            r.allocation_drift@.len() == 0,
            r.stale_signals@.len() == 0,
            r.pending_drafts@.len() == 0,
            !r.read,
    {
        DailyBrief {
            brief_date,
            base_currency: owned(base_currency),
            net_worth,
            top_movers: Vec::new(),
            allocation_drift: Vec::new(),
            stale_signals: Vec::new(),
            pending_drafts: Vec::new(),
            computed_at: now_millis(),
            read: false,
        }
    }

    pub fn with_movers(self, movers: Vec<HoldingMover>) -> (r: Self)
        ensures
            r == (DailyBrief { top_movers: movers, ..self }),
    {
        let mut b = self;
        b.top_movers = movers;
        b
    }

    pub fn with_drift(self, drift: Vec<AllocationDriftEntry>) -> (r: Self)
        ensures
            r == (DailyBrief { allocation_drift: drift, ..self }),
    {
        let mut b = self;
        b.allocation_drift = drift;
        b
    }

    pub fn with_stale_signals(self, signals: Vec<StaleSignal>) -> (r: Self)
        ensures
            r == (DailyBrief { stale_signals: signals, ..self }),
    {
        let mut b = self;
        b.stale_signals = signals;
        b
    }

    pub fn with_pending_drafts(self, drafts: Vec<PendingDraftSummary>) -> (r: Self)
        ensures
            r == (DailyBrief { pending_drafts: drafts, ..self }),
    {
        let mut b = self;
        b.pending_drafts = drafts;
        b
    }

    pub open spec fn actionable(&self) -> bool {
        self.net_worth.absolute.mantissa != 0 || self.top_movers@.len() > 0 || self.allocation_drift@.len() > 0
            || self.stale_signals@.len() > 0 || self.pending_drafts@.len() > 0
    }

    /// Whether the brief has something worth showing: a net-worth movement,
    /// movers, drift, stale signals or pending drafts.
    pub fn is_actionable(&self) -> (r: bool)
        ensures
            r == self.actionable(),
    {
        self.net_worth.absolute.mantissa != 0 || self.top_movers.len() > 0 || self.allocation_drift.len() > 0
            || self.stale_signals.len() > 0 || self.pending_drafts.len() > 0
    }
}

/// The briefs, one per day, in date order.
pub struct InMemoryDailyBriefService {
    briefs: DatedStore<DailyBrief>,
}

impl InMemoryDailyBriefService {
    pub closed spec fn view(&self) -> Seq<DailyBrief> {
        self.briefs@
    }

    pub closed spec fn wf(&self) -> bool {
        self.briefs.wf()
    }

    pub fn new() -> (r: Self)
        ensures
            r.wf(),
            r@ == Seq::<DailyBrief>::empty(),
    {
        InMemoryDailyBriefService { briefs: DatedStore::new() }
    }

    pub fn len(&self) -> (r: usize)
        ensures
            r == self@.len(),
    {
        self.briefs.len()
    }

    pub fn is_empty(&self) -> (r: bool)
        ensures
            r == (self@.len() == 0),
    {
        self.briefs.is_empty()
    }

    /// Stores the brief, replacing the one of its day.
    pub fn upsert(&mut self, brief: DailyBrief)
        requires
            old(self).wf(),
        ensures
            final(self).wf(),
            final(self)@ == upserted(old(self)@, brief),
    {
        self.briefs.upsert(brief);
    }

    /// The brief of the latest day, if any.
    pub fn latest(&self) -> (r: Option<&DailyBrief>)
        requires
            self.wf(),
        ensures
            self@.len() == 0 ==> r is None,
            self@.len() > 0 ==> r == Some(&self@.last()),
    {
        self.briefs.latest()
    }

    /// The brief of day `date`, if any.
    pub fn get(&self, date: CalendarDate) -> (r: Option<&DailyBrief>)
        requires
            self.wf(),
        ensures
            match position_of(self@, date) {
                Some(i) => r == Some(&self@[i]),
                None => r is None,
            },
    {
        self.briefs.get(date)
    }

    /// The `limit` latest briefs, newest first.
    pub fn recent(&self, limit: usize) -> (r: Vec<&DailyBrief>)
        ensures
            r@.len() == if limit < self@.len() {
                limit as int
            } else {
                self@.len() as int
            },
            forall|i: int| 0 <= i < r@.len() ==> #[trigger] r@[i] == self@[self@.len() - 1 - i],
    {
        self.briefs.recent(limit)
    }

    /// Marks the brief of day `date` read, if there is one; nothing else
    /// changes.
    pub fn mark_read(&mut self, date: CalendarDate)
        requires
            old(self).wf(),
        ensures
            final(self).wf(),
            match position_of(old(self)@, date) {
                Some(i) => final(self)@ == old(self)@.update(i, (DailyBrief { read: true, ..old(self)@[i] })),
                None => final(self)@ == old(self)@,
            },
    {
        let ghost s = self@;
        match self.briefs.remove_day(date) {
            Some(b) => {
                let mut b = b;
                b.read = true;
                let ghost i = position_of(s, date).unwrap();
                proof {
                    lemma_rewrite_in_place(s, i, b);
                }
                self.briefs.upsert(b);
            },
            None => {},
        }
    }
}

} // verus!
