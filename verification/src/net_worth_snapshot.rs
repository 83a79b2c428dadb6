//! Daily net-worth snapshots: one per day, the net worth derived from the
//! day's assets and liabilities, a same-day recomputation replacing the
//! earlier one.
use vstd::prelude::*;

use crate::dated_store::{derefs, in_range, position_of, upserted, Dated, DatedStore};
use crate::dates::{now_millis, CalendarDate};
use crate::decimal::{abs_int, dec_sub, decimal_sub, max_units, Dec};
use crate::text::owned;

verus! {

/// What computed a snapshot.
#[derive(Clone, Copy, Debug, PartialEq, Eq, Structural)]
pub enum SnapshotSource {
    /// The background scheduler.
    Scheduler,
    /// The user opened the app and the dashboard recomputed.
    AppOpen,
    /// The user asked for a snapshot.
    ManualTrigger,
    /// Reconstructed from historical data.
    Backfill,
}

pub open spec fn source_name(s: SnapshotSource) -> Seq<char> {
    match s {
        SnapshotSource::Scheduler => "scheduler"@,
        SnapshotSource::AppOpen => "app_open"@,
        SnapshotSource::ManualTrigger => "manual_trigger"@,
        SnapshotSource::Backfill => "backfill"@,
    }
}

impl SnapshotSource {
    /// The stored name of the source.
    pub fn as_str(&self) -> (r: &'static str)
        ensures
            r@ == source_name(*self),
    {
        match self {
            SnapshotSource::Scheduler => "scheduler",
            SnapshotSource::AppOpen => "app_open",
            SnapshotSource::ManualTrigger => "manual_trigger",
            SnapshotSource::Backfill => "backfill",
        }
    }
}

/// One row of the breakdown (by asset class, account type, ...).
pub struct NetWorthBreakdownEntry {
    pub key: String,
    pub value: Dec,
}

/// One day's snapshot.
pub struct NetWorthSnapshot {
    pub snapshot_date: CalendarDate,
    pub base_currency: String,
    pub total_assets: Dec,
    pub total_liabilities: Dec,
    /// `total_assets - total_liabilities`.
    pub net_worth: Dec,
    pub breakdown: Vec<NetWorthBreakdownEntry>,
    pub source: SnapshotSource,
    /// When the row was written, in milliseconds since the epoch.
    pub recorded_at: i64,
}

/// The fields a caller computes for a snapshot.
pub struct NetWorthSnapshotInput {
    pub snapshot_date: CalendarDate,
    pub base_currency: String,
    pub total_assets: Dec,
    pub total_liabilities: Dec,
    pub breakdown: Vec<NetWorthBreakdownEntry>,
    pub source: SnapshotSource,
}

pub open spec fn entry_views(v: Seq<NetWorthBreakdownEntry>) -> Seq<(Seq<char>, Dec)> {
    v.map_values(|e: NetWorthBreakdownEntry| (e.key@, e.value))
}

pub ghost struct SnapshotView {
    pub snapshot_date: CalendarDate,
    pub base_currency: Seq<char>,
    pub total_assets: Dec,
    pub total_liabilities: Dec,
    pub net_worth: Dec,
    pub breakdown: Seq<(Seq<char>, Dec)>,
    pub source: SnapshotSource,
}

impl NetWorthSnapshot {
    /// The snapshot's figures (all but when it was written).
    pub open spec fn view(&self) -> SnapshotView {
        SnapshotView {
            snapshot_date: self.snapshot_date,
            base_currency: self.base_currency@,
            total_assets: self.total_assets,
            total_liabilities: self.total_liabilities,
            net_worth: self.net_worth,
            breakdown: entry_views(self.breakdown@),
            source: self.source,
        }
    }

    /// A snapshot reconstructed for a past day: as
    /// [`NetWorthSnapshotInput::into_snapshot`], with the source
    /// `Backfill` whatever the input says.
    pub fn backfilled(input: NetWorthSnapshotInput) -> (r: Self)
        requires
            input.figures_in_range(),
        ensures
            r@ == (SnapshotView { source: SnapshotSource::Backfill, ..input.derived() }),
    {
        let mut s = input.into_snapshot();
        s.source = SnapshotSource::Backfill;
        s
    }

    fn copy(&self) -> (r: Self)
        ensures
            r@ == self@,
            r.recorded_at == self.recorded_at,
    {
        let mut breakdown: Vec<NetWorthBreakdownEntry> = Vec::new();
        let mut i: usize = 0;
        while i < self.breakdown.len()
            invariant
                i <= self.breakdown@.len(),
                entry_views(breakdown@) == entry_views(self.breakdown@).take(i as int),
            decreases self.breakdown.len() - i,
        {
            let e = &self.breakdown[i];
            let ghost before = entry_views(breakdown@);
            breakdown.push(NetWorthBreakdownEntry { key: e.key.clone(), value: e.value });
            assert(entry_views(breakdown@) =~= before.push((e.key@, e.value)));
            assert(entry_views(self.breakdown@)[i as int] == (e.key@, e.value));
            assert(entry_views(breakdown@) =~= entry_views(self.breakdown@).take(i + 1));
            i = i + 1;
        }
        assert(entry_views(self.breakdown@).take(self.breakdown@.len() as int) =~= entry_views(self.breakdown@));
        NetWorthSnapshot {
            snapshot_date: self.snapshot_date,
            base_currency: self.base_currency.clone(),
            total_assets: self.total_assets,
            total_liabilities: self.total_liabilities,
            net_worth: self.net_worth,
            breakdown,
            source: self.source,
            recorded_at: self.recorded_at,
        }
    }
}

impl Dated for NetWorthSnapshot {
    open spec fn date_of(&self) -> CalendarDate {
        self.snapshot_date
    }

    fn date(&self) -> (r: CalendarDate) {
        self.snapshot_date
    }
}

impl NetWorthSnapshotInput {
    /// Assets and liabilities are valid figures whose difference is in
    /// range.
    pub open spec fn figures_in_range(&self) -> bool {
        &&& self.total_assets.valid()
        &&& self.total_liabilities.valid()
        &&& abs_int(self.total_assets.units() - self.total_liabilities.units()) <= max_units()
    }

    /// The snapshot the input gives: its figures, and the net worth as
    /// assets minus liabilities.
    pub open spec fn derived(&self) -> SnapshotView {
        SnapshotView {
            snapshot_date: self.snapshot_date,
            base_currency: self.base_currency@,
            total_assets: self.total_assets,
            total_liabilities: self.total_liabilities,
            net_worth: Dec {
                mantissa: decimal_sub(self.total_assets.pair(), self.total_liabilities.pair()).0,
                scale: decimal_sub(self.total_assets.pair(), self.total_liabilities.pair()).1,
            },
            breakdown: entry_views(self.breakdown@),
            source: self.source,
        }
    }

    /// Builds the stored snapshot, written now.
    pub fn into_snapshot(self) -> (r: NetWorthSnapshot)
        requires
            self.figures_in_range(),
        ensures
            r@ == self.derived(),
            r.net_worth.valid(),
    {
        let net_worth = dec_sub(self.total_assets, self.total_liabilities);
        NetWorthSnapshot {
            snapshot_date: self.snapshot_date,
            base_currency: self.base_currency,
            total_assets: self.total_assets,
            total_liabilities: self.total_liabilities,
            net_worth,
            breakdown: self.breakdown,
            source: self.source,
            recorded_at: now_millis(),
        }
    }
}

/// The snapshots, one per day, in date order.
pub struct InMemoryNetWorthSnapshotService {
    snapshots: DatedStore<NetWorthSnapshot>,
}

pub open spec fn snapshot_views(s: Seq<NetWorthSnapshot>) -> Seq<SnapshotView> {
    s.map_values(|x: NetWorthSnapshot| x@)
}

impl InMemoryNetWorthSnapshotService {
    pub closed spec fn view(&self) -> Seq<NetWorthSnapshot> {
        self.snapshots@
    }

    pub closed spec fn wf(&self) -> bool {
        self.snapshots.wf()
    }

    pub fn new() -> (r: Self)
        ensures
            r.wf(),
            r@ == Seq::<NetWorthSnapshot>::empty(),
    {
        InMemoryNetWorthSnapshotService { snapshots: DatedStore::new() }
    }

    pub fn len(&self) -> (r: usize)
        ensures
            r == self@.len(),
    {
        self.snapshots.len()
    }

    pub fn is_empty(&self) -> (r: bool)
        ensures
            r == (self@.len() == 0),
    {
        self.snapshots.is_empty()
    }

    /// Stores the day's snapshot built from `input`, replacing one already
    /// stored for that day; gives back the stored snapshot.
    pub fn upsert(&mut self, input: NetWorthSnapshotInput) -> (r: NetWorthSnapshot)
        requires
            old(self).wf(),
            input.figures_in_range(),
        ensures
            final(self).wf(),
            r@ == input.derived(),
            (exists|stored: NetWorthSnapshot|
                stored@ == input.derived() && final(self)@ == upserted(old(self)@, stored)),
    {
        let snapshot = input.into_snapshot();
        let out = snapshot.copy();
        self.snapshots.upsert(snapshot);
        out
    }

    /// The snapshots of the days from `from` to `to`, both included,
    /// oldest first.
    pub fn range(&self, from: CalendarDate, to: CalendarDate) -> (r: Vec<&NetWorthSnapshot>)
        ensures
            derefs(r@) == in_range(self@, from, to, self@.len() as int),
    {
        self.snapshots.range(from, to)
    }

    /// The snapshot of the latest day, if any.
    pub fn latest(&self) -> (r: Option<&NetWorthSnapshot>)
        requires
            self.wf(),
        ensures
            self@.len() == 0 ==> r is None,
            self@.len() > 0 ==> r == Some(&self@.last()),
    {
        self.snapshots.latest()
    }

    /// The snapshot of day `date`, if any.
    pub fn get(&self, date: CalendarDate) -> (r: Option<&NetWorthSnapshot>)
        requires
            self.wf(),
        ensures
            match position_of(self@, date) {
                Some(i) => r == Some(&self@[i]),
                None => r is None,
            },
    {
        self.snapshots.get(date)
    }
}

} // verus!
