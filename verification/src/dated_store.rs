//! A store of records with one record per calendar day, kept in date
//! order: writing a day's record replaces the one already there, reading a
//! day gives back what was last written for it.
use vstd::prelude::*;

use crate::dates::{date_before, is_before, same_day, CalendarDate};

verus! {

/// A record that belongs to a calendar day.
pub trait Dated {
    spec fn date_of(&self) -> CalendarDate;

    fn date(&self) -> (r: CalendarDate)
        ensures
            r == self.date_of(),
    ;
}

/// Days in increasing order, no day twice.
pub open spec fn ordered<T: Dated>(s: Seq<T>) -> bool {
    forall|i: int, j: int| 0 <= i < j < s.len() ==> date_before(#[trigger] s[i].date_of(), #[trigger] s[j].date_of())
}

/// How many of the first `k` records are of a day before `d`.
pub open spec fn count_before<T: Dated>(s: Seq<T>, d: CalendarDate, k: int) -> nat
    decreases k,
{
    if k <= 0 {
        0
    } else {
        count_before(s, d, k - 1) + if date_before(s[k - 1].date_of(), d) {
            1nat
        } else {
            0nat
        }
    }
}

/// Where a record of day `d` goes: after the records of earlier days.
pub open spec fn slot<T: Dated>(s: Seq<T>, d: CalendarDate) -> int {
    count_before(s, d, s.len() as int) as int
}

/// The records after writing `item`: it replaces the record of its day,
/// or goes in among the others in date order.
pub open spec fn upserted<T: Dated>(s: Seq<T>, item: T) -> Seq<T> {
    let k = slot(s, item.date_of());
    if k < s.len() && s[k].date_of() == item.date_of() {
        s.update(k, item)
    } else {
        s.insert(k, item)
    }
}

/// The position of the record of day `d`, if there is one.
pub open spec fn position_of<T: Dated>(s: Seq<T>, d: CalendarDate) -> Option<int> {
    if exists|i: int| 0 <= i < s.len() && s[i].date_of() == d {
        Some(choose|i: int| 0 <= i < s.len() && s[i].date_of() == d)
    } else {
        None
    }
}

/// The records of days from `from` to `to`, both included, among the
/// first `k`, in order.
pub open spec fn in_range<T: Dated>(s: Seq<T>, from: CalendarDate, to: CalendarDate, k: int) -> Seq<T>
    decreases k,
{
    if k <= 0 {
        Seq::empty()
    } else {
        let r = in_range(s, from, to, k - 1);
        let d = s[k - 1].date_of();
        if !date_before(d, from) && !date_before(to, d) {
            r.push(s[k - 1])
        } else {
            r
        }
    }
}

pub open spec fn derefs<T>(s: Seq<&T>) -> Seq<T> {
    s.map_values(|x: &T| *x)
}

/// The store.
pub struct DatedStore<T> {
    items: Vec<T>,
}

impl<T: Dated> DatedStore<T> {
    /// The records, oldest first.
    pub closed spec fn view(&self) -> Seq<T> {
        self.items@
    }

    pub open spec fn wf(&self) -> bool {
        ordered(self@)
    }

    pub fn new() -> (r: Self)
        ensures
            r.wf(),
            r@ == Seq::<T>::empty(),
    {
        DatedStore { items: Vec::new() }
    }

    pub fn len(&self) -> (r: usize)
        ensures
            r == self@.len(),
    {
        self.items.len()
    }

    pub fn is_empty(&self) -> (r: bool)
        ensures
            r == (self@.len() == 0),
    {
        self.items.len() == 0
    }

    /// Writes `item`: replaces the record of its day, or adds it in date
    /// order.
    pub fn upsert(&mut self, item: T)
        requires
            old(self).wf(),
        ensures
            final(self).wf(),
            final(self)@ == upserted(old(self)@, item),
    {
        let ghost s = self@;
        let ghost d = item.date_of();
        let day = item.date();
        let mut k: usize = 0;
        while k < self.items.len() && is_before(self.items[k].date(), day)
            invariant
                s == self.items@,
                ordered(s),
                k <= s.len(),
                d == day,
                count_before(s, d, k as int) == k,
            decreases s.len() - k,
        {
            k = k + 1;
        }
        proof {
            lemma_count_rest(s, d, k as int);
        }
        if k < self.items.len() && same_day(self.items[k].date(), day) {
            self.items.set(k, item);
        } else {
            self.items.insert(k, item);
        }
        proof {
            lemma_upserted_ordered(s, item);
        }
    }

    /// The record of day `d`, if there is one.
    pub fn get(&self, d: CalendarDate) -> (r: Option<&T>)
        requires
            self.wf(),
        ensures
            match position_of(self@, d) {
                Some(i) => r == Some(&self@[i]),
                None => r is None,
            },
    {
        let ghost s = self@;
        let mut i: usize = 0;
        while i < self.items.len()
            invariant
                s == self.items@,
                ordered(s),
                i <= s.len(),
                forall|j: int| 0 <= j < i ==> s[j].date_of() != d,
            decreases s.len() - i,
        {
            if same_day(self.items[i].date(), d) {
                proof {
                    lemma_unique_position(s, d, i as int);
                }
                return Some(&self.items[i]);
            }
            i = i + 1;
        }
        None
    }

    /// The record of the latest day, if any.
    pub fn latest(&self) -> (r: Option<&T>)
        requires
            self.wf(),
        ensures
            self@.len() == 0 ==> r is None,
            self@.len() > 0 ==> r == Some(&self@.last()),
    {
        if self.items.len() == 0 {
            None
        } else {
            Some(&self.items[self.items.len() - 1])
        }
    }

    /// The records of the days from `from` to `to`, both included, oldest
    /// first.
    pub fn range(&self, from: CalendarDate, to: CalendarDate) -> (r: Vec<&T>)
        ensures
            derefs(r@) == in_range(self@, from, to, self@.len() as int),
    {
        let ghost s = self@;
        let mut out: Vec<&T> = Vec::new();
        let mut i: usize = 0;
        while i < self.items.len()
            invariant
                s == self.items@,
                i <= s.len(),
                derefs(out@) == in_range(s, from, to, i as int),
            decreases s.len() - i,
        {
            let d = self.items[i].date();
            if !is_before(d, from) && !is_before(to, d) {
                let ghost before = derefs(out@);
                out.push(&self.items[i]);
                assert(derefs(out@) =~= before.push(s[i as int]));
            }
            i = i + 1;
        }
        out
    }

    /// The `limit` latest records, newest first.
    pub fn recent(&self, limit: usize) -> (r: Vec<&T>)
        ensures
            r@.len() == if limit < self@.len() {
                limit as int
            } else {
                self@.len() as int
            },
            forall|i: int| 0 <= i < r@.len() ==> #[trigger] r@[i] == self@[self@.len() - 1 - i],
    {
        let ghost s = self@;
        let mut out: Vec<&T> = Vec::new();
        let n = self.items.len();
        let mut i: usize = 0;
        while i < n && i < limit
            invariant
                s == self.items@,
                n == s.len(),
                i <= n,
                i <= limit,
                out@.len() == i,
                forall|j: int| 0 <= j < i ==> #[trigger] out@[j] == s[n - 1 - j],
            decreases n - i,
        {
            out.push(&self.items[n - 1 - i]);
            i = i + 1;
        }
        out
    }

    /// Takes out the record of day `d`, if there is one; the rest keep their
    /// order.
    pub fn remove_day(&mut self, d: CalendarDate) -> (r: Option<T>)
        requires
            old(self).wf(),
        ensures
            final(self).wf(),
            match position_of(old(self)@, d) {
                Some(i) => r == Some(old(self)@[i]) && final(self)@ == old(self)@.remove(i),
                None => r is None && final(self)@ == old(self)@,
            },
    {
        let ghost s = self@;
        let mut i: usize = 0;
        while i < self.items.len()
            invariant
                s == self.items@,
                s == old(self)@,
                ordered(s),
                i <= s.len(),
                forall|j: int| 0 <= j < i ==> s[j].date_of() != d,
            decreases s.len() - i,
        {
            if same_day(self.items[i].date(), d) {
                proof {
                    lemma_unique_position(s, d, i as int);
                }
                let x = self.items.remove(i);
                proof {
                    let n = self.items@;
                    assert forall|a: int, b: int| 0 <= a < b < n.len() implies date_before(
                        #[trigger] n[a].date_of(),
                        #[trigger] n[b].date_of(),
                    ) by {
                        if b < i {
                            assert(date_before(s[a].date_of(), s[b].date_of()));
                        } else if a < i {
                            assert(date_before(s[a].date_of(), s[b + 1].date_of()));
                        } else {
                            assert(date_before(s[a + 1].date_of(), s[b + 1].date_of()));
                        }
                    }
                }
                return Some(x);
            }
            i = i + 1;
        }
        None
    }
}

/// Once a record of a day not before `d` is reached, no later record is
/// of a day before `d`.
proof fn lemma_count_rest<T: Dated>(s: Seq<T>, d: CalendarDate, k: int)
    requires
        ordered(s),
        0 <= k <= s.len(),
        count_before(s, d, k) == k,
        k == s.len() || !date_before(s[k].date_of(), d),
    ensures
        slot(s, d) == k,
        forall|j: int| 0 <= j < k ==> date_before(s[j].date_of(), d),
        forall|j: int| k <= j < s.len() ==> !date_before(s[j].date_of(), d),
{
    lemma_count_all_before(s, d, k);
    assert forall|j: int| k <= j < s.len() implies !date_before(s[j].date_of(), d) by {
        if j > k {
            assert(date_before(s[k].date_of(), s[j].date_of()));
        }
    }
    lemma_count_none_after(s, d, k, s.len() as int);
}

proof fn lemma_count_all_before<T: Dated>(s: Seq<T>, d: CalendarDate, k: int)
    requires
        0 <= k <= s.len(),
        count_before(s, d, k) == k,
    ensures
        forall|j: int| 0 <= j < k ==> date_before(s[j].date_of(), d),
    decreases k,
{
    if k > 0 {
        lemma_count_le(s, d, k - 1);
        lemma_count_all_before(s, d, k - 1);
    }
}

proof fn lemma_count_le<T: Dated>(s: Seq<T>, d: CalendarDate, k: int)
    requires
        0 <= k <= s.len(),
    ensures
        count_before(s, d, k) <= k,
    decreases k,
{
    if k > 0 {
        lemma_count_le(s, d, k - 1);
    }
}

proof fn lemma_count_none_after<T: Dated>(s: Seq<T>, d: CalendarDate, k: int, m: int)
    requires
        0 <= k <= m <= s.len(),
        forall|j: int| k <= j < s.len() ==> !date_before(s[j].date_of(), d),
    ensures
        count_before(s, d, m) == count_before(s, d, k),
    decreases m,
{
    if m > k {
        lemma_count_none_after(s, d, k, m - 1);
    }
}

/// In date order, a day has at most one record.
proof fn lemma_unique_position<T: Dated>(s: Seq<T>, d: CalendarDate, i: int)
    requires
        ordered(s),
        0 <= i < s.len(),
        s[i].date_of() == d,
    ensures
        position_of(s, d) == Some(i),
{
    assert(exists|k: int| 0 <= k < s.len() && s[k].date_of() == d);
    let c = choose|k: int| 0 <= k < s.len() && s[k].date_of() == d;
    if c != i {
        if c < i {
            assert(date_before(s[c].date_of(), s[i].date_of()));
        } else {
            assert(date_before(s[i].date_of(), s[c].date_of()));
        }
    }
}

/// Writing a record keeps the records in date order, one per day.
pub proof fn lemma_upserted_ordered<T: Dated>(s: Seq<T>, item: T)
    requires
        ordered(s),
    ensures
        ordered(upserted(s, item)),
{
    let d = item.date_of();
    let k = slot(s, d);
    lemma_slot(s, d);
    let n = upserted(s, item);
    if k < s.len() && s[k].date_of() == d {
        assert forall|i: int, j: int| 0 <= i < j < n.len() implies date_before(
            #[trigger] n[i].date_of(),
            #[trigger] n[j].date_of(),
        ) by {
            assert(date_before(s[i].date_of(), s[j].date_of()));
        }
    } else {
        assert forall|i: int, j: int| 0 <= i < j < n.len() implies date_before(
            #[trigger] n[i].date_of(),
            #[trigger] n[j].date_of(),
        ) by {
            if j < k {
                assert(date_before(s[i].date_of(), s[j].date_of()));
            } else if j == k {
                assert(date_before(s[i].date_of(), d));
            } else if i < k {
                assert(date_before(s[i].date_of(), d));
                assert(!date_before(s[j - 1].date_of(), d));
                assert(s[j - 1].date_of() != d) by {
                    if j - 1 > k {
                        assert(date_before(s[k].date_of(), s[j - 1].date_of()));
                    }
                }
            } else if i == k {
                assert(!date_before(s[j - 1].date_of(), d));
                assert(s[j - 1].date_of() != d) by {
                    if j - 1 > k {
                        assert(date_before(s[k].date_of(), s[j - 1].date_of()));
                    }
                }
            } else {
                assert(date_before(s[i - 1].date_of(), s[j - 1].date_of()));
            }
        }
    }
}

/// The records before the slot of day `d` are of earlier days, those from
/// it on are not.
pub proof fn lemma_slot<T: Dated>(s: Seq<T>, d: CalendarDate)
    requires
        ordered(s),
    ensures
        0 <= slot(s, d) <= s.len(),
        forall|j: int| 0 <= j < slot(s, d) ==> date_before(s[j].date_of(), d),
        forall|j: int| slot(s, d) <= j < s.len() ==> !date_before(s[j].date_of(), d),
{
    lemma_slot_from(s, d, 0);
}

proof fn lemma_slot_from<T: Dated>(s: Seq<T>, d: CalendarDate, k: int)
    requires
        ordered(s),
        0 <= k <= s.len(),
        count_before(s, d, k) == k,
    ensures
        0 <= slot(s, d) <= s.len(),
        forall|j: int| 0 <= j < slot(s, d) ==> date_before(s[j].date_of(), d),
        forall|j: int| slot(s, d) <= j < s.len() ==> !date_before(s[j].date_of(), d),
    decreases s.len() - k,
{
    if k < s.len() && date_before(s[k].date_of(), d) {
        lemma_slot_from(s, d, k + 1);
    } else {
        lemma_count_rest(s, d, k);
    }
}

/// What a read gives back of a write: after writing `item`, the record of
/// its day is `item`.
pub proof fn lemma_read_after_write<T: Dated>(s: Seq<T>, item: T)
    requires
        ordered(s),
    ensures
        position_of(upserted(s, item), item.date_of()) matches Some(i) && upserted(s, item)[i] == item,
{
    lemma_upserted_ordered(s, item);
    lemma_slot(s, item.date_of());
    let k = slot(s, item.date_of());
    lemma_unique_position(upserted(s, item), item.date_of(), k);
}

/// Writing a record leaves the records of the other days as they were.
pub proof fn lemma_write_keeps_other_days<T: Dated>(s: Seq<T>, item: T, d: CalendarDate)
    requires
        ordered(s),
        d != item.date_of(),
    ensures
        match (position_of(s, d), position_of(upserted(s, item), d)) {
            (Some(i), Some(j)) => s[i] == upserted(s, item)[j],
            (None, None) => true,
            _ => false,
        },
{
    lemma_upserted_ordered(s, item);
    lemma_slot(s, item.date_of());
    let n = upserted(s, item);
    let k = slot(s, item.date_of());
    let replaced = k < s.len() && s[k].date_of() == item.date_of();
    match position_of(s, d) {
        Some(i) => {
            let j = if replaced || i < k {
                i
            } else {
                i + 1
            };
            assert(n[j] == s[i]);
            lemma_unique_position(n, d, j);
        },
        None => {
            if exists|j: int| 0 <= j < n.len() && n[j].date_of() == d {
                let j = choose|j: int| 0 <= j < n.len() && n[j].date_of() == d;
                if replaced || j < k {
                    assert(s[j].date_of() == d);
                } else {
                    assert(j != k);
                    assert(s[j - 1].date_of() == d);
                }
            }
        },
    }
}

/// Writing a record of a new day adds one record; writing one of a day
/// already stored keeps the count.
pub proof fn lemma_write_count<T: Dated>(s: Seq<T>, item: T)
    requires
        ordered(s),
    ensures
        position_of(s, item.date_of()) is Some ==> upserted(s, item).len() == s.len(),
        position_of(s, item.date_of()) is None ==> upserted(s, item).len() == s.len() + 1,
{
    lemma_slot(s, item.date_of());
    let k = slot(s, item.date_of());
    if position_of(s, item.date_of()) is Some {
        let i = position_of(s, item.date_of()).unwrap();
        assert(!date_before(s[i].date_of(), item.date_of()));
        assert(i >= k);
        if i > k {
            assert(date_before(s[k].date_of(), s[i].date_of()));
        }
    } else {
        if k < s.len() {
            assert(s[k].date_of() != item.date_of());
        }
    }
}

/// The latest record is of the latest day stored.
pub proof fn lemma_latest_is_latest_day<T: Dated>(s: Seq<T>, i: int)
    requires
        ordered(s),
        0 <= i < s.len() - 1,
    ensures
        date_before(s[i].date_of(), s.last().date_of()),
{
}

/// Taking out a day's record and writing a record of the same day puts it
/// back in the same place.
pub proof fn lemma_rewrite_in_place<T: Dated>(s: Seq<T>, i: int, x: T)
    requires
        ordered(s),
        0 <= i < s.len(),
        x.date_of() == s[i].date_of(),
    ensures
        upserted(s.remove(i), x) == s.update(i, x),
{
    let r = s.remove(i);
    let d = x.date_of();
    assert(ordered(r)) by {
        assert forall|a: int, b: int| 0 <= a < b < r.len() implies date_before(
            #[trigger] r[a].date_of(),
            #[trigger] r[b].date_of(),
        ) by {
            if b < i {
                assert(date_before(s[a].date_of(), s[b].date_of()));
            } else if a < i {
                assert(date_before(s[a].date_of(), s[b + 1].date_of()));
            } else {
                assert(date_before(s[a + 1].date_of(), s[b + 1].date_of()));
            }
        }
    }
    lemma_slot(r, d);
    let k = slot(r, d);
    assert(k == i) by {
        if k < i {
            assert(!date_before(r[k].date_of(), d));
            assert(date_before(s[k].date_of(), s[i].date_of()));
        } else if k > i {
            assert(date_before(r[i].date_of(), d));
            assert(date_before(s[i].date_of(), s[i + 1].date_of()));
        }
    }
    if k < r.len() {
        assert(r[k] == s[i + 1]);
        assert(date_before(s[i].date_of(), s[i + 1].date_of()));
    }
    assert(r.insert(i, x) =~= s.update(i, x));
}

} // verus!
