//! The notification store: idempotent emit keyed on `dedupe_key`, the
//! bell-panel listing, and read / dismiss marks.
use vstd::prelude::*;

use crate::notifications::model::{Notification, NotificationsPage};
use crate::dates::now_millis;
use crate::text::str_eq;

verus! {

/// Some row already carries this dedupe key.
pub open spec fn has_key(rows: Seq<Notification>, key: Seq<char>) -> bool {
    exists|i: int| 0 <= i < rows.len() && (#[trigger] rows[i]).dedupe_key@ == key
}

/// The rows after emitting `n`: appended unless its key is already present.
pub open spec fn after_emit(rows: Seq<Notification>, n: Notification) -> Seq<Notification> {
    if has_key(rows, n.dedupe_key@) {
        rows
    } else {
        rows.push(n)
    }
}

/// The rows after emitting each of `ns` in turn.
pub open spec fn after_emit_all(rows: Seq<Notification>, ns: Seq<Notification>) -> Seq<
    Notification,
>
    decreases ns.len(),
{
    if ns.len() == 0 {
        rows
    } else {
        after_emit_all(after_emit(rows, ns[0]), ns.drop_first())
    }
}

pub open spec fn is_active_row() -> spec_fn(Notification) -> bool {
    |n: Notification| n.dismissed_at_ms is None
}

pub open spec fn is_unread_row() -> spec_fn(Notification) -> bool {
    |n: Notification| n.spec_is_unread()
}

/// Rows not dismissed.
pub open spec fn active(rows: Seq<Notification>) -> Seq<Notification> {
    rows.filter(is_active_row())
}

/// Number of rows neither read nor dismissed.
pub open spec fn unread(rows: Seq<Notification>) -> nat {
    rows.filter(is_unread_row()).len()
}

/// Inserts `x` into a newest-first list after every row at least as new.
pub open spec fn insert_newest(x: Notification, s: Seq<Notification>) -> Seq<Notification>
    decreases s.len(),
{
    if s.len() == 0 {
        seq![x]
    } else if s[0].created_at_ms >= x.created_at_ms {
        seq![s[0]] + insert_newest(x, s.drop_first())
    } else {
        seq![x] + s
    }
}

/// `s` ordered newest first; rows created at the same instant keep their
/// order (a stable sort on `created_at_ms`, descending).
pub open spec fn newest_first(s: Seq<Notification>) -> Seq<Notification>
    decreases s.len(),
{
    if s.len() == 0 {
        s
    } else {
        insert_newest(s.last(), newest_first(s.drop_last()))
    }
}

/// Index of the first row with this id, or -1.
pub open spec fn find_id(rows: Seq<Notification>, id: Seq<char>) -> int
    decreases rows.len(),
{
    if rows.len() == 0 {
        -1
    } else if rows[0].id@ == id {
        0
    } else {
        let r = find_id(rows.drop_first(), id);
        if r < 0 {
            -1
        } else {
            r + 1
        }
    }
}

/// The rows after marking the first row with `id` read at `now`, unless it
/// is already read.
pub open spec fn after_mark_read(rows: Seq<Notification>, id: Seq<char>, now: i64) -> Seq<
    Notification,
> {
    let p = find_id(rows, id);
    if p >= 0 && rows[p].read_at_ms is None {
        rows.update(p, Notification { read_at_ms: Some(now), ..rows[p] })
    } else {
        rows
    }
}

/// The rows after dismissing the first row with `id` at `now`, unless it is
/// already dismissed.
pub open spec fn after_dismiss(rows: Seq<Notification>, id: Seq<char>, now: i64) -> Seq<
    Notification,
> {
    let p = find_id(rows, id);
    if p >= 0 && rows[p].dismissed_at_ms is None {
        rows.update(p, Notification { dismissed_at_ms: Some(now), ..rows[p] })
    } else {
        rows
    }
}

/// The rows after marking every unread row read at `now`.
pub open spec fn after_mark_all_read(rows: Seq<Notification>, now: i64) -> Seq<Notification> {
    rows.map_values(
        |n: Notification|
            if n.spec_is_unread() {
                Notification { read_at_ms: Some(now), ..n }
            } else {
                n
            },
    )
}

proof fn lemma_find_id(rows: Seq<Notification>, id: Seq<char>, i: int)
    requires
        0 <= i <= rows.len(),
        forall|k: int| 0 <= k < i ==> (#[trigger] rows[k]).id@ != id,
    ensures
        i < rows.len() && rows[i].id@ == id ==> find_id(rows, id) == i,
        i == rows.len() ==> find_id(rows, id) == -1,
    decreases i,
{
    if i > 0 {
        assert forall|k: int| 0 <= k < i - 1 implies (#[trigger] rows.drop_first()[k]).id@ != id by {
            assert(rows.drop_first()[k] == rows[k + 1]);
        }
        lemma_find_id(rows.drop_first(), id, i - 1);
    } else if rows.len() > 0 {
        // first row decides
    }
}

proof fn lemma_find_id_range(rows: Seq<Notification>, id: Seq<char>)
    ensures
        -1 <= find_id(rows, id) < rows.len(),
        find_id(rows, id) >= 0 ==> rows[find_id(rows, id)].id@ == id,
    decreases rows.len(),
{
    if rows.len() > 0 && rows[0].id@ != id {
        lemma_find_id_range(rows.drop_first(), id);
    }
}

/// Position at which `insert_newest` places `x`: the first row strictly
/// older than `x`.
proof fn lemma_insert_newest(x: Notification, s: Seq<Notification>, p: int)
    requires
        0 <= p <= s.len(),
        forall|k: int| 0 <= k < p ==> (#[trigger] s[k]).created_at_ms >= x.created_at_ms,
        p < s.len() ==> s[p].created_at_ms < x.created_at_ms,
    ensures
        insert_newest(x, s) == s.take(p) + seq![x] + s.skip(p),
    decreases p,
{
    if p == 0 {
        assert(s.take(0) + seq![x] + s.skip(0) =~= seq![x] + s);
    } else {
        let t = s.drop_first();
        assert forall|k: int| 0 <= k < p - 1 implies (#[trigger] t[k]).created_at_ms
            >= x.created_at_ms by {
            assert(t[k] == s[k + 1]);
        }
        if p - 1 < t.len() {
            assert(t[p - 1] == s[p]);
        }
        lemma_insert_newest(x, t, p - 1);
        assert(seq![s[0]] + (t.take(p - 1) + seq![x] + t.skip(p - 1)) =~= s.take(p) + seq![x]
            + s.skip(p));
    }
}

proof fn lemma_insert_newest_len(x: Notification, s: Seq<Notification>)
    ensures
        insert_newest(x, s).len() == s.len() + 1,
    decreases s.len(),
{
    if s.len() > 0 && s[0].created_at_ms >= x.created_at_ms {
        lemma_insert_newest_len(x, s.drop_first());
    }
}

proof fn lemma_emit_len(rows: Seq<Notification>, n: Notification)
    ensures
        after_emit(rows, n).len() == rows.len() + (if has_key(rows, n.dedupe_key@) {
            0int
        } else {
            1int
        }),
{
}

/// A notification store.
pub trait NotificationService {
    /// The stored rows, in insertion order.
    spec fn notifications(&self) -> Seq<Notification>;

    /// Inserts `notification` unless its dedupe key is already stored;
    /// returns whether a row was created.
    fn emit(&mut self, notification: Notification) -> (r: bool)
        ensures
            r == !has_key(old(self).notifications(), notification.dedupe_key@),
            final(self).notifications() == after_emit(old(self).notifications(), notification),
    ;

    /// Emits each notification in turn; returns how many rows were created.
    fn emit_batch(&mut self, notifications: Vec<Notification>) -> (r: usize)
        ensures
            final(self).notifications() == after_emit_all(
                old(self).notifications(),
                notifications@,
            ),
            r <= notifications@.len(),
            r == final(self).notifications().len() - old(self).notifications().len(),
    {
        let mut rest = notifications;
        let ghost all = rest@;
        assert(all.len() == rest.len());
        let mut new_count: usize = 0;
        while rest.len() > 0
            invariant
                all.len() <= usize::MAX,
                new_count <= all.len() - rest@.len(),
                rest@.len() <= all.len(),
                after_emit_all(old(self).notifications(), all) == after_emit_all(
                    self.notifications(),
                    rest@,
                ),
                new_count == self.notifications().len() - old(self).notifications().len(),
            decreases rest.len(),
        {
            let ghost before = rest@;
            let n = rest.remove(0);
            assert(rest@ =~= before.drop_first());
            proof {
                lemma_emit_len(self.notifications(), n);
            }
            if self.emit(n) {
                new_count = new_count + 1;
            }
        }
        new_count
    }

    /// Active rows, newest first, at most `limit` of them; the unread count
    /// covers every active row.
    fn list_active(&self, limit: usize) -> (r: NotificationsPage)
        ensures
            r.items@ == newest_first(active(self.notifications())).take(
                if limit < active(self.notifications()).len() {
                    limit as int
                } else {
                    active(self.notifications()).len() as int
                },
            ),
            r.unread_count == unread(self.notifications()) as i64,
    ;

    /// Marks the first row with `id` read at `now_ms`, unless already read.
    fn mark_read_at(&mut self, id: &str, now_ms: i64)
        ensures
            final(self).notifications() == after_mark_read(old(self).notifications(), id@, now_ms),
    ;

    /// Dismisses the first row with `id` at `now_ms`, unless already dismissed.
    fn dismiss_at(&mut self, id: &str, now_ms: i64)
        ensures
            final(self).notifications() == after_dismiss(old(self).notifications(), id@, now_ms),
    ;

    /// Marks every unread row read at `now_ms`; returns how many were.
    fn mark_all_read_at(&mut self, now_ms: i64) -> (r: usize)
        ensures
            final(self).notifications() == after_mark_all_read(old(self).notifications(), now_ms),
            r == unread(old(self).notifications()),
    ;

    /// Number of rows neither read nor dismissed.
    fn unread_count(&self) -> (r: i64)
        ensures
            r == unread(self.notifications()) as i64,
    ;
}

/// `rows.take(i + 1).filter(p)` in terms of `rows.take(i).filter(p)`.
proof fn lemma_filter_step(rows: Seq<Notification>, p: spec_fn(Notification) -> bool, i: int)
    requires
        0 <= i < rows.len(),
    ensures
        rows.take(i + 1).filter(p) == (if p(rows[i]) {
            rows.take(i).filter(p).push(rows[i])
        } else {
            rows.take(i).filter(p)
        }),
{
    reveal(Seq::filter);
    assert(rows.take(i + 1).drop_last() =~= rows.take(i));
    assert(rows.take(i + 1).last() == rows[i]);
}

/// In-memory store, used where no database is wanted.
pub struct InMemoryNotificationService {
    rows: Vec<Notification>,
}

impl InMemoryNotificationService {
    pub fn new() -> (r: Self)
        ensures
            r.notifications().len() == 0,
    {
        InMemoryNotificationService { rows: Vec::new() }
    }

    fn find_row(&self, id: &str) -> (r: Option<usize>)
        ensures
            match r {
                Some(p) => p == find_id(self.rows@, id@) && p < self.rows@.len(),
                None => find_id(self.rows@, id@) == -1,
            },
    {
        let mut i: usize = 0;
        while i < self.rows.len()
            invariant
                i <= self.rows.len(),
                forall|k: int| 0 <= k < i ==> (#[trigger] self.rows@[k]).id@ != id@,
            decreases self.rows.len() - i,
        {
            if str_eq(self.rows[i].id.as_str(), id) {
                proof {
                    lemma_find_id(self.rows@, id@, i as int);
                }
                return Some(i);
            }
            i = i + 1;
        }
        proof {
            lemma_find_id(self.rows@, id@, i as int);
        }
        None
    }
}

impl NotificationService for InMemoryNotificationService {
    closed spec fn notifications(&self) -> Seq<Notification> {
        self.rows@
    }

    fn emit(&mut self, notification: Notification) -> (r: bool) {
        let mut i: usize = 0;
        while i < self.rows.len()
            invariant
                i <= self.rows.len(),
                forall|k: int|
                    0 <= k < i ==> (#[trigger] self.rows@[k]).dedupe_key@
                        != notification.dedupe_key@,
            decreases self.rows.len() - i,
        {
            if str_eq(self.rows[i].dedupe_key.as_str(), notification.dedupe_key.as_str()) {
                assert(has_key(self.rows@, notification.dedupe_key@));
                return false;
            }
            i = i + 1;
        }
        self.rows.push(notification);
        true
    }

    fn list_active(&self, limit: usize) -> (r: NotificationsPage) {
        let ghost rows = self.rows@;
        let mut act: Vec<Notification> = Vec::new();
        let mut unread_n: usize = 0;
        let mut i: usize = 0;
        while i < self.rows.len()
            invariant
                rows == self.rows@,
                i <= self.rows.len(),
                act@ == rows.take(i as int).filter(is_active_row()),
                unread_n == rows.take(i as int).filter(is_unread_row()).len(),
                unread_n <= i,
            decreases self.rows.len() - i,
        {
            proof {
                lemma_filter_step(rows, is_active_row(), i as int);
                lemma_filter_step(rows, is_unread_row(), i as int);
                assert(is_active_row()(rows[i as int]) == (rows[i as int].dismissed_at_ms is None));
                assert(is_unread_row()(rows[i as int]) == rows[i as int].spec_is_unread());
            }
            if self.rows[i].dismissed_at_ms.is_none() {
                act.push(self.rows[i].duplicate());
                if self.rows[i].read_at_ms.is_none() {
                    unread_n = unread_n + 1;
                }
            }
            i = i + 1;
        }
        assert(rows.take(rows.len() as int) =~= rows);
        let ghost a = act@;
        let mut sorted: Vec<Notification> = Vec::new();
        let mut j: usize = 0;
        while j < act.len()
            invariant
                a == act@,
                j <= act.len(),
                sorted@ == newest_first(a.take(j as int)),
                sorted@.len() == j,
            decreases act.len() - j,
        {
            let x = act[j].duplicate();
            let mut p: usize = 0;
            while p < sorted.len() && sorted[p].created_at_ms >= x.created_at_ms
                invariant
                    p <= sorted.len(),
                    forall|k: int| 0 <= k < p ==> (#[trigger] sorted@[k]).created_at_ms
                        >= x.created_at_ms,
                decreases sorted.len() - p,
            {
                p = p + 1;
            }
            proof {
                lemma_insert_newest(x, sorted@, p as int);
                assert(a.take(j + 1).drop_last() =~= a.take(j as int));
                assert(a.take(j + 1).last() == a[j as int]);
                assert(sorted@.insert(p as int, x) =~= sorted@.take(p as int) + seq![x]
                    + sorted@.skip(p as int));
            }
            sorted.insert(p, x);
            j = j + 1;
        }
        assert(a.take(a.len() as int) =~= a);
        sorted.truncate(limit);
        NotificationsPage { items: sorted, unread_count: unread_n as i64 }
    }

    fn mark_read_at(&mut self, id: &str, now_ms: i64) {
        proof {
            lemma_find_id_range(self.rows@, id@);
        }
        match self.find_row(id) {
            Some(p) => {
                if self.rows[p].read_at_ms.is_none() {
                    let mut row = self.rows.remove(p);
                    row.read_at_ms = Some(now_ms);
                    self.rows.insert(p, row);
                    assert(self.rows@ =~= after_mark_read(old(self).rows@, id@, now_ms));
                }
            },
            None => {},
        }
    }

    fn dismiss_at(&mut self, id: &str, now_ms: i64) {
        proof {
            lemma_find_id_range(self.rows@, id@);
        }
        match self.find_row(id) {
            Some(p) => {
                if self.rows[p].dismissed_at_ms.is_none() {
                    let mut row = self.rows.remove(p);
                    row.dismissed_at_ms = Some(now_ms);
                    self.rows.insert(p, row);
                    assert(self.rows@ =~= after_dismiss(old(self).rows@, id@, now_ms));
                }
            },
            None => {},
        }
    }

    fn mark_all_read_at(&mut self, now_ms: i64) -> (r: usize) {
        let ghost rows = self.rows@;
        let mut out: Vec<Notification> = Vec::new();
        let mut n: usize = 0;
        let mut i: usize = 0;
        while i < self.rows.len()
            invariant
                rows == self.rows@,
                i <= self.rows.len(),
                out@ == after_mark_all_read(rows.take(i as int), now_ms),
                n == rows.take(i as int).filter(is_unread_row()).len(),
                n <= i,
            decreases self.rows.len() - i,
        {
            proof {
                lemma_filter_step(rows, is_unread_row(), i as int);
                assert(is_unread_row()(rows[i as int]) == rows[i as int].spec_is_unread());
            }
            let mut row = self.rows[i].duplicate();
            if row.read_at_ms.is_none() && row.dismissed_at_ms.is_none() {
                row.read_at_ms = Some(now_ms);
                n = n + 1;
            }
            out.push(row);
            assert(out@ =~= after_mark_all_read(rows.take(i + 1), now_ms));
            i = i + 1;
        }
        assert(rows.take(rows.len() as int) =~= rows);
        self.rows = out;
        n
    }

    fn unread_count(&self) -> (r: i64) {
        let ghost rows = self.rows@;
        let mut n: usize = 0;
        let mut i: usize = 0;
        while i < self.rows.len()
            invariant
                rows == self.rows@,
                i <= self.rows.len(),
                n == rows.take(i as int).filter(is_unread_row()).len(),
                n <= i,
            decreases self.rows.len() - i,
        {
            proof {
                lemma_filter_step(rows, is_unread_row(), i as int);
                assert(is_unread_row()(rows[i as int]) == rows[i as int].spec_is_unread());
            }
            if self.rows[i].read_at_ms.is_none() && self.rows[i].dismissed_at_ms.is_none() {
                n = n + 1;
            }
            i = i + 1;
        }
        assert(rows.take(rows.len() as int) =~= rows);
        n as i64
    }
}

impl InMemoryNotificationService {
    /// Marks the first row with `id` read now, unless already read.
    pub fn mark_read(&mut self, id: &str)
        ensures
            exists|now: i64| final(self).notifications() == after_mark_read(
                old(self).notifications(),
                id@,
                now,
            ),
    {
        let now = now_millis();
        self.mark_read_at(id, now);
    }

    /// Dismisses the first row with `id` now, unless already dismissed.
    pub fn dismiss(&mut self, id: &str)
        ensures
            exists|now: i64| final(self).notifications() == after_dismiss(
                old(self).notifications(),
                id@,
                now,
            ),
    {
        let now = now_millis();
        self.dismiss_at(id, now);
    }

    /// Marks every unread row read now; returns how many were.
    pub fn mark_all_read(&mut self) -> (r: usize)
        ensures
            exists|now: i64| final(self).notifications() == after_mark_all_read(
                old(self).notifications(),
                now,
            ),
            r == unread(old(self).notifications()),
            unread(final(self).notifications()) == 0,
    {
        let now = now_millis();
        let ghost before = self.notifications();
        let r = self.mark_all_read_at(now);
        proof {
            lemma_mark_all_read_clears(before, now, now);
        }
        r
    }
}

/// Emitting a notification whose key is already stored changes nothing.
pub proof fn lemma_emit_is_idempotent(rows: Seq<Notification>, n: Notification, m: Notification)
    requires
        n.dedupe_key@ == m.dedupe_key@,
    ensures
        after_emit(after_emit(rows, n), m) == after_emit(rows, n),
{
    if !has_key(rows, n.dedupe_key@) {
        let r = rows.push(n);
        assert(r[rows.len() as int].dedupe_key@ == m.dedupe_key@);
    }
}

/// After marking all rows read, nothing is unread; a second pass, at any
/// later time, changes nothing (and so counts nothing); rows already read
/// or dismissed are left as they were, and every row not dismissed is read.
pub proof fn lemma_mark_all_read_clears(rows: Seq<Notification>, now: i64, later: i64)
    ensures
        unread(after_mark_all_read(rows, now)) == 0,
        after_mark_all_read(after_mark_all_read(rows, now), later) == after_mark_all_read(rows, now),
        after_mark_all_read(rows, now).len() == rows.len(),
        forall|i: int| 0 <= i < rows.len() && !(#[trigger] rows[i]).spec_is_unread() ==> after_mark_all_read(rows, now)[i] == rows[i],
        forall|i: int|
            0 <= i < rows.len() && (#[trigger] after_mark_all_read(rows, now)[i]).dismissed_at_ms is None
                ==> after_mark_all_read(rows, now)[i].read_at_ms is Some,
{
    let after = after_mark_all_read(rows, now);
    let is_unread = is_unread_row();
    assert forall|i: int| 0 <= i < after.len() implies !is_unread(#[trigger] after[i]) by {}
    lemma_filter_none(after, is_unread);
    assert(after_mark_all_read(after, later) =~= after);
}

proof fn lemma_filter_none(s: Seq<Notification>, p: spec_fn(Notification) -> bool)
    requires
        forall|i: int| 0 <= i < s.len() ==> !p(#[trigger] s[i]),
    ensures
        s.filter(p).len() == 0,
    decreases s.len(),
{
    reveal(Seq::filter);
    if s.len() > 0 {
        assert forall|i: int| 0 <= i < s.drop_last().len() implies !p(#[trigger] s.drop_last()[i]) by {
            assert(s.drop_last()[i] == s[i]);
        }
        lemma_filter_none(s.drop_last(), p);
    }
}

/// A dismissed row leaves the active list and no longer counts as unread.
pub proof fn lemma_dismissed_is_inactive(rows: Seq<Notification>, id: Seq<char>, now: i64)
    requires
        find_id(rows, id) >= 0,
    ensures
        ({
            let after = after_dismiss(rows, id, now);
            let p = find_id(rows, id);
            &&& after[p].dismissed_at_ms is Some
            &&& !after[p].spec_is_unread()
            &&& !active(after).contains(after[p])
        }),
{
    lemma_find_id_range(rows, id);
    let after = after_dismiss(rows, id, now);
    let p = find_id(rows, id);
    let is_active = is_active_row();
    if active(after).contains(after[p]) {
        after.lemma_filter_contains_rev(is_active, after[p]);
    }
}

} // verus!
