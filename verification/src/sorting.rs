//! Orders and the stable insertion order used where the library sorts:
//! strings by code point (the order `String` compares by), lists of strings
//! lexicographically.
use vstd::prelude::*;

use crate::text::{chars_of, str_eq};
use crate::tools::common::strings_view;

verus! {

/// `a` comes before `b` lexicographically under `lt` on elements: at the
/// first difference `a`'s element is smaller, or `a` is a proper prefix.
pub open spec fn lex_lt<T>(a: Seq<T>, b: Seq<T>, lt: spec_fn(T, T) -> bool) -> bool {
    exists|k: int|
        0 <= k <= a.len() && k <= b.len() && #[trigger] a.take(k) == b.take(k) && ((k == a.len() && k < b.len()) || (
        k < a.len() && k < b.len() && lt(a[k], b[k])))
}

pub open spec fn char_lt() -> spec_fn(char, char) -> bool {
    |x: char, y: char| (x as int) < (y as int)
}

/// String order: code point by code point.
pub open spec fn str_lt(a: Seq<char>, b: Seq<char>) -> bool {
    lex_lt(a, b, char_lt())
}

pub open spec fn str_lt_fn() -> spec_fn(Seq<char>, Seq<char>) -> bool {
    |x: Seq<char>, y: Seq<char>| str_lt(x, y)
}

/// Order of lists of strings, as `Vec<String>` compares.
pub open spec fn strs_lt(a: Seq<Seq<char>>, b: Seq<Seq<char>>) -> bool {
    lex_lt(a, b, str_lt_fn())
}

/// `x` inserted into `s` after every element it does not precede.
pub open spec fn ins<T>(s: Seq<T>, x: T, lt: spec_fn(T, T) -> bool) -> Seq<T>
    decreases s.len(),
{
    if s.len() == 0 {
        seq![x]
    } else if lt(x, s.last()) {
        ins(s.drop_last(), x, lt).push(s.last())
    } else {
        s.push(x)
    }
}

/// Stable insertion sort: elements that compare equal keep their order.
pub open spec fn isort<T>(s: Seq<T>, lt: spec_fn(T, T) -> bool) -> Seq<T>
    decreases s.len(),
{
    if s.len() == 0 {
        s
    } else {
        ins(isort(s.drop_last(), lt), s.last(), lt)
    }
}

/// Inserting at the first position (from the back) whose predecessor `x`
/// does not precede.
pub proof fn lemma_ins_at<T>(s: Seq<T>, x: T, lt: spec_fn(T, T) -> bool, k: int)
    requires
        0 <= k <= s.len(),
        forall|t: int| k <= t < s.len() ==> lt(x, #[trigger] s[t]),
        k == 0 || !lt(x, s[k - 1]),
    ensures
        ins(s, x, lt) == s.take(k).push(x) + s.skip(k),
    decreases s.len(),
{
    if s.len() == 0 {
        assert(s.take(k).push(x) + s.skip(k) =~= seq![x]);
    } else if lt(x, s.last()) {
        assert(k < s.len());
        let d = s.drop_last();
        lemma_ins_at(d, x, lt, k);
        assert(d.take(k) == s.take(k));
        assert((d.take(k).push(x) + d.skip(k)).push(s.last()) =~= s.take(k).push(x) + s.skip(k));
    } else {
        assert(k == s.len());
        assert(s.take(k).push(x) + s.skip(k) =~= s.push(x));
    }
}

pub proof fn lemma_ins_elements<T>(s: Seq<T>, x: T, lt: spec_fn(T, T) -> bool)
    ensures
        ins(s, x, lt).len() == s.len() + 1,
        forall|y: T| #[trigger] ins(s, x, lt).contains(y) ==> y == x || s.contains(y),
    decreases s.len(),
{
    if s.len() > 0 && lt(x, s.last()) {
        lemma_ins_elements(s.drop_last(), x, lt);
        assert forall|y: T| #[trigger] ins(s, x, lt).contains(y) implies y == x || s.contains(y) by {
            let i = choose|i: int| 0 <= i < ins(s, x, lt).len() && ins(s, x, lt)[i] == y;
            if i < s.len() {
                assert(ins(s.drop_last(), x, lt).contains(y));
                if y != x {
                    let k = choose|k: int| 0 <= k < s.drop_last().len() && s.drop_last()[k] == y;
                    assert(s[k] == y);
                }
            } else {
                assert(y == s.last());
            }
        }
    } else if s.len() > 0 {
        assert forall|y: T| #[trigger] ins(s, x, lt).contains(y) implies y == x || s.contains(y) by {
            let i = choose|i: int| 0 <= i < ins(s, x, lt).len() && ins(s, x, lt)[i] == y;
            if i < s.len() {
                assert(s[i] == y);
            }
        }
    }
}

/// Sorting keeps the length and brings in no new element.
pub proof fn lemma_isort_elements<T>(s: Seq<T>, lt: spec_fn(T, T) -> bool)
    ensures
        isort(s, lt).len() == s.len(),
        forall|y: T| #[trigger] isort(s, lt).contains(y) ==> s.contains(y),
    decreases s.len(),
{
    if s.len() > 0 {
        let d = s.drop_last();
        lemma_isort_elements(d, lt);
        lemma_ins_elements(isort(d, lt), s.last(), lt);
        assert forall|y: T| #[trigger] isort(s, lt).contains(y) implies s.contains(y) by {
            if y != s.last() {
                assert(isort(d, lt).contains(y));
                assert(d.contains(y));
                let k = choose|k: int| 0 <= k < d.len() && d[k] == y;
                assert(s[k] == y);
            } else {
                assert(s[s.len() - 1] == y);
            }
        }
    }
}

pub proof fn lemma_ins_keeps<T>(s: Seq<T>, x: T, lt: spec_fn(T, T) -> bool)
    ensures
        ins(s, x, lt).contains(x),
        forall|y: T| #[trigger] s.contains(y) ==> ins(s, x, lt).contains(y),
    decreases s.len(),
{
    if s.len() == 0 {
        assert(ins(s, x, lt)[0] == x);
    } else if lt(x, s.last()) {
        let d = s.drop_last();
        lemma_ins_keeps(d, x, lt);
        let r = ins(s, x, lt);
        assert(r == ins(d, x, lt).push(s.last()));
        let i = choose|i: int| 0 <= i < ins(d, x, lt).len() && ins(d, x, lt)[i] == x;
        assert(r[i] == x);
        assert forall|y: T| #[trigger] s.contains(y) implies r.contains(y) by {
            let k = choose|k: int| 0 <= k < s.len() && s[k] == y;
            if k == s.len() - 1 {
                assert(r[r.len() - 1] == y);
            } else {
                assert(d[k] == y);
                assert(d.contains(y));
                let m = choose|m: int| 0 <= m < ins(d, x, lt).len() && ins(d, x, lt)[m] == y;
                assert(r[m] == y);
            }
        }
    } else {
        let r = ins(s, x, lt);
        assert(r == s.push(x));
        assert(r[s.len() as int] == x);
        assert forall|y: T| #[trigger] s.contains(y) implies r.contains(y) by {
            let k = choose|k: int| 0 <= k < s.len() && s[k] == y;
            assert(r[k] == y);
        }
    }
}

/// Sorting loses no element.
pub proof fn lemma_isort_keeps<T>(s: Seq<T>, lt: spec_fn(T, T) -> bool)
    ensures
        forall|y: T| #[trigger] s.contains(y) ==> isort(s, lt).contains(y),
    decreases s.len(),
{
    if s.len() > 0 {
        let d = s.drop_last();
        lemma_isort_keeps(d, lt);
        lemma_ins_keeps(isort(d, lt), s.last(), lt);
        assert forall|y: T| #[trigger] s.contains(y) implies isort(s, lt).contains(y) by {
            let k = choose|k: int| 0 <= k < s.len() && s[k] == y;
            if k < s.len() - 1 {
                assert(d[k] == y);
                assert(d.contains(y));
                assert(isort(d, lt).contains(y));
            }
        }
    }
}

/// `lt` is a strict total order.
pub open spec fn strict_total<T>(lt: spec_fn(T, T) -> bool) -> bool {
    &&& forall|a: T| !#[trigger] lt(a, a)
    &&& forall|a: T, b: T, c: T| #[trigger] lt(a, b) && #[trigger] lt(b, c) ==> lt(a, c)
    &&& forall|a: T, b: T| a != b ==> #[trigger] lt(a, b) || #[trigger] lt(b, a)
}

/// `lt` is a strict weak order: irreflexive, transitive, and whatever lies
/// between two ordered elements is ordered against one of them.
pub open spec fn strict_weak<T>(lt: spec_fn(T, T) -> bool) -> bool {
    &&& forall|a: T| !#[trigger] lt(a, a)
    &&& forall|a: T, b: T, c: T| #[trigger] lt(a, b) && #[trigger] lt(b, c) ==> lt(a, c)
    &&& forall|a: T, b: T, c: T|
        #![trigger lt(a, c), lt(a, b)]
        #![trigger lt(a, c), lt(b, c)]
        lt(a, c) ==> lt(a, b) || lt(b, c)
}

pub proof fn lemma_total_is_weak<T>(lt: spec_fn(T, T) -> bool)
    requires
        strict_total(lt),
    ensures
        strict_weak(lt),
{
    assert forall|a: T, b: T, c: T| lt(a, c) implies #[trigger] lt(a, b) || #[trigger] lt(b, c) by {
        if a != b && !lt(a, b) {
            assert(lt(b, a));
        }
    }
}

/// No element is followed by one that precedes it.
pub open spec fn sorted_by<T>(s: Seq<T>, lt: spec_fn(T, T) -> bool) -> bool {
    forall|i: int, j: int| 0 <= i < j < s.len() ==> !lt(#[trigger] s[j], #[trigger] s[i])
}

pub open spec fn lex_fn<T>(lt: spec_fn(T, T) -> bool) -> spec_fn(Seq<T>, Seq<T>) -> bool {
    |a: Seq<T>, b: Seq<T>| lex_lt(a, b, lt)
}

proof fn lemma_lex_cases<T>(a: Seq<T>, b: Seq<T>, lt: spec_fn(T, T) -> bool, k: int)
    requires
        strict_total(lt),
        0 <= k <= a.len(),
        k <= b.len(),
        a.take(k) == b.take(k),
    ensures
        a == b || lex_lt(a, b, lt) || lex_lt(b, a, lt),
    decreases a.len() - k,
{
    if k == a.len() && k == b.len() {
        assert(a == a.take(k));
        assert(b == b.take(k));
    } else if k == a.len() {
        assert(lex_lt(a, b, lt));
    } else if k == b.len() {
        assert(b.take(k) == a.take(k));
        assert(lex_lt(b, a, lt));
    } else if a[k] == b[k] {
        assert(a.take(k + 1) =~= a.take(k).push(a[k]));
        assert(b.take(k + 1) =~= b.take(k).push(b[k]));
        lemma_lex_cases(a, b, lt, k + 1);
    } else {
        assert(lt(a[k], b[k]) || lt(b[k], a[k]));
        if lt(a[k], b[k]) {
            assert(lex_lt(a, b, lt));
        } else {
            assert(b.take(k) == a.take(k));
            assert(lex_lt(b, a, lt));
        }
    }
}

proof fn lemma_lex_trans<T>(a: Seq<T>, b: Seq<T>, c: Seq<T>, lt: spec_fn(T, T) -> bool)
    requires
        strict_total(lt),
        lex_lt(a, b, lt),
        lex_lt(b, c, lt),
    ensures
        lex_lt(a, c, lt),
{
    let k1 = choose|k: int|
        0 <= k <= a.len() && k <= b.len() && #[trigger] a.take(k) == b.take(k) && ((k == a.len() && k < b.len()) || (
        k < a.len() && k < b.len() && lt(a[k], b[k])));
    let k2 = choose|k: int|
        0 <= k <= b.len() && k <= c.len() && #[trigger] b.take(k) == c.take(k) && ((k == b.len() && k < c.len()) || (
        k < b.len() && k < c.len() && lt(b[k], c[k])));
    if k1 < k2 {
        assert(b.take(k1) == b.take(k2).take(k1));
        assert(c.take(k1) == c.take(k2).take(k1));
        if k1 < b.len() {
            assert(b.take(k2)[k1] == c.take(k2)[k1]);
        }
        assert(a.take(k1) == c.take(k1));
    } else if k2 < k1 {
        assert(a.take(k2) == a.take(k1).take(k2));
        assert(b.take(k2) == b.take(k1).take(k2));
        assert(a.take(k1)[k2] == b.take(k1)[k2]);
        assert(a.take(k2) == c.take(k2));
    } else {
        assert(a.take(k1) == c.take(k1));
    }
}

/// The lexicographic extension of a strict total order is one.
pub proof fn lemma_lex_strict_total<T>(lt: spec_fn(T, T) -> bool)
    requires
        strict_total(lt),
    ensures
        strict_total(lex_fn(lt)),
{
    assert forall|a: Seq<T>| !#[trigger] (lex_fn(lt))(a, a) by {
    }
    assert forall|a: Seq<T>, b: Seq<T>, c: Seq<T>| #[trigger] (lex_fn(lt))(a, b) && #[trigger] (lex_fn(lt))(b, c) implies (lex_fn(lt))(a, c) by {
        lemma_lex_trans(a, b, c, lt);
    }
    assert forall|a: Seq<T>, b: Seq<T>| a != b implies #[trigger] (lex_fn(lt))(a, b) || #[trigger] (lex_fn(lt))(b, a) by {
        assert(a.take(0) =~= b.take(0));
        lemma_lex_cases(a, b, lt, 0);
    }
}

proof fn lemma_ins_sorted<T>(s: Seq<T>, x: T, lt: spec_fn(T, T) -> bool)
    requires
        strict_weak(lt),
        sorted_by(s, lt),
    ensures
        sorted_by(ins(s, x, lt), lt),
    decreases s.len(),
{
    if s.len() > 0 {
        let d = s.drop_last();
        if lt(x, s.last()) {
            lemma_ins_sorted(d, x, lt);
            lemma_ins_elements(d, x, lt);
            let t = ins(d, x, lt);
            assert forall|i: int, j: int| 0 <= i < j < t.len() + 1 implies !lt(#[trigger] t.push(s.last())[j], #[trigger] t.push(s.last())[i]) by {
                if j == t.len() {
                    assert(t.contains(t[i]));
                    if t[i] != x {
                        let k = choose|k: int| 0 <= k < d.len() && d[k] == t[i];
                        assert(s[k] == t[i]);
                        assert(!lt(s[s.len() - 1], s[k]));
                    } else if lt(s.last(), x) {
                        assert(lt(x, x));
                    }
                }
            }
        } else {
            assert forall|i: int, j: int| 0 <= i < j < s.len() + 1 implies !lt(#[trigger] s.push(x)[j], #[trigger] s.push(x)[i]) by {
                if j == s.len() && i < s.len() - 1 {
                    assert(!lt(s[s.len() - 1], s[i]));
                    if lt(x, s[i]) {
                        assert(lt(x, s[s.len() - 1]) || lt(s[s.len() - 1], s[i]));
                    }
                }
            }
        }
    }
}

/// Insertion sort under a strict total order yields a sorted sequence.
pub proof fn lemma_isort_sorted<T>(s: Seq<T>, lt: spec_fn(T, T) -> bool)
    requires
        strict_weak(lt),
    ensures
        sorted_by(isort(s, lt), lt),
    decreases s.len(),
{
    if s.len() > 0 {
        lemma_isort_sorted(s.drop_last(), lt);
        lemma_ins_sorted(isort(s.drop_last(), lt), s.last(), lt);
    }
}

/// String order is a strict total order, and so is the order of lists of
/// strings.
pub proof fn lemma_string_orders_total()
    ensures
        strict_total(str_lt_fn()),
        strict_total(lex_fn(str_lt_fn())),
{
    assert forall|a: char, b: char| a != b implies #[trigger] (char_lt())(a, b) || #[trigger] (char_lt())(b, a) by {
        assert((a as int) != (b as int));
    }
    assert(strict_total(char_lt()));
    lemma_lex_strict_total(char_lt());
    assert(lex_fn(char_lt()) =~= str_lt_fn());
    lemma_lex_strict_total(str_lt_fn());
}

/// Whether `a` comes before `b` in string order.
pub fn str_less(a: &str, b: &str) -> (r: bool)
    ensures
        r == str_lt(a@, b@),
{
    let x = chars_of(a);
    let y = chars_of(b);
    let mut i: usize = 0;
    while i < x.len() && i < y.len()
        invariant
            x@ == a@,
            y@ == b@,
            i <= x.len(),
            i <= y.len(),
            x@.take(i as int) == y@.take(i as int),
        decreases x.len() - i,
    {
        if x[i] != y[i] {
            let r = x[i] < y[i];
            proof {
                if r {
                    assert(a@.take(i as int) == b@.take(i as int));
                } else {
                    assert forall|k: int| 0 <= k <= a@.len() && k <= b@.len() && #[trigger] a@.take(k) == b@.take(k) implies !((
                    k == a@.len() && k < b@.len()) || (k < a@.len() && k < b@.len() && (char_lt())(a@[k], b@[k]))) by {
                        if k > i {
                            assert(a@.take(k)[i as int] == b@.take(k)[i as int]);
                        } else if k < i {
                            assert(a@.take(i as int)[k] == b@.take(i as int)[k]);
                        }
                    }
                }
            }
            return r;
        }
        assert(x@.take(i + 1) =~= x@.take(i as int).push(x@[i as int]));
        assert(y@.take(i + 1) =~= y@.take(i as int).push(y@[i as int]));
        i = i + 1;
    }
    let r = x.len() < y.len();
    proof {
        if r {
            assert(a@.take(i as int) == b@.take(i as int));
        } else {
            assert forall|k: int| 0 <= k <= a@.len() && k <= b@.len() && #[trigger] a@.take(k) == b@.take(k) implies !((k
                == a@.len() && k < b@.len()) || (k < a@.len() && k < b@.len() && (char_lt())(a@[k], b@[k]))) by {
                if k < a@.len() && k < b@.len() {
                    assert(a@.take(i as int)[k] == b@.take(i as int)[k]);
                }
            }
        }
    }
    r
}

proof fn lemma_str_lt_irrefl(s: Seq<char>)
    ensures
        !str_lt(s, s),
{
}

/// Whether list `a` comes before list `b`.
pub fn strs_less(a: &Vec<String>, b: &Vec<String>) -> (r: bool)
    ensures
        r == strs_lt(strings_view(a@), strings_view(b@)),
{
    let ghost sa = strings_view(a@);
    let ghost sb = strings_view(b@);
    let mut i: usize = 0;
    while i < a.len() && i < b.len()
        invariant
            sa == strings_view(a@),
            sb == strings_view(b@),
            i <= a.len(),
            i <= b.len(),
            sa.take(i as int) == sb.take(i as int),
        decreases a.len() - i,
    {
        if !str_eq(a[i].as_str(), b[i].as_str()) {
            let r = str_less(a[i].as_str(), b[i].as_str());
            proof {
                if r {
                    assert(sa.take(i as int) == sb.take(i as int));
                    assert((str_lt_fn())(sa[i as int], sb[i as int]));
                } else {
                    assert forall|k: int| 0 <= k <= sa.len() && k <= sb.len() && #[trigger] sa.take(k) == sb.take(k) implies !((
                    k == sa.len() && k < sb.len()) || (k < sa.len() && k < sb.len() && (str_lt_fn())(sa[k], sb[k]))) by {
                        if k > i {
                            assert(sa.take(k)[i as int] == sb.take(k)[i as int]);
                        } else if k < i {
                            assert(sa.take(i as int)[k] == sb.take(i as int)[k]);
                            lemma_str_lt_irrefl(sa[k]);
                        }
                    }
                }
            }
            return r;
        }
        assert(sa.take(i + 1) =~= sa.take(i as int).push(sa[i as int]));
        assert(sb.take(i + 1) =~= sb.take(i as int).push(sb[i as int]));
        i = i + 1;
    }
    let r = a.len() < b.len();
    proof {
        if r {
            assert(sa.take(i as int) == sb.take(i as int));
        } else {
            assert forall|k: int| 0 <= k <= sa.len() && k <= sb.len() && #[trigger] sa.take(k) == sb.take(k) implies !((k
                == sa.len() && k < sb.len()) || (k < sa.len() && k < sb.len() && (str_lt_fn())(sa[k], sb[k]))) by {
                if k < sa.len() && k < sb.len() {
                    assert(sa.take(i as int)[k] == sb.take(i as int)[k]);
                    lemma_str_lt_irrefl(sa[k]);
                }
            }
        }
    }
    r
}

/// The strings of `v` in string order (stable).
pub fn sort_strings(v: Vec<String>) -> (r: Vec<String>)
    ensures
        strings_view(r@) == isort(strings_view(v@), str_lt_fn()),
{
    let mut out: Vec<String> = Vec::new();
    let mut i: usize = 0;
    let ghost sv = strings_view(v@);
    assert(strings_view(out@) =~= isort(sv.take(0), str_lt_fn()));
    while i < v.len()
        invariant
            sv == strings_view(v@),
            i <= v.len(),
            strings_view(out@) == isort(sv.take(i as int), str_lt_fn()),
        decreases v.len() - i,
    {
        let x = &v[i];
        let mut k: usize = out.len();
        while k > 0 && str_less(x.as_str(), out[k - 1].as_str())
            invariant
                k <= out.len(),
                forall|t: int| k <= t < out.len() ==> (str_lt_fn())(x@, #[trigger] strings_view(out@)[t]),
            decreases k,
        {
            k = k - 1;
        }
        let ghost before = strings_view(out@);
        proof {
            lemma_ins_at(before, x@, str_lt_fn(), k as int);
            assert(sv.take(i + 1).drop_last() =~= sv.take(i as int));
        }
        out.insert(k, crate::text::owned(x.as_str()));
        assert(strings_view(out@) =~= before.take(k as int).push(x@) + before.skip(k as int));
        i = i + 1;
    }
    assert(sv.take(v.len() as int) =~= sv);
    out
}

} // verus!
