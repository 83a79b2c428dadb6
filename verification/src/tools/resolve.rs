//! Resolving the reference the assistant passes ("Vanguard", an id, a
//! title) to one record: exact id first, then a case-insensitive exact
//! name, then a case-insensitive substring of the name.
use vstd::prelude::*;

use crate::text::{is_infix, str_contains, str_eq, to_lowercase, trim, trimmed, unicode_lowercase};

verus! {

/// What a record can be referred to by: its id, its name, and a second
/// name (a ticker symbol; the name again where a record has none).
pub struct RefKey {
    pub id: String,
    pub name: String,
    pub alt: String,
}

/// How a reference resolved, by positions in the list of keys.
pub enum Resolution {
    Single(usize),
    Ambiguous(Vec<usize>),
    NotFound,
    Missing,
}

/// What resolution reads of a key: its id, name and second name.
pub type KeyView = (Seq<char>, Seq<char>, Seq<char>);

impl RefKey {
    pub open spec fn view(&self) -> KeyView {
        (self.id@, self.name@, self.alt@)
    }
}

pub open spec fn key_views(keys: Seq<RefKey>) -> Seq<KeyView> {
    keys.map_values(|k: RefKey| k@)
}

/// The mathematical reading of a [`Resolution`].
pub ghost enum Resolved {
    Single(int),
    Ambiguous(Seq<int>),
    NotFound,
    Missing,
}

pub open spec fn positions(v: Seq<usize>) -> Seq<int> {
    v.map_values(|x: usize| x as int)
}

impl Resolution {
    pub open spec fn view(&self) -> Resolved {
        match self {
            Resolution::Single(i) => Resolved::Single(*i as int),
            Resolution::Ambiguous(v) => Resolved::Ambiguous(positions(v@)),
            Resolution::NotFound => Resolved::NotFound,
            Resolution::Missing => Resolved::Missing,
        }
    }
}

/// The positions, in order, of the keys that satisfy `p`.
pub open spec fn hits(keys: Seq<KeyView>, p: spec_fn(KeyView) -> bool) -> Seq<int>
    decreases keys.len(),
{
    if keys.len() == 0 {
        Seq::empty()
    } else {
        let before = hits(keys.drop_last(), p);
        if p(keys.last()) {
            before.push(keys.len() - 1)
        } else {
            before
        }
    }
}

/// The key's id is `r`.
pub open spec fn id_is(r: Seq<char>) -> spec_fn(KeyView) -> bool {
    |k: KeyView| k.0 == r
}

/// The key's name or second name, lower-cased, is `lower`.
pub open spec fn name_is(lower: Seq<char>) -> spec_fn(KeyView) -> bool {
    |k: KeyView| unicode_lowercase(k.1) == lower || unicode_lowercase(k.2) == lower
}

/// The key's name or second name, lower-cased, contains `lower`.
pub open spec fn name_contains(lower: Seq<char>) -> spec_fn(KeyView) -> bool {
    |k: KeyView| is_infix(lower, unicode_lowercase(k.1)) || is_infix(lower, unicode_lowercase(k.2))
}

/// One match is the record; several are ambiguous; none falls through.
pub open spec fn pick(found: Seq<int>) -> Resolved {
    if found.len() == 1 {
        Resolved::Single(found[0])
    } else if found.len() > 1 {
        Resolved::Ambiguous(found)
    } else {
        Resolved::NotFound
    }
}

/// How `reference` resolves against `keys`: an empty (trimmed) reference is
/// missing; the first key whose id is the trimmed reference wins; then the
/// keys whose name equals it case-insensitively; then those whose name
/// contains it case-insensitively.
pub open spec fn resolution(keys: Seq<KeyView>, reference: Seq<char>) -> Resolved {
    let r = trimmed(reference);
    let lower = unicode_lowercase(r);
    if r.len() == 0 {
        Resolved::Missing
    } else if hits(keys, id_is(r)).len() > 0 {
        Resolved::Single(hits(keys, id_is(r))[0])
    } else if hits(keys, name_is(lower)).len() > 0 {
        pick(hits(keys, name_is(lower)))
    } else {
        pick(hits(keys, name_contains(lower)))
    }
}

/// Every position a resolution names is one of the `n` keys.
pub open spec fn within(r: Resolved, n: int) -> bool {
    match r {
        Resolved::Single(i) => 0 <= i < n,
        Resolved::Ambiguous(v) => forall|k: int| 0 <= k < v.len() ==> 0 <= #[trigger] v[k] < n,
        _ => true,
    }
}

proof fn lemma_hits_within(keys: Seq<KeyView>, p: spec_fn(KeyView) -> bool)
    ensures
        forall|k: int| 0 <= k < hits(keys, p).len() ==> 0 <= #[trigger] hits(keys, p)[k] < keys.len(),
    decreases keys.len(),
{
    if keys.len() > 0 {
        lemma_hits_within(keys.drop_last(), p);
        let before = hits(keys.drop_last(), p);
        assert forall|k: int| 0 <= k < hits(keys, p).len() implies 0 <= #[trigger] hits(keys, p)[k] < keys.len() by {
            if k < before.len() {
                assert(hits(keys, p)[k] == before[k]);
            }
        }
    }
}

proof fn lemma_hits_step(keys: Seq<KeyView>, p: spec_fn(KeyView) -> bool, i: int)
    requires
        0 <= i < keys.len(),
    ensures
        hits(keys.take(i + 1), p) == if p(keys[i]) {
            hits(keys.take(i), p).push(i)
        } else {
            hits(keys.take(i), p)
        },
{
    assert(keys.take(i + 1).drop_last() =~= keys.take(i));
}

fn ids_equal_to(keys: &Vec<RefKey>, r: &str) -> (out: Vec<usize>)
    ensures
        positions(out@) == hits(key_views(keys@), id_is(r@)),
{
    let mut out: Vec<usize> = Vec::new();
    let mut i: usize = 0;
    while i < keys.len()
        invariant
            i <= keys.len(),
            positions(out@) == hits(key_views(keys@).take(i as int), id_is(r@)),
        decreases keys.len() - i,
    {
        proof {
            lemma_hits_step(key_views(keys@), id_is(r@), i as int);
        }
        if str_eq(keys[i].id.as_str(), r) {
            out.push(i);
            assert(positions(out@) =~= hits(key_views(keys@).take(i as int), id_is(r@)).push(i as int));
        }
        i = i + 1;
    }
    assert(key_views(keys@).take(keys.len() as int) =~= key_views(keys@));
    out
}

fn names_equal_to(keys: &Vec<RefKey>, lower: &str) -> (out: Vec<usize>)
    ensures
        positions(out@) == hits(key_views(keys@), name_is(lower@)),
{
    let mut out: Vec<usize> = Vec::new();
    let mut i: usize = 0;
    while i < keys.len()
        invariant
            i <= keys.len(),
            positions(out@) == hits(key_views(keys@).take(i as int), name_is(lower@)),
        decreases keys.len() - i,
    {
        proof {
            lemma_hits_step(key_views(keys@), name_is(lower@), i as int);
        }
        let n = to_lowercase(keys[i].name.as_str());
        let a = to_lowercase(keys[i].alt.as_str());
        if str_eq(n.as_str(), lower) || str_eq(a.as_str(), lower) {
            out.push(i);
            assert(positions(out@) =~= hits(key_views(keys@).take(i as int), name_is(lower@)).push(i as int));
        }
        i = i + 1;
    }
    assert(key_views(keys@).take(keys.len() as int) =~= key_views(keys@));
    out
}

fn names_containing(keys: &Vec<RefKey>, lower: &str) -> (out: Vec<usize>)
    ensures
        positions(out@) == hits(key_views(keys@), name_contains(lower@)),
{
    let mut out: Vec<usize> = Vec::new();
    let mut i: usize = 0;
    while i < keys.len()
        invariant
            i <= keys.len(),
            positions(out@) == hits(key_views(keys@).take(i as int), name_contains(lower@)),
        decreases keys.len() - i,
    {
        proof {
            lemma_hits_step(key_views(keys@), name_contains(lower@), i as int);
        }
        let n = to_lowercase(keys[i].name.as_str());
        let a = to_lowercase(keys[i].alt.as_str());
        if str_contains(n.as_str(), lower) || str_contains(a.as_str(), lower) {
            out.push(i);
            assert(positions(out@) =~= hits(key_views(keys@).take(i as int), name_contains(lower@)).push(i as int));
        }
        i = i + 1;
    }
    assert(key_views(keys@).take(keys.len() as int) =~= key_views(keys@));
    out
}

fn pick_exec(found: Vec<usize>) -> (r: Resolution)
    ensures
        r@ == pick(positions(found@)),
{
    if found.len() == 1 {
        Resolution::Single(found[0])
    } else if found.len() > 1 {
        Resolution::Ambiguous(found)
    } else {
        Resolution::NotFound
    }
}

/// Resolves `reference` against `keys`.
pub fn resolve(keys: &Vec<RefKey>, reference: &str) -> (r: Resolution)
    ensures
        r@ == resolution(key_views(keys@), reference@),
        within(r@, keys@.len() as int),
{
    let t = trim(reference);
    if t.as_str().is_empty() {
        return Resolution::Missing;
    }
    let lower = to_lowercase(t.as_str());
    proof {
        lemma_hits_within(key_views(keys@), id_is(t@));
        lemma_hits_within(key_views(keys@), name_is(lower@));
        lemma_hits_within(key_views(keys@), name_contains(lower@));
    }
    let by_id = ids_equal_to(keys, t.as_str());
    if by_id.len() > 0 {
        return Resolution::Single(by_id[0]);
    }
    let exact = names_equal_to(keys, lower.as_str());
    if exact.len() > 0 {
        return pick_exec(exact);
    }
    let partial = names_containing(keys, lower.as_str());
    pick_exec(partial)
}

} // verus!
