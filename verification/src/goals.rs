//! The goal record the goal tools read: the fields that resolution, drafts
//! and diffs look at (amounts and progress stay with the host, which holds
//! them as floating point).
use vstd::prelude::*;

use crate::tools::resolve::{key_views, resolution, resolve, within, KeyView, RefKey, Resolution};
use crate::text::owned;

verus! {

/// A stored goal.
pub struct Goal {
    pub id: String,
    pub title: String,
    pub goal_type: String,
    /// ACTIVE, PAUSED, DRAFT, ACHIEVED, ARCHIVED (stored as the user set it).
    pub status_lifecycle: String,
    /// 1 (highest) to 3.
    pub priority: i32,
    pub currency: Option<String>,
    /// YYYY-MM-DD, when set.
    pub target_date: Option<String>,
    pub description: Option<String>,
}

/// What resolution reads of each goal: id, and the title twice.
pub open spec fn goal_keys(goals: Seq<Goal>) -> Seq<KeyView> {
    goals.map_values(|g: Goal| (g.id@, g.title@, g.title@))
}

fn goal_refs(goals: &Vec<Goal>) -> (keys: Vec<RefKey>)
    ensures
        key_views(keys@) == goal_keys(goals@),
{
    let mut keys: Vec<RefKey> = Vec::new();
    let mut i: usize = 0;
    while i < goals.len()
        invariant
            i <= goals.len(),
            keys@.len() == i,
            key_views(keys@) == goal_keys(goals@.take(i as int)),
        decreases goals.len() - i,
    {
        let g = &goals[i];
        let ghost prior = keys@;
        keys.push(RefKey { id: owned(g.id.as_str()), name: owned(g.title.as_str()), alt: owned(g.title.as_str()) });
        proof {
            assert(keys@ == prior.push(keys@[i as int]));
            assert(goals@.take(i + 1) == goals@.take(i as int).push(goals@[i as int]));
            assert(key_views(keys@) =~= key_views(prior).push(keys@[i as int]@));
            assert(goal_keys(goals@.take(i + 1)) =~= goal_keys(goals@.take(i as int)).push(
                (goals@[i as int].id@, goals@[i as int].title@, goals@[i as int].title@),
            ));
        }
        i = i + 1;
    }
    assert(goals@.take(goals.len() as int) =~= goals@);
    keys
}

/// Resolves a goal reference (an id, a title, or part of a title, compared
/// case-insensitively) against the goals.
pub fn resolve_goal(goals: &Vec<Goal>, reference: &str) -> (r: Resolution)
    ensures
        r@ == resolution(goal_keys(goals@), reference@),
        within(r@, goals@.len() as int),
{
    let keys = goal_refs(goals);
    resolve(&keys, reference)
}

} // verus!
