//! Delete Goal: the confirm card for removing a goal. The card's goal
//! snapshots (which carry amounts) are assembled by the host from the
//! positions this module settles on; the tool itself never writes.
use vstd::prelude::*;

use std::sync::Arc;

use crate::goals::{goal_keys, resolve_goal, Goal};
use crate::accounts::copy_opt;
use crate::text::{decimal, decimal_string, owned, push_str, str_eq, to_uppercase, unicode_uppercase};
use crate::tools::common::strings_view;
use crate::text::opt_chars;
use crate::tools::env::AiEnvironment;
use crate::tools::resolve::{positions, resolution, Resolution, Resolved};

verus! {

/// What the assistant passes.
pub struct DeleteGoalArgs {
    /// The goal's id or (part of) its title.
    pub goal_ref: String,
    /// The user's stated reason, shown on the confirm card.
    pub reason: Option<String>,
}

/// What confirming would throw away.
pub struct DeletionImpact {
    pub had_funding_rules: bool,
    pub had_plan: bool,
    /// The goal is in progress.
    pub is_active: bool,
}

impl Default for DeletionImpact {
    fn default() -> (r: Self)
        ensures
            !r.had_funding_rules && !r.had_plan && !r.is_active,
    {
        DeletionImpact { had_funding_rules: false, had_plan: false, is_active: false }
    }
}

/// Whether the user may confirm, and why not.
pub struct GoalDeletionCheck {
    pub resolved: bool,
    /// Positions (in the goal list) of the goals an ambiguous reference
    /// matched.
    pub candidates: Vec<usize>,
    pub warnings: Vec<String>,
    pub is_valid: bool,
}

/// The settled card: which goal (by position) would go, and what with it.
pub struct GoalDeletion {
    pub target: Option<usize>,
    pub impact: DeletionImpact,
    pub reason: Option<String>,
    pub validation: GoalDeletionCheck,
}

/// Proposes removing a goal; never writes.
pub struct DeleteGoalTool<E: AiEnvironment> {
    env: Arc<E>,
}

impl<E: AiEnvironment> DeleteGoalTool<E> {
    pub fn new(env: Arc<E>) -> (r: Self)
        ensures
            r.env() == env,
    {
        DeleteGoalTool { env }
    }

    pub closed spec fn env(&self) -> Arc<E> {
        self.env
    }
}

/// A lifecycle status that counts as in progress (compared upper-cased).
pub open spec fn is_active_status(status: Seq<char>) -> bool {
    let u = unicode_uppercase(status);
    u == "ACTIVE"@ || u == "IN_PROGRESS"@ || u == "ON_TRACK"@
}

pub open spec fn active_goal_warning() -> Seq<char> {
    "This goal is active — consider pausing it instead if you're not sure you want to throw away the progress permanently."@
}

pub open spec fn funding_warning() -> Seq<char> {
    "Funding rules attached to this goal will be removed too."@
}

pub open spec fn plan_warning() -> Seq<char> {
    "An attached plan (retirement / savings simulation) will be lost — the inputs you entered there won't survive the delete."@
}

pub open spec fn ambiguous_goal_warning(reference: Seq<char>, n: nat) -> Seq<char> {
    "\""@ + reference + "\" matched "@ + decimal(n)
        + " goals. Ask the user which one they mean by title + target date before retrying."@
}

pub open spec fn unknown_goal_warning(reference: Seq<char>) -> Seq<char> {
    "No goal matching \""@ + reference + "\" found. Use get_goals to list active goals first."@
}

pub open spec fn missing_goal_ref_warning() -> Seq<char> {
    "goalRef is required — give the goal title or id."@
}

pub open spec fn when(b: bool, s: Seq<char>) -> Seq<Seq<char>> {
    if b {
        seq![s]
    } else {
        Seq::empty()
    }
}

/// The card for deleting what `args` names among `goals`; the two flags
/// say whether the resolved goal has funding rules and a plan.
pub open spec fn goal_deletion(
    r: GoalDeletion,
    args: DeleteGoalArgs,
    goals: Seq<Goal>,
    had_funding_rules: bool,
    had_plan: bool,
) -> bool {
    &&& opt_chars(r.reason) == opt_chars(args.reason)
    &&& match resolution(goal_keys(goals), args.goal_ref@) {
        Resolved::Single(i) => {
            let active = is_active_status(goals[i].status_lifecycle@);
            &&& r.target == Some(i as usize)
            &&& r.impact.had_funding_rules == had_funding_rules
            &&& r.impact.had_plan == had_plan
            &&& r.impact.is_active == active
            &&& r.validation.resolved
            &&& r.validation.candidates@.len() == 0
            &&& strings_view(r.validation.warnings@) == when(active, active_goal_warning()) + when(
                had_funding_rules,
                funding_warning(),
            ) + when(had_plan, plan_warning())
            &&& r.validation.is_valid
        },
        res => {
            &&& r.target is None
            &&& !r.impact.had_funding_rules && !r.impact.had_plan && !r.impact.is_active
            &&& !r.validation.resolved
            &&& !r.validation.is_valid
            &&& match res {
                Resolved::Ambiguous(found) => {
                    &&& positions(r.validation.candidates@) == found
                    &&& strings_view(r.validation.warnings@) == seq![ambiguous_goal_warning(args.goal_ref@, found.len())]
                },
                Resolved::NotFound => {
                    &&& r.validation.candidates@.len() == 0
                    &&& strings_view(r.validation.warnings@) == seq![unknown_goal_warning(args.goal_ref@)]
                },
                _ => {
                    &&& r.validation.candidates@.len() == 0
                    &&& strings_view(r.validation.warnings@) == seq![missing_goal_ref_warning()]
                },
            }
        },
    }
}

fn is_active_exec(status: &str) -> (r: bool)
    ensures
        r == is_active_status(status@),
{
    let u = to_uppercase(status);
    str_eq(u.as_str(), "ACTIVE") || str_eq(u.as_str(), "IN_PROGRESS") || str_eq(u.as_str(), "ON_TRACK")
}

impl<E: AiEnvironment> DeleteGoalTool<E> {
    /// The card for deleting the goal `args` names among the user's goals;
    /// `had_funding_rules` and `had_plan` describe the goal the reference
    /// resolves to (see `resolve_goal`) and are not read otherwise.
    pub fn build_output(&self, args: DeleteGoalArgs, goals: &Vec<Goal>, had_funding_rules: bool, had_plan: bool) -> (r:
        GoalDeletion)
        ensures
            goal_deletion(r, args, goals@, had_funding_rules, had_plan),
    {
        let res = resolve_goal(goals, args.goal_ref.as_str());
        let reason = copy_opt(&args.reason);
        match res {
            Resolution::Single(i) => {
                let is_active = is_active_exec(goals[i].status_lifecycle.as_str());
                let mut warnings: Vec<String> = Vec::new();
                if is_active {
                    warnings.push(owned("This goal is active — consider pausing it instead if you're not sure you want to throw away the progress permanently."));
                }
                if had_funding_rules {
                    warnings.push(owned("Funding rules attached to this goal will be removed too."));
                }
                if had_plan {
                    warnings.push(owned("An attached plan (retirement / savings simulation) will be lost — the inputs you entered there won't survive the delete."));
                }
                assert(strings_view(warnings@) =~= when(is_active, active_goal_warning()) + when(
                    had_funding_rules,
                    funding_warning(),
                ) + when(had_plan, plan_warning()));
                GoalDeletion {
                    target: Some(i),
                    impact: DeletionImpact { had_funding_rules, had_plan, is_active },
                    reason,
                    validation: GoalDeletionCheck { resolved: true, candidates: Vec::new(), warnings, is_valid: true },
                }
            },
            Resolution::Ambiguous(found) => {
                let mut w = owned("\"");
                push_str(&mut w, args.goal_ref.as_str());
                push_str(&mut w, "\" matched ");
                let count = decimal_string(found.len());
                push_str(&mut w, count.as_str());
                push_str(&mut w, " goals. Ask the user which one they mean by title + target date before retrying.");
                let mut warnings: Vec<String> = Vec::new();
                warnings.push(w);
                assert(strings_view(warnings@) =~= seq![warnings@[0]@]);
                GoalDeletion {
                    target: None,
                    impact: DeletionImpact::default(),
                    reason,
                    validation: GoalDeletionCheck { resolved: false, candidates: found, warnings, is_valid: false },
                }
            },
            Resolution::NotFound => {
                let mut w = owned("No goal matching \"");
                push_str(&mut w, args.goal_ref.as_str());
                push_str(&mut w, "\" found. Use get_goals to list active goals first.");
                let mut warnings: Vec<String> = Vec::new();
                warnings.push(w);
                assert(strings_view(warnings@) =~= seq![warnings@[0]@]);
                GoalDeletion {
                    target: None,
                    impact: DeletionImpact::default(),
                    reason,
                    validation: GoalDeletionCheck { resolved: false, candidates: Vec::new(), warnings, is_valid: false },
                }
            },
            Resolution::Missing => {
                let mut warnings: Vec<String> = Vec::new();
                warnings.push(owned("goalRef is required — give the goal title or id."));
                assert(strings_view(warnings@) =~= seq![warnings@[0]@]);
                GoalDeletion {
                    target: None,
                    impact: DeletionImpact::default(),
                    reason,
                    validation: GoalDeletionCheck { resolved: false, candidates: Vec::new(), warnings, is_valid: false },
                }
            },
        }
    }
}

} // verus!
