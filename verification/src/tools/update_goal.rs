//! Update Goal: editing an existing goal. Each requested field is checked
//! (a blank title, a malformed date, an out-of-range priority or an
//! unknown status is dropped with a warning) and every real change becomes
//! a diff row. The target amount is judged by the host, which holds
//! amounts as floating point, and handed in as an [`AmountEdit`].
use vstd::prelude::*;

use std::sync::Arc;

use crate::accounts::copy_opt;
use crate::dates::{date_parses, parses_as_date};
use crate::goals::{goal_keys, resolve_goal, Goal};
use crate::text::{
    decimal, decimal_string, i32_string, owned, push_str, signed_decimal, str_eq, to_uppercase, trim, trimmed,
    unicode_uppercase,
};
use crate::tools::common::strings_view;
use crate::text::opt_chars;
use crate::tools::env::AiEnvironment;
use crate::tools::resolve::{positions, resolution, Resolution, Resolved};
use crate::tools::update_account::{diff_views, opt_eq, push_diff, DiffView, FieldDiff};

verus! {

/// What the assistant asks to change; omitted fields keep their value.
pub struct UpdateGoalArgs {
    /// The goal's id or (part of) its title.
    pub goal_ref: String,
    pub title: Option<String>,
    /// YYYY-MM-DD; blank clears the date.
    pub target_date: Option<String>,
    /// 1 (highest) to 3.
    pub priority: Option<i32>,
    pub status_lifecycle: Option<String>,
    pub description: Option<String>,
}

/// The host's judgement of a requested target amount.
pub enum AmountEdit {
    /// None requested, or the same as the current one.
    Unchanged,
    /// Not a finite, non-negative number; `shown` is how it prints.
    Invalid { shown: String },
    /// A new amount: the old and new values as they print.
    Changed { old: Option<String>, new: String },
}

/// The goal as it will read once the edit is applied.
pub struct GoalEditDraft {
    pub id: String,
    pub title: String,
    pub status_lifecycle: String,
    pub priority: i32,
    pub target_date: Option<String>,
    pub description: Option<String>,
}

pub struct GoalEditCheck {
    pub resolved: bool,
    /// Positions (in the goal list) of the goals an ambiguous reference
    /// matched.
    pub candidates: Vec<usize>,
    pub warnings: Vec<String>,
    pub is_valid: bool,
    pub has_changes: bool,
}

/// The settled edit: the goal's position, the draft, the diff.
pub struct GoalEdit {
    pub current: Option<usize>,
    pub draft: GoalEditDraft,
    pub diff: Vec<FieldDiff>,
    pub validation: GoalEditCheck,
}

/// Proposes an edit of an existing goal; never writes.
pub struct UpdateGoalTool<E: AiEnvironment> {
    env: Arc<E>,
}

impl<E: AiEnvironment> UpdateGoalTool<E> {
    pub fn new(env: Arc<E>) -> (r: Self)
        ensures
            r.env() == env,
    {
        UpdateGoalTool { env }
    }

    pub closed spec fn env(&self) -> Arc<E> {
        self.env
    }
}

pub type Step = (Seq<DiffView>, Seq<Seq<char>>);

pub open spec fn no_step() -> Step {
    (Seq::empty(), Seq::empty())
}

pub open spec fn row(field: Seq<char>, old: Option<Seq<char>>, new: Option<Seq<char>>) -> Step {
    (seq![(field, old, new)], Seq::empty())
}

pub open spec fn warn(w: Seq<char>) -> Step {
    (Seq::empty(), seq![w])
}

pub open spec fn title_step(arg: Option<Seq<char>>, cur: Seq<char>) -> Step {
    match arg {
        Some(t) => if trimmed(t).len() == 0 {
            warn("Title can't be cleared — provide a non-empty title or omit the field."@)
        } else if trimmed(t) != cur {
            row("title"@, Some(cur), Some(trimmed(t)))
        } else {
            no_step()
        },
        None => no_step(),
    }
}

pub open spec fn title_value(arg: Option<Seq<char>>, cur: Seq<char>) -> Seq<char> {
    match arg {
        Some(t) => if trimmed(t).len() == 0 {
            cur
        } else {
            trimmed(t)
        },
        None => cur,
    }
}

pub open spec fn amount_step(a: AmountEdit) -> Step {
    match a {
        AmountEdit::Unchanged => no_step(),
        AmountEdit::Invalid { shown } => warn(
            "Target amount "@ + shown@ + " is invalid — drop it or send a positive number."@,
        ),
        AmountEdit::Changed { old, new } => row("targetAmount"@, opt_chars(old), Some(new@)),
    }
}

pub open spec fn iso_format() -> Seq<char> {
    "%Y-%m-%d"@
}

pub open spec fn date_step(arg: Option<Seq<char>>, cur: Option<Seq<char>>) -> Step {
    match arg {
        Some(td) => {
            let t = trimmed(td);
            if t.len() == 0 {
                if cur is Some {
                    row("targetDate"@, cur, None)
                } else {
                    no_step()
                }
            } else if !date_parses(t, iso_format()) {
                warn("Target date '"@ + t + "' is not ISO 8601 (YYYY-MM-DD) — dropped."@)
            } else if Some(t) != cur {
                row("targetDate"@, cur, Some(t))
            } else {
                no_step()
            }
        },
        None => no_step(),
    }
}

pub open spec fn date_value(arg: Option<Seq<char>>, cur: Option<Seq<char>>) -> Option<Seq<char>> {
    match arg {
        Some(td) => {
            let t = trimmed(td);
            if t.len() == 0 {
                None
            } else if !date_parses(t, iso_format()) {
                cur
            } else {
                Some(t)
            }
        },
        None => cur,
    }
}

pub open spec fn priority_step(arg: Option<i32>, cur: i32) -> Step {
    match arg {
        Some(p) => if p < 1 || p > 3 {
            warn("Priority "@ + signed_decimal(p as int) + " is out of range (1-3) — dropped."@)
        } else if p != cur {
            row("priority"@, Some(signed_decimal(cur as int)), Some(signed_decimal(p as int)))
        } else {
            no_step()
        },
        None => no_step(),
    }
}

pub open spec fn priority_value(arg: Option<i32>, cur: i32) -> i32 {
    match arg {
        Some(p) => if p < 1 || p > 3 {
            cur
        } else {
            p
        },
        None => cur,
    }
}

/// The lifecycle statuses a goal may take.
pub open spec fn valid_status(s: Seq<char>) -> bool {
    s == "ACTIVE"@ || s == "PAUSED"@ || s == "DRAFT"@ || s == "ACHIEVED"@ || s == "ARCHIVED"@
}

pub open spec fn status_step(arg: Option<Seq<char>>, cur: Seq<char>) -> Step {
    match arg {
        Some(s) => {
            let up = unicode_uppercase(trimmed(s));
            if !valid_status(up) {
                warn("Status '"@ + s + "' is unknown — valid: ACTIVE, PAUSED, DRAFT, ACHIEVED, ARCHIVED. Dropped."@)
            } else if up != unicode_uppercase(cur) {
                row("statusLifecycle"@, Some(cur), Some(up))
            } else {
                no_step()
            }
        },
        None => no_step(),
    }
}

pub open spec fn status_value(arg: Option<Seq<char>>, cur: Seq<char>) -> Seq<char> {
    match arg {
        Some(s) => {
            let up = unicode_uppercase(trimmed(s));
            if valid_status(up) && up != unicode_uppercase(cur) {
                up
            } else {
                cur
            }
        },
        None => cur,
    }
}

pub open spec fn description_value(arg: Option<Seq<char>>, cur: Option<Seq<char>>) -> Option<Seq<char>> {
    match arg {
        Some(d) => if trimmed(d).len() == 0 {
            None
        } else {
            Some(trimmed(d))
        },
        None => cur,
    }
}

pub open spec fn description_step(arg: Option<Seq<char>>, cur: Option<Seq<char>>) -> Step {
    match arg {
        Some(d) => if description_value(arg, cur) != cur {
            row("description"@, cur, description_value(arg, cur))
        } else {
            no_step()
        },
        None => no_step(),
    }
}

/// The steps of an edit of goal `g`, in field order.
pub open spec fn edit_steps(args: UpdateGoalArgs, g: Goal, amount: AmountEdit) -> Seq<Step> {
    seq![
        title_step(opt_chars(args.title), g.title@),
        amount_step(amount),
        date_step(opt_chars(args.target_date), opt_chars(g.target_date)),
        priority_step(args.priority, g.priority),
        status_step(opt_chars(args.status_lifecycle), g.status_lifecycle@),
        description_step(opt_chars(args.description), opt_chars(g.description)),
    ]
}

pub open spec fn edit_rows(args: UpdateGoalArgs, g: Goal, amount: AmountEdit) -> Seq<DiffView> {
    let s = edit_steps(args, g, amount);
    s[0].0 + s[1].0 + s[2].0 + s[3].0 + s[4].0 + s[5].0
}

pub open spec fn nothing_to_change() -> Seq<char> {
    "Nothing to change — every field matched the current goal."@
}

pub open spec fn edit_warnings(args: UpdateGoalArgs, g: Goal, amount: AmountEdit) -> Seq<Seq<char>> {
    let s = edit_steps(args, g, amount);
    s[0].1 + s[1].1 + s[2].1 + s[3].1 + s[4].1 + s[5].1 + if edit_rows(args, g, amount).len() == 0 {
        seq![nothing_to_change()]
    } else {
        Seq::empty()
    }
}

pub open spec fn blank_draft(d: GoalEditDraft) -> bool {
    &&& d.id@.len() == 0
    &&& d.title@.len() == 0
    &&& d.status_lifecycle@.len() == 0
    &&& d.priority == 0
    &&& d.target_date is None
    &&& d.description is None
}

/// The whole edit for `args` against `goals`, given the host's judgement
/// of the requested amount.
pub open spec fn goal_edit(r: GoalEdit, args: UpdateGoalArgs, goals: Seq<Goal>, amount: AmountEdit) -> bool {
    match resolution(goal_keys(goals), args.goal_ref@) {
        Resolved::Single(i) => {
            let g = goals[i];
            &&& r.current == Some(i as usize)
            &&& r.draft.id@ == g.id@
            &&& r.draft.title@ == title_value(opt_chars(args.title), g.title@)
            &&& opt_chars(r.draft.target_date) == date_value(opt_chars(args.target_date), opt_chars(g.target_date))
            &&& r.draft.priority == priority_value(args.priority, g.priority)
            &&& r.draft.status_lifecycle@ == status_value(opt_chars(args.status_lifecycle), g.status_lifecycle@)
            &&& opt_chars(r.draft.description) == description_value(opt_chars(args.description), opt_chars(g.description))
            &&& diff_views(r.diff@) == edit_rows(args, g, amount)
            &&& strings_view(r.validation.warnings@) == edit_warnings(args, g, amount)
            &&& r.validation.resolved
            &&& r.validation.candidates@.len() == 0
            &&& r.validation.has_changes == (r.diff@.len() > 0)
            &&& r.validation.is_valid == r.validation.has_changes
        },
        res => {
            &&& r.current is None
            &&& blank_draft(r.draft)
            &&& r.diff@.len() == 0
            &&& !r.validation.resolved
            &&& !r.validation.is_valid
            &&& !r.validation.has_changes
            &&& match res {
                Resolved::Ambiguous(found) => {
                    &&& positions(r.validation.candidates@) == found
                    &&& strings_view(r.validation.warnings@) == seq![
                        "\""@ + args.goal_ref@ + "\" matched "@ + decimal(found.len())
                            + " goals. Ask the user which one they mean by title."@,
                    ]
                },
                Resolved::NotFound => {
                    &&& r.validation.candidates@.len() == 0
                    &&& strings_view(r.validation.warnings@) == seq![
                        "No goal matching \""@ + args.goal_ref@ + "\" found. Call get_goals to list goals first."@,
                    ]
                },
                _ => {
                    &&& r.validation.candidates@.len() == 0
                    &&& strings_view(r.validation.warnings@) == seq!["goalRef is required — pass the goal title or id."@]
                },
            }
        },
    }
}

pub(crate) fn push_warning(warnings: &mut Vec<String>, w: String)
    ensures
        strings_view(final(warnings)@) == strings_view(old(warnings)@).push(w@),
{
    let ghost before = strings_view(warnings@);
    warnings.push(w);
    assert(strings_view(warnings@) =~= before.push(w@));
}

pub(crate) fn push_row(diff: &mut Vec<FieldDiff>, field: &str, before: Option<String>, after: Option<String>)
    ensures
        diff_views(final(diff)@) == diff_views(old(diff)@).push((field@, opt_chars(before), opt_chars(after))),
{
    let ghost prior = diff_views(diff@);
    let ghost row: DiffView = (field@, opt_chars(before), opt_chars(after));
    diff.push(FieldDiff { field: owned(field), old: before, new: after });
    assert(diff_views(diff@) =~= prior.push(row));
}

fn valid_status_exec(s: &str) -> (r: bool)
    ensures
        r == valid_status(s@),
{
    str_eq(s, "ACTIVE") || str_eq(s, "PAUSED") || str_eq(s, "DRAFT") || str_eq(s, "ACHIEVED") || str_eq(s, "ARCHIVED")
}

fn title_exec(arg: &Option<String>, cur: &String, diff: &mut Vec<FieldDiff>, warnings: &mut Vec<String>) -> (v: String)
    ensures
        diff_views(final(diff)@) == diff_views(old(diff)@) + title_step(opt_chars(*arg), cur@).0,
        strings_view(final(warnings)@) == strings_view(old(warnings)@) + title_step(opt_chars(*arg), cur@).1,
        v@ == title_value(opt_chars(*arg), cur@),
{
    let ghost d0 = diff_views(diff@);
    let ghost w0 = strings_view(warnings@);
    match arg {
        Some(t) => {
            let tt = trim(t.as_str());
            if tt.as_str().is_empty() {
                push_warning(warnings, owned("Title can't be cleared — provide a non-empty title or omit the field."));
                assert(diff_views(diff@) =~= d0 + Seq::<DiffView>::empty());
                owned(cur.as_str())
            } else if !str_eq(tt.as_str(), cur.as_str()) {
                push_row(diff, "title", Some(owned(cur.as_str())), Some(owned(tt.as_str())));
                assert(strings_view(warnings@) =~= w0 + Seq::<Seq<char>>::empty());
                tt
            } else {
                assert(diff_views(diff@) =~= d0 + Seq::<DiffView>::empty());
                assert(strings_view(warnings@) =~= w0 + Seq::<Seq<char>>::empty());
                tt
            }
        },
        None => {
            assert(diff_views(diff@) =~= d0 + Seq::<DiffView>::empty());
            assert(strings_view(warnings@) =~= w0 + Seq::<Seq<char>>::empty());
            owned(cur.as_str())
        },
    }
}

fn amount_exec(amount: &AmountEdit, diff: &mut Vec<FieldDiff>, warnings: &mut Vec<String>)
    ensures
        diff_views(final(diff)@) == diff_views(old(diff)@) + amount_step(*amount).0,
        strings_view(final(warnings)@) == strings_view(old(warnings)@) + amount_step(*amount).1,
{
    let ghost d0 = diff_views(diff@);
    let ghost w0 = strings_view(warnings@);
    match amount {
        AmountEdit::Unchanged => {
            assert(diff_views(diff@) =~= d0 + Seq::<DiffView>::empty());
            assert(strings_view(warnings@) =~= w0 + Seq::<Seq<char>>::empty());
        },
        AmountEdit::Invalid { shown } => {
            let mut w = owned("Target amount ");
            push_str(&mut w, shown.as_str());
            push_str(&mut w, " is invalid — drop it or send a positive number.");
            push_warning(warnings, w);
            assert(diff_views(diff@) =~= d0 + Seq::<DiffView>::empty());
        },
        AmountEdit::Changed { old, new } => {
            push_row(diff, "targetAmount", copy_opt(old), Some(owned(new.as_str())));
            assert(strings_view(warnings@) =~= w0 + Seq::<Seq<char>>::empty());
        },
    }
}

fn date_exec(arg: &Option<String>, cur: &Option<String>, diff: &mut Vec<FieldDiff>, warnings: &mut Vec<String>) -> (v: Option<String>)
    ensures
        diff_views(final(diff)@) == diff_views(old(diff)@) + date_step(opt_chars(*arg), opt_chars(*cur)).0,
        strings_view(final(warnings)@) == strings_view(old(warnings)@) + date_step(opt_chars(*arg), opt_chars(*cur)).1,
        opt_chars(v) == date_value(opt_chars(*arg), opt_chars(*cur)),
{
    let ghost d0 = diff_views(diff@);
    let ghost w0 = strings_view(warnings@);
    match arg {
        Some(td) => {
            let tt = trim(td.as_str());
            if tt.as_str().is_empty() {
                if cur.is_some() {
                    push_row(diff, "targetDate", copy_opt(cur), None);
                } else {
                    assert(diff_views(diff@) =~= d0 + Seq::<DiffView>::empty());
                }
                assert(strings_view(warnings@) =~= w0 + Seq::<Seq<char>>::empty());
                None
            } else if !parses_as_date(tt.as_str(), "%Y-%m-%d") {
                let mut w = owned("Target date '");
                push_str(&mut w, tt.as_str());
                push_str(&mut w, "' is not ISO 8601 (YYYY-MM-DD) — dropped.");
                push_warning(warnings, w);
                assert(diff_views(diff@) =~= d0 + Seq::<DiffView>::empty());
                copy_opt(cur)
            } else {
                let new_date = Some(owned(tt.as_str()));
                if !opt_eq(&new_date, cur) {
                    push_row(diff, "targetDate", copy_opt(cur), Some(owned(tt.as_str())));
                } else {
                    assert(diff_views(diff@) =~= d0 + Seq::<DiffView>::empty());
                }
                assert(strings_view(warnings@) =~= w0 + Seq::<Seq<char>>::empty());
                new_date
            }
        },
        None => {
            assert(diff_views(diff@) =~= d0 + Seq::<DiffView>::empty());
            assert(strings_view(warnings@) =~= w0 + Seq::<Seq<char>>::empty());
            copy_opt(cur)
        },
    }
}

fn priority_exec(arg: Option<i32>, cur: i32, diff: &mut Vec<FieldDiff>, warnings: &mut Vec<String>) -> (v: i32)
    ensures
        diff_views(final(diff)@) == diff_views(old(diff)@) + priority_step(arg, cur).0,
        strings_view(final(warnings)@) == strings_view(old(warnings)@) + priority_step(arg, cur).1,
        v == priority_value(arg, cur),
{
    let ghost d0 = diff_views(diff@);
    let ghost w0 = strings_view(warnings@);
    match arg {
        Some(p) => {
            if p < 1 || p > 3 {
                let mut w = owned("Priority ");
                let ps = i32_string(p);
                push_str(&mut w, ps.as_str());
                push_str(&mut w, " is out of range (1-3) — dropped.");
                push_warning(warnings, w);
                assert(diff_views(diff@) =~= d0 + Seq::<DiffView>::empty());
                cur
            } else {
                if p != cur {
                    push_row(diff, "priority", Some(i32_string(cur)), Some(i32_string(p)));
                } else {
                    assert(diff_views(diff@) =~= d0 + Seq::<DiffView>::empty());
                }
                assert(strings_view(warnings@) =~= w0 + Seq::<Seq<char>>::empty());
                p
            }
        },
        None => {
            assert(diff_views(diff@) =~= d0 + Seq::<DiffView>::empty());
            assert(strings_view(warnings@) =~= w0 + Seq::<Seq<char>>::empty());
            cur
        },
    }
}

fn status_exec(arg: &Option<String>, cur: &String, diff: &mut Vec<FieldDiff>, warnings: &mut Vec<String>) -> (v: String)
    ensures
        diff_views(final(diff)@) == diff_views(old(diff)@) + status_step(opt_chars(*arg), cur@).0,
        strings_view(final(warnings)@) == strings_view(old(warnings)@) + status_step(opt_chars(*arg), cur@).1,
        v@ == status_value(opt_chars(*arg), cur@),
{
    let ghost d0 = diff_views(diff@);
    let ghost w0 = strings_view(warnings@);
    match arg {
        Some(s) => {
            let t = trim(s.as_str());
            let up = to_uppercase(t.as_str());
            if !valid_status_exec(up.as_str()) {
                let mut w = owned("Status '");
                push_str(&mut w, s.as_str());
                push_str(&mut w, "' is unknown — valid: ACTIVE, PAUSED, DRAFT, ACHIEVED, ARCHIVED. Dropped.");
                push_warning(warnings, w);
                assert(diff_views(diff@) =~= d0 + Seq::<DiffView>::empty());
                owned(cur.as_str())
            } else {
                let cur_up = to_uppercase(cur.as_str());
                assert(strings_view(warnings@) =~= w0 + Seq::<Seq<char>>::empty());
                if !str_eq(up.as_str(), cur_up.as_str()) {
                    push_row(diff, "statusLifecycle", Some(owned(cur.as_str())), Some(owned(up.as_str())));
                    up
                } else {
                    assert(diff_views(diff@) =~= d0 + Seq::<DiffView>::empty());
                    owned(cur.as_str())
                }
            }
        },
        None => {
            assert(diff_views(diff@) =~= d0 + Seq::<DiffView>::empty());
            assert(strings_view(warnings@) =~= w0 + Seq::<Seq<char>>::empty());
            owned(cur.as_str())
        },
    }
}

fn description_exec(arg: &Option<String>, cur: &Option<String>, diff: &mut Vec<FieldDiff>) -> (v: Option<String>)
    ensures
        diff_views(final(diff)@) == diff_views(old(diff)@) + description_step(opt_chars(*arg), opt_chars(*cur)).0,
        description_step(opt_chars(*arg), opt_chars(*cur)).1 == Seq::<Seq<char>>::empty(),
        opt_chars(v) == description_value(opt_chars(*arg), opt_chars(*cur)),
{
    let ghost d0 = diff_views(diff@);
    match arg {
        Some(d) => {
            let t = trim(d.as_str());
            let new_desc = if t.as_str().is_empty() {
                None
            } else {
                Some(t)
            };
            if !opt_eq(&new_desc, cur) {
                push_row(diff, "description", copy_opt(cur), copy_opt(&new_desc));
            } else {
                assert(diff_views(diff@) =~= d0 + Seq::<DiffView>::empty());
            }
            new_desc
        },
        None => {
            assert(diff_views(diff@) =~= d0 + Seq::<DiffView>::empty());
            copy_opt(cur)
        },
    }
}

fn resolved_edit(args: &UpdateGoalArgs, g: &Goal, amount: &AmountEdit, i: usize) -> (r: GoalEdit)
    ensures
        r.current == Some(i),
        r.draft.id@ == g.id@,
        r.draft.title@ == title_value(opt_chars(args.title), g.title@),
        opt_chars(r.draft.target_date) == date_value(opt_chars(args.target_date), opt_chars(g.target_date)),
        r.draft.priority == priority_value(args.priority, g.priority),
        r.draft.status_lifecycle@ == status_value(opt_chars(args.status_lifecycle), g.status_lifecycle@),
        opt_chars(r.draft.description) == description_value(opt_chars(args.description), opt_chars(g.description)),
        diff_views(r.diff@) == edit_rows(*args, *g, *amount),
        strings_view(r.validation.warnings@) == edit_warnings(*args, *g, *amount),
        r.validation.resolved,
        r.validation.candidates@.len() == 0,
        r.validation.has_changes == (r.diff@.len() > 0),
        r.validation.is_valid == r.validation.has_changes,
{
    let ghost steps = edit_steps(*args, *g, *amount);
    let mut diff: Vec<FieldDiff> = Vec::new();
    let mut warnings: Vec<String> = Vec::new();
    let title = title_exec(&args.title, &g.title, &mut diff, &mut warnings);
    amount_exec(amount, &mut diff, &mut warnings);
    let target_date = date_exec(&args.target_date, &g.target_date, &mut diff, &mut warnings);
    let priority = priority_exec(args.priority, g.priority, &mut diff, &mut warnings);
    let status = status_exec(&args.status_lifecycle, &g.status_lifecycle, &mut diff, &mut warnings);
    let description = description_exec(&args.description, &g.description, &mut diff);
    proof {
        assert(diff_views(diff@) =~= edit_rows(*args, *g, *amount));
        assert(strings_view(warnings@) =~= steps[0].1 + steps[1].1 + steps[2].1 + steps[3].1 + steps[4].1 + steps[5].1);
    }
    let has_changes = diff.len() > 0;
    if !has_changes {
        push_warning(&mut warnings, owned("Nothing to change — every field matched the current goal."));
    }
    proof {
        assert(strings_view(warnings@) =~= edit_warnings(*args, *g, *amount));
    }
    GoalEdit {
        current: Some(i),
        draft: GoalEditDraft { id: owned(g.id.as_str()), title, status_lifecycle: status, priority, target_date, description },
        diff,
        validation: GoalEditCheck { resolved: true, candidates: Vec::new(), warnings, is_valid: has_changes, has_changes },
    }
}

impl<E: AiEnvironment> UpdateGoalTool<E> {
    /// The edit `args` describes, against the user's goals; `amount` is the
    /// host's judgement of the requested target amount against the goal
    /// the reference resolves to (see `resolve_goal`).
    pub fn build_output(&self, args: UpdateGoalArgs, goals: &Vec<Goal>, amount: AmountEdit) -> (r: GoalEdit)
        ensures
            goal_edit(r, args, goals@, amount),
    {
        let res = resolve_goal(goals, args.goal_ref.as_str());
        let (candidates, warning) = match res {
            Resolution::Single(i) => {
                return resolved_edit(&args, &goals[i], &amount, i);
            },
            Resolution::Ambiguous(found) => {
                let mut w = owned("\"");
                push_str(&mut w, args.goal_ref.as_str());
                push_str(&mut w, "\" matched ");
                let count = decimal_string(found.len());
                push_str(&mut w, count.as_str());
                push_str(&mut w, " goals. Ask the user which one they mean by title.");
                (found, w)
            },
            Resolution::NotFound => {
                let mut w = owned("No goal matching \"");
                push_str(&mut w, args.goal_ref.as_str());
                push_str(&mut w, "\" found. Call get_goals to list goals first.");
                (Vec::new(), w)
            },
            Resolution::Missing => (Vec::new(), owned("goalRef is required — pass the goal title or id.")),
        };
        let ghost wv = warning@;
        let mut warnings: Vec<String> = Vec::new();
        push_warning(&mut warnings, warning);
        assert(strings_view(warnings@) =~= seq![wv]);
        GoalEdit {
            current: None,
            draft: GoalEditDraft {
                id: String::new(),
                title: String::new(),
                status_lifecycle: String::new(),
                priority: 0,
                target_date: None,
                description: None,
            },
            diff: Vec::new(),
            validation: GoalEditCheck { resolved: false, candidates, warnings, is_valid: false, has_changes: false },
        }
    }
}

} // verus!
