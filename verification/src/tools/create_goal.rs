//! Create Goal: the goal-type vocabulary and option table of the draft.
use vstd::prelude::*;

use std::sync::Arc;

use crate::accounts::copy_opt;
use crate::dates::{date_parses, parses_as_date};
use crate::text::{opt_chars, owned, push_str, str_eq, to_lowercase, to_uppercase, trim, trimmed, unicode_lowercase, unicode_uppercase};
use crate::tools::common::{available_currencies, currency_choices, strings_view};
use crate::tools::create_account::{draft_currency, trimmed_opt};
use crate::tools::env::AiEnvironment;

verus! {

/// One entry of the goal-type dropdown.
#[derive(Debug, Clone)]
pub struct GoalTypeOption {
    pub value: String,
    pub label: String,
}

/// The option table offered next to the draft: (value, label) pairs.
pub open spec fn goal_type_options_table() -> Seq<(Seq<char>, Seq<char>)> {
    seq![("retirement"@, "Retirement"@), ("home"@, "Home / down-payment"@), ("education"@, "Education"@), ("wedding"@, "Wedding"@), ("emergency_fund"@, "Emergency fund"@), ("custom_save_up"@, "Custom save-up"@)]
}

/// The goal types offered, in display order.
pub fn goal_type_options() -> (r: Vec<GoalTypeOption>)
    ensures
        r@.len() == goal_type_options_table().len(),
        forall|i: int| 0 <= i < r@.len() ==> (#[trigger] r@[i]).value@ == goal_type_options_table()[i].0
            && r@[i].label@ == goal_type_options_table()[i].1,
{
    let mut out: Vec<GoalTypeOption> = Vec::new();
    out.push(GoalTypeOption { value: owned("retirement"), label: owned("Retirement") });
    out.push(GoalTypeOption { value: owned("home"), label: owned("Home / down-payment") });
    out.push(GoalTypeOption { value: owned("education"), label: owned("Education") });
    out.push(GoalTypeOption { value: owned("wedding"), label: owned("Wedding") });
    out.push(GoalTypeOption { value: owned("emergency_fund"), label: owned("Emergency fund") });
    out.push(GoalTypeOption { value: owned("custom_save_up"), label: owned("Custom save-up") });
    out
}

/// The goal type a trimmed, lower-cased free-form type names.
pub open spec fn goal_type_for(key: Seq<char>) -> Seq<char> {
    if key == "retirement"@ || key == "retire"@ || key == "pension"@ || key == "fire"@ {
        "retirement"@
    } else if key == "home"@ || key == "house"@ || key == "down_payment"@ || key == "down-payment"@ || key == "downpayment"@ || key == "property"@ {
        "home"@
    } else if key == "education"@ || key == "school"@ || key == "college"@ || key == "university"@ || key == "tuition"@ {
        "education"@
    } else if key == "wedding"@ || key == "marriage"@ || key == "nikah"@ {
        "wedding"@
    } else if key == "emergency_fund"@ || key == "emergency"@ || key == "rainy_day"@ || key == "rainy-day"@ || key == "safety_net"@ {
        "emergency_fund"@
    } else {
        "custom_save_up"@
    }
}

fn goal_type_for_exec(key: &str) -> (r: String)
    ensures
        r@ == goal_type_for(key@),
{
    if str_eq(key, "retirement") || str_eq(key, "retire") || str_eq(key, "pension") || str_eq(key, "fire") {
        owned("retirement")
    } else if str_eq(key, "home") || str_eq(key, "house") || str_eq(key, "down_payment") || str_eq(key, "down-payment") || str_eq(key, "downpayment") || str_eq(key, "property") {
        owned("home")
    } else if str_eq(key, "education") || str_eq(key, "school") || str_eq(key, "college") || str_eq(key, "university") || str_eq(key, "tuition") {
        owned("education")
    } else if str_eq(key, "wedding") || str_eq(key, "marriage") || str_eq(key, "nikah") {
        owned("wedding")
    } else if str_eq(key, "emergency_fund") || str_eq(key, "emergency") || str_eq(key, "rainy_day") || str_eq(key, "rainy-day") || str_eq(key, "safety_net") {
        owned("emergency_fund")
    } else {
        owned("custom_save_up")
    }
}

/// Maps a free-form goal type (trimmed, lower-cased) to a canonical one; anything else (hajj, car, vacation, ...) is `custom_save_up`.
pub fn normalize_goal_type(raw: &str) -> (r: String)
    ensures
        r@ == goal_type_for(unicode_lowercase(trimmed(raw@))),
{
    let t = trim(raw);
    let k = to_lowercase(t.as_str());
    goal_type_for_exec(k.as_str())
}

/// An existing goal surfaced next to the draft.
#[derive(Debug, Clone)]
pub struct ExistingGoal {
    pub id: String,
    pub title: String,
    pub goal_type: String,
}

/// Proposes a new savings goal; never writes.
pub struct CreateGoalTool<E: AiEnvironment> {
    env: Arc<E>,
}

impl<E: AiEnvironment> CreateGoalTool<E> {
    pub fn new(env: Arc<E>) -> (r: Self)
        ensures
            r.env() == env,
    {
        CreateGoalTool { env }
    }

    pub closed spec fn env(&self) -> Arc<E> {
        self.env
    }
}

impl ExistingGoal {
    /// A field-for-field copy.
    pub fn duplicate(&self) -> (r: ExistingGoal)
        ensures
            r.id@ == self.id@ && r.title@ == self.title@ && r.goal_type@ == self.goal_type@,
    {
        ExistingGoal { id: owned(self.id.as_str()), title: owned(self.title.as_str()), goal_type: owned(self.goal_type.as_str()) }
    }
}

/// What the assistant passes (the target amount, a floating-point figure,
/// stays with the host; only whether one was given is read here).
pub struct CreateGoalArgs {
    pub title: String,
    /// Free-form goal type; common synonyms are normalised.
    pub goal_type: String,
    pub currency: Option<String>,
    /// YYYY-MM-DD.
    pub target_date: Option<String>,
    /// YYYY-MM-DD.
    pub start_date: Option<String>,
    pub description: Option<String>,
    /// 1 (highest) to 3.
    pub priority: Option<i32>,
}

/// The goal the user is asked to confirm.
pub struct GoalDraft {
    pub title: String,
    pub goal_type: String,
    pub currency: String,
    pub target_date: Option<String>,
    pub start_date: Option<String>,
    pub description: Option<String>,
    pub priority: i32,
}

pub struct ValidationResult {
    pub is_valid: bool,
    pub missing_fields: Vec<String>,
    pub warnings: Vec<String>,
}

pub struct CreateGoalOutput {
    pub draft: GoalDraft,
    pub validation: ValidationResult,
    pub available_types: Vec<GoalTypeOption>,
    pub available_currencies: Vec<String>,
    /// The user's goals, so the card can surface duplicates by title.
    pub existing_goals: Vec<ExistingGoal>,
}

/// A date field as given, trimmed, when chrono reads it as YYYY-MM-DD.
pub open spec fn iso_date(s: Seq<char>) -> bool {
    date_parses(trimmed(s), "%Y-%m-%d"@)
}

/// A date field is kept when it is non-blank and reads as a date.
pub open spec fn kept_date(d: Option<Seq<char>>) -> Option<Seq<char>> {
    match d {
        Some(s) => if trimmed(s).len() > 0 && iso_date(s) {
            Some(trimmed(s))
        } else {
            None
        },
        None => None,
    }
}

/// The date field is non-blank but does not read as a date.
pub open spec fn bad_date(d: Option<Seq<char>>) -> bool {
    match d {
        Some(s) => trimmed(s).len() > 0 && !iso_date(s),
        None => false,
    }
}

pub open spec fn clamp_priority(p: Option<i32>) -> i32 {
    let v = match p {
        Some(v) => v,
        None => 2,
    };
    if v < 1 {
        1
    } else if v > 3 {
        3
    } else {
        v
    }
}

/// The fields a goal draft lacks.
pub open spec fn missing_goal_fields(args: CreateGoalArgs) -> Seq<Seq<char>> {
    let a = if trimmed(args.title@).len() == 0 {
        seq!["title"@]
    } else {
        Seq::empty()
    };
    let b = if trimmed(args.goal_type@).len() == 0 {
        a.push("goalType"@)
    } else {
        a
    };
    if bad_date(opt_chars(args.target_date)) {
        b.push("targetDate"@)
    } else {
        b
    }
}

/// Some existing goal carries this title, compared lower-cased.
pub open spec fn title_taken(existing: Seq<ExistingGoal>, title: Seq<char>) -> bool {
    exists|i: int| 0 <= i < existing.len() && unicode_lowercase((#[trigger] existing[i]).title@) == unicode_lowercase(title)
}

pub open spec fn goal_warnings(args: CreateGoalArgs, has_target_amount: bool, existing: Seq<ExistingGoal>) -> Seq<Seq<char>> {
    let title = trimmed(args.title@);
    let a = if unicode_lowercase(title).len() > 0 && title_taken(existing, title) {
        seq!["You already have a goal titled \""@ + title + "\". Consider editing it instead."@]
    } else {
        Seq::empty()
    };
    if goal_type_for(unicode_lowercase(trimmed(args.goal_type@))) == "retirement"@ && !has_target_amount {
        a.push("Retirement goals work best with a target amount. Most users plan to ~25× annual expenses."@)
    } else {
        a
    }
}

/// The draft for `args` against the base currency and the user's goals.
pub open spec fn goal_draft_output(r: CreateGoalOutput, args: CreateGoalArgs, has_target_amount: bool, base: Seq<char>, existing: Seq<ExistingGoal>) -> bool {
    &&& r.draft.title@ == trimmed(args.title@)
    &&& r.draft.goal_type@ == goal_type_for(unicode_lowercase(trimmed(args.goal_type@)))
    &&& r.draft.currency@ == draft_currency(opt_chars(args.currency), base)
    &&& opt_chars(r.draft.target_date) == kept_date(opt_chars(args.target_date))
    &&& opt_chars(r.draft.start_date) == kept_date(opt_chars(args.start_date))
    &&& opt_chars(r.draft.description) == trimmed_opt(opt_chars(args.description))
    &&& r.draft.priority == clamp_priority(args.priority)
    &&& strings_view(r.validation.missing_fields@) == missing_goal_fields(args)
    &&& r.validation.is_valid == (r.validation.missing_fields@.len() == 0)
    &&& strings_view(r.validation.warnings@) == goal_warnings(args, has_target_amount, existing)
    &&& r.available_types@.len() == goal_type_options_table().len()
    &&& forall|i: int| 0 <= i < r.available_types@.len() ==> (#[trigger] r.available_types@[i]).value@
        == goal_type_options_table()[i].0 && r.available_types@[i].label@ == goal_type_options_table()[i].1
    &&& strings_view(r.available_currencies@) == currency_choices(base, Some(r.draft.currency@))
    &&& r.existing_goals@.len() == existing.len()
    &&& forall|i: int| 0 <= i < existing.len() ==> (#[trigger] r.existing_goals@[i]).id@ == existing[i].id@
        && r.existing_goals@[i].title@ == existing[i].title@ && r.existing_goals@[i].goal_type@ == existing[i].goal_type@
}

fn kept_date_exec(d: &Option<String>) -> (r: (Option<String>, bool))
    ensures
        opt_chars(r.0) == kept_date(opt_chars(*d)),
        r.1 == bad_date(opt_chars(*d)),
{
    match d {
        Some(s) => {
            let t = trim(s.as_str());
            if t.as_str().is_empty() {
                (None, false)
            } else if parses_as_date(t.as_str(), "%Y-%m-%d") {
                (Some(t), false)
            } else {
                (None, true)
            }
        },
        None => (None, false),
    }
}

fn title_is_taken(existing: &Vec<ExistingGoal>, title: &str) -> (r: bool)
    ensures
        r == title_taken(existing@, title@),
{
    let lower = to_lowercase(title);
    let mut i: usize = 0;
    while i < existing.len()
        invariant
            i <= existing.len(),
            lower@ == unicode_lowercase(title@),
            forall|k: int| 0 <= k < i ==> unicode_lowercase((#[trigger] existing@[k]).title@) != lower@,
        decreases existing.len() - i,
    {
        let l = to_lowercase(existing[i].title.as_str());
        if str_eq(l.as_str(), lower.as_str()) {
            return true;
        }
        i = i + 1;
    }
    false
}

impl<E: AiEnvironment> CreateGoalTool<E> {
    /// The draft for `args` against the environment's base currency and the
    /// user's goals; `has_target_amount` says whether an amount was given.
    pub fn build_output(&self, args: CreateGoalArgs, has_target_amount: bool, existing: &Vec<ExistingGoal>) -> (r: CreateGoalOutput)
        ensures
            exists|base: Seq<char>| goal_draft_output(r, args, has_target_amount, base, existing@),
    {
        let base = self.env.base_currency();
        let r = draft_goal(args, has_target_amount, base.as_str(), existing);
        assert(goal_draft_output(r, args, has_target_amount, base@, existing@));
        r
    }
}

/// Builds the goal draft for `args` against the base currency and the
/// user's existing goals.
pub fn draft_goal(args: CreateGoalArgs, has_target_amount: bool, base_currency: &str, existing: &Vec<ExistingGoal>) -> (r: CreateGoalOutput)
    ensures
        goal_draft_output(r, args, has_target_amount, base_currency@, existing@),
{
    let title = trim(args.title.as_str());
    let goal_type = normalize_goal_type(args.goal_type.as_str());
    let currency = match &args.currency {
        Some(c) => {
            let t = trim(c.as_str());
            if t.as_str().is_empty() {
                owned(base_currency)
            } else {
                to_uppercase(t.as_str())
            }
        },
        None => owned(base_currency),
    };
    let mut missing_fields: Vec<String> = Vec::new();
    if title.as_str().is_empty() {
        missing_fields.push(owned("title"));
    }
    let raw_type = trim(args.goal_type.as_str());
    if raw_type.as_str().is_empty() {
        missing_fields.push(owned("goalType"));
    }
    let (target_date, target_bad) = kept_date_exec(&args.target_date);
    if target_bad {
        missing_fields.push(owned("targetDate"));
    }
    proof {
        reveal_strlit("title");
        reveal_strlit("goalType");
        reveal_strlit("targetDate");
        assert(strings_view(missing_fields@) =~= missing_goal_fields(args));
    }
    let (start_date, _) = kept_date_exec(&args.start_date);
    let p: i32 = match args.priority {
        Some(v) => v,
        None => 2,
    };
    let priority: i32 = if p < 1 {
        1
    } else if p > 3 {
        3
    } else {
        p
    };
    let mut warnings: Vec<String> = Vec::new();
    let lower = to_lowercase(title.as_str());
    if !lower.as_str().is_empty() && title_is_taken(existing, title.as_str()) {
        let mut w = owned("You already have a goal titled \"");
        push_str(&mut w, title.as_str());
        push_str(&mut w, "\". Consider editing it instead.");
        warnings.push(w);
    }
    let ghost w1 = strings_view(warnings@);
    if str_eq(goal_type.as_str(), "retirement") && !has_target_amount {
        warnings.push(owned("Retirement goals work best with a target amount. Most users plan to ~25× annual expenses."));
        assert(strings_view(warnings@) =~= w1.push("Retirement goals work best with a target amount. Most users plan to ~25× annual expenses."@));
    }
    assert(strings_view(warnings@) =~= goal_warnings(args, has_target_amount, existing@));
    let mut existing_goals: Vec<ExistingGoal> = Vec::new();
    let mut i: usize = 0;
    while i < existing.len()
        invariant
            i <= existing.len(),
            existing_goals@.len() == i,
            forall|k: int| 0 <= k < i ==> (#[trigger] existing_goals@[k]).id@ == existing@[k].id@ && existing_goals@[k].title@
                == existing@[k].title@ && existing_goals@[k].goal_type@ == existing@[k].goal_type@,
        decreases existing.len() - i,
    {
        existing_goals.push(existing[i].duplicate());
        i = i + 1;
    }
    let available = available_currencies(base_currency, Some(currency.as_str()));
    let is_valid = missing_fields.len() == 0;
    CreateGoalOutput {
        draft: GoalDraft {
            title,
            goal_type,
            currency,
            target_date,
            start_date,
            description: crate::tools::create_account::trimmed_option(&args.description),
            priority,
        },
        validation: ValidationResult { is_valid, missing_fields, warnings },
        available_types: goal_type_options(),
        available_currencies: available,
        existing_goals,
    }
}

/// Every goal type on offer normalises to itself, and whatever is typed
/// normalises to one of the goal types on offer.
pub proof fn lemma_goal_types_canonical(key: Seq<char>)
    ensures
        forall|i: int| 0 <= i < goal_type_options_table().len() ==> goal_type_for(
            #[trigger] goal_type_options_table()[i].0,
        ) == goal_type_options_table()[i].0,
        exists|i: int| 0 <= i < goal_type_options_table().len() && goal_type_for(key) == (
        #[trigger] goal_type_options_table()[i]).0,
{
    reveal_strlit("Custom save-up");
    reveal_strlit("Education");
    reveal_strlit("Emergency fund");
    reveal_strlit("Home / down-payment");
    reveal_strlit("Retirement");
    reveal_strlit("Wedding");
    reveal_strlit("college");
    reveal_strlit("custom_save_up");
    reveal_strlit("down-payment");
    reveal_strlit("down_payment");
    reveal_strlit("downpayment");
    reveal_strlit("education");
    reveal_strlit("emergency");
    reveal_strlit("emergency_fund");
    reveal_strlit("fire");
    reveal_strlit("home");
    reveal_strlit("house");
    reveal_strlit("marriage");
    reveal_strlit("nikah");
    reveal_strlit("pension");
    reveal_strlit("property");
    reveal_strlit("rainy-day");
    reveal_strlit("rainy_day");
    reveal_strlit("retire");
    reveal_strlit("retirement");
    reveal_strlit("safety_net");
    reveal_strlit("school");
    reveal_strlit("tuition");
    reveal_strlit("university");
    reveal_strlit("wedding");
    assert("custom_save_up"@[0] != "emergency_fund"@[0]);
    assert("education"@[0] != "rainy-day"@[0]);
    assert("education"@[0] != "rainy_day"@[0]);
    assert("education"@[1] != "emergency"@[1]);
    assert("emergency_fund"@[0] != "custom_save_up"@[0]);
    assert("home"@[0] != "fire"@[0]);
    assert("retirement"@[0] != "safety_net"@[0]);
    assert("retirement"@[0] != "university"@[0]);
    assert("wedding"@[0] != "college"@[0]);
    assert("wedding"@[0] != "pension"@[0]);
    assert("wedding"@[0] != "tuition"@[0]);
    let t = goal_type_options_table();
    assert(goal_type_for(t[0].0) == t[0].0);
    assert(goal_type_for(t[1].0) == t[1].0);
    assert(goal_type_for(t[2].0) == t[2].0);
    assert(goal_type_for(t[3].0) == t[3].0);
    assert(goal_type_for(t[4].0) == t[4].0);
    assert(goal_type_for(t[5].0) == t[5].0);
    let g = goal_type_for(key);
    if g == t[0].0 {
    } else if g == t[1].0 {
    } else if g == t[2].0 {
    } else if g == t[3].0 {
    } else if g == t[4].0 {
    } else {
        assert(g == t[5].0);
    }
}

} // verus!
