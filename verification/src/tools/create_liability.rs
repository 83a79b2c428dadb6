//! Create Liability: the subtype vocabulary, option table and default names
//! of the liability draft.
use vstd::prelude::*;

use std::sync::Arc;

use crate::dates::parses_as_date;
use crate::text::{opt_chars, owned, push_str, str_eq, to_lowercase, to_uppercase, trim, trimmed, unicode_lowercase, unicode_uppercase};
use crate::tools::common::{available_currencies, currency_choices, strings_view};
use crate::tools::create_account::{draft_currency, trimmed_opt, trimmed_option};
use crate::tools::create_goal::iso_date;
use crate::tools::env::AiEnvironment;

verus! {

/// One entry of the subtype dropdown.
#[derive(Debug, Clone)]
pub struct LiabilitySubtypeOption {
    pub value: String,
    pub label: String,
}

/// The option table offered next to the draft: (value, label) pairs.
pub open spec fn subtype_options_table() -> Seq<(Seq<char>, Seq<char>)> {
    seq![("mortgage"@, "Mortgage"@), ("student_loan"@, "Student loan"@), ("credit_card"@, "Credit card"@), ("personal_loan"@, "Personal loan"@), ("auto_loan"@, "Auto loan"@), ("heloc"@, "HELOC / equity line"@), ("other"@, "Other"@)]
}

/// The subtypes offered, in display order.
pub fn subtype_options() -> (r: Vec<LiabilitySubtypeOption>)
    ensures
        r@.len() == subtype_options_table().len(),
        forall|i: int| 0 <= i < r@.len() ==> (#[trigger] r@[i]).value@ == subtype_options_table()[i].0
            && r@[i].label@ == subtype_options_table()[i].1,
{
    let mut out: Vec<LiabilitySubtypeOption> = Vec::new();
    out.push(LiabilitySubtypeOption { value: owned("mortgage"), label: owned("Mortgage") });
    out.push(LiabilitySubtypeOption { value: owned("student_loan"), label: owned("Student loan") });
    out.push(LiabilitySubtypeOption { value: owned("credit_card"), label: owned("Credit card") });
    out.push(LiabilitySubtypeOption { value: owned("personal_loan"), label: owned("Personal loan") });
    out.push(LiabilitySubtypeOption { value: owned("auto_loan"), label: owned("Auto loan") });
    out.push(LiabilitySubtypeOption { value: owned("heloc"), label: owned("HELOC / equity line") });
    out.push(LiabilitySubtypeOption { value: owned("other"), label: owned("Other") });
    out
}

/// The subtype a trimmed, lower-cased free-form subtype names.
pub open spec fn subtype_for(key: Seq<char>) -> Seq<char> {
    if key == "mortgage"@ || key == "home_loan"@ || key == "home-loan"@ {
        "mortgage"@
    } else if key == "student_loan"@ || key == "student-loan"@ || key == "studentloan"@ || key == "tuition_loan"@ {
        "student_loan"@
    } else if key == "credit_card"@ || key == "credit-card"@ || key == "creditcard"@ || key == "cc"@ {
        "credit_card"@
    } else if key == "personal_loan"@ || key == "personal-loan"@ || key == "personalloan"@ || key == "loan"@ {
        "personal_loan"@
    } else if key == "auto_loan"@ || key == "auto-loan"@ || key == "car_loan"@ || key == "car-loan"@ || key == "autoloan"@ {
        "auto_loan"@
    } else if key == "heloc"@ || key == "home_equity"@ || key == "home-equity"@ || key == "equity_line"@ {
        "heloc"@
    } else {
        "other"@
    }
}

fn subtype_for_exec(key: &str) -> (r: String)
    ensures
        r@ == subtype_for(key@),
{
    if str_eq(key, "mortgage") || str_eq(key, "home_loan") || str_eq(key, "home-loan") {
        owned("mortgage")
    } else if str_eq(key, "student_loan") || str_eq(key, "student-loan") || str_eq(key, "studentloan") || str_eq(key, "tuition_loan") {
        owned("student_loan")
    } else if str_eq(key, "credit_card") || str_eq(key, "credit-card") || str_eq(key, "creditcard") || str_eq(key, "cc") {
        owned("credit_card")
    } else if str_eq(key, "personal_loan") || str_eq(key, "personal-loan") || str_eq(key, "personalloan") || str_eq(key, "loan") {
        owned("personal_loan")
    } else if str_eq(key, "auto_loan") || str_eq(key, "auto-loan") || str_eq(key, "car_loan") || str_eq(key, "car-loan") || str_eq(key, "autoloan") {
        owned("auto_loan")
    } else if str_eq(key, "heloc") || str_eq(key, "home_equity") || str_eq(key, "home-equity") || str_eq(key, "equity_line") {
        owned("heloc")
    } else {
        owned("other")
    }
}

/// Maps a free-form subtype (trimmed, lower-cased) to a canonical one; anything else is `other`.
pub fn normalize_subtype(raw: &str) -> (r: String)
    ensures
        r@ == subtype_for(unicode_lowercase(trimmed(raw@))),
{
    let t = trim(raw);
    let k = to_lowercase(t.as_str());
    subtype_for_exec(k.as_str())
}

/// The label of `subtype` in the option table, or `Liability`.
pub open spec fn default_name(subtype: Seq<char>) -> Seq<char> {
    if subtype == "mortgage"@ {
        "Mortgage"@
    } else if subtype == "student_loan"@ {
        "Student loan"@
    } else if subtype == "credit_card"@ {
        "Credit card"@
    } else if subtype == "personal_loan"@ {
        "Personal loan"@
    } else if subtype == "auto_loan"@ {
        "Auto loan"@
    } else if subtype == "heloc"@ {
        "HELOC / equity line"@
    } else if subtype == "other"@ {
        "Other"@
    } else {
        "Liability"@
    }
}

/// The display name a liability of this subtype gets when none is given.
pub fn default_name_for(subtype: &str) -> (r: String)
    ensures
        r@ == default_name(subtype@),
{
    if str_eq(subtype, "mortgage") {
        owned("Mortgage")
    } else if str_eq(subtype, "student_loan") {
        owned("Student loan")
    } else if str_eq(subtype, "credit_card") {
        owned("Credit card")
    } else if str_eq(subtype, "personal_loan") {
        owned("Personal loan")
    } else if str_eq(subtype, "auto_loan") {
        owned("Auto loan")
    } else if str_eq(subtype, "heloc") {
        owned("HELOC / equity line")
    } else if str_eq(subtype, "other") {
        owned("Other")
    } else {
        owned("Liability")
    }
}

/// Proposes a new liability; never writes.
pub struct CreateLiabilityTool<E: AiEnvironment> {
    env: Arc<E>,
}

impl<E: AiEnvironment> CreateLiabilityTool<E> {
    pub fn new(env: Arc<E>) -> (r: Self)
        ensures
            r.env() == env,
    {
        CreateLiabilityTool { env }
    }

    pub closed spec fn env(&self) -> Arc<E> {
        self.env
    }
}

/// What the assistant passes; the amounts (principal, rate, monthly
/// payment) are floating-point figures the host keeps and judges (see
/// [`LiabilityFigures`]).
pub struct CreateLiabilityArgs {
    pub liability_type: String,
    pub name: Option<String>,
    pub currency: Option<String>,
    /// YYYY-MM-DD.
    pub originated_at: Option<String>,
    pub linked_asset_id: Option<String>,
    pub notes: Option<String>,
}

/// The host's judgement of the amounts.
pub struct LiabilityFigures {
    /// The principal is above zero.
    pub principal_positive: bool,
    /// How the rate prints, when one was given outside 0–100 %.
    pub unusual_rate: Option<String>,
    /// A monthly payment was given and is zero or negative.
    pub monthly_not_positive: bool,
}

/// The liability the user is asked to confirm (amounts attached by the
/// host).
pub struct LiabilityDraft {
    /// Always "Liability".
    pub kind: String,
    pub name: String,
    pub liability_type: String,
    pub currency: String,
    pub originated_at: Option<String>,
    pub linked_asset_id: Option<String>,
    pub notes: Option<String>,
}

pub struct ValidationResult {
    pub is_valid: bool,
    pub missing_fields: Vec<String>,
    pub warnings: Vec<String>,
}

pub struct CreateLiabilityOutput {
    pub draft: LiabilityDraft,
    pub validation: ValidationResult,
    pub available_subtypes: Vec<LiabilitySubtypeOption>,
    pub available_currencies: Vec<String>,
}

/// The fields a liability draft lacks.
pub open spec fn missing_liability_fields(args: CreateLiabilityArgs, figures: LiabilityFigures) -> Seq<Seq<char>> {
    let a = if !figures.principal_positive {
        seq!["principal"@]
    } else {
        Seq::empty()
    };
    if trimmed(args.liability_type@).len() == 0 {
        a.push("liabilityType"@)
    } else {
        a
    }
}

pub open spec fn liability_warnings(args: CreateLiabilityArgs, figures: LiabilityFigures) -> Seq<Seq<char>> {
    let a = match figures.unusual_rate {
        Some(r) => seq!["Rate "@ + r@ + "% looks unusual — confirm before saving."@],
        None => Seq::empty(),
    };
    let b = if figures.monthly_not_positive {
        a.push("Monthly payment should be positive."@)
    } else {
        a
    };
    match opt_chars(args.originated_at) {
        Some(s) => if trimmed(s).len() > 0 && !iso_date(s) {
            b.push("Could not parse originated_at \""@ + s + "\" — expecting YYYY-MM-DD."@)
        } else {
            b
        },
        None => b,
    }
}

/// A non-blank optional field, as given.
pub open spec fn non_blank(o: Option<Seq<char>>) -> Option<Seq<char>> {
    match o {
        Some(s) => if trimmed(s).len() > 0 {
            Some(s)
        } else {
            None
        },
        None => None,
    }
}

pub open spec fn liability_output(r: CreateLiabilityOutput, args: CreateLiabilityArgs, figures: LiabilityFigures, base: Seq<char>) -> bool {
    let subtype = subtype_for(unicode_lowercase(trimmed(args.liability_type@)));
    &&& r.draft.kind@ == "Liability"@
    &&& r.draft.liability_type@ == subtype
    &&& r.draft.name@ == match trimmed_opt(opt_chars(args.name)) {
        Some(n) => n,
        None => default_name(subtype),
    }
    &&& r.draft.currency@ == draft_currency(opt_chars(args.currency), base)
    &&& opt_chars(r.draft.originated_at) == match opt_chars(args.originated_at) {
        Some(s) => if trimmed(s).len() > 0 && iso_date(s) {
            Some(trimmed(s))
        } else {
            None
        },
        None => None,
    }
    &&& opt_chars(r.draft.linked_asset_id) == non_blank(opt_chars(args.linked_asset_id))
    &&& opt_chars(r.draft.notes) == trimmed_opt(opt_chars(args.notes))
    &&& strings_view(r.validation.missing_fields@) == missing_liability_fields(args, figures)
    &&& r.validation.is_valid == (r.validation.missing_fields@.len() == 0)
    &&& strings_view(r.validation.warnings@) == liability_warnings(args, figures)
    &&& r.available_subtypes@.len() == subtype_options_table().len()
    &&& forall|i: int| 0 <= i < r.available_subtypes@.len() ==> (#[trigger] r.available_subtypes@[i]).value@
        == subtype_options_table()[i].0 && r.available_subtypes@[i].label@ == subtype_options_table()[i].1
    &&& strings_view(r.available_currencies@) == currency_choices(base, Some(r.draft.currency@))
}

/// Builds the liability draft for `args` against the base currency.
pub fn draft_liability(args: CreateLiabilityArgs, figures: LiabilityFigures, base_currency: &str) -> (r: CreateLiabilityOutput)
    ensures
        liability_output(r, args, figures, base_currency@),
{
    let liability_type = normalize_subtype(args.liability_type.as_str());
    let name = match trimmed_option(&args.name) {
        Some(n) => n,
        None => default_name_for(liability_type.as_str()),
    };
    let currency = match &args.currency {
        Some(c) => {
            let t = trim(c.as_str());
            if t.as_str().is_empty() {
                owned(base_currency)
            } else {
                to_uppercase(t.as_str())
            }
        },
        None => owned(base_currency),
    };
    let mut missing_fields: Vec<String> = Vec::new();
    if !figures.principal_positive {
        missing_fields.push(owned("principal"));
    }
    let raw = trim(args.liability_type.as_str());
    if raw.as_str().is_empty() {
        missing_fields.push(owned("liabilityType"));
    }
    proof {
        reveal_strlit("principal");
        reveal_strlit("liabilityType");
        assert(strings_view(missing_fields@) =~= missing_liability_fields(args, figures));
    }
    let mut warnings: Vec<String> = Vec::new();
    match &figures.unusual_rate {
        Some(rate) => {
            let mut w = owned("Rate ");
            push_str(&mut w, rate.as_str());
            push_str(&mut w, "% looks unusual — confirm before saving.");
            warnings.push(w);
        },
        None => {},
    }
    let ghost w1 = strings_view(warnings@);
    if figures.monthly_not_positive {
        warnings.push(owned("Monthly payment should be positive."));
        assert(strings_view(warnings@) =~= w1.push("Monthly payment should be positive."@));
    }
    let ghost w2 = strings_view(warnings@);
    let originated_at = match &args.originated_at {
        Some(s) => {
            let t = trim(s.as_str());
            if t.as_str().is_empty() {
                None
            } else if parses_as_date(t.as_str(), "%Y-%m-%d") {
                Some(t)
            } else {
                let mut w = owned("Could not parse originated_at \"");
                push_str(&mut w, s.as_str());
                push_str(&mut w, "\" — expecting YYYY-MM-DD.");
                let ghost wv = w@;
                warnings.push(w);
                assert(strings_view(warnings@) =~= w2.push(wv));
                None
            }
        },
        None => None,
    };
    assert(strings_view(warnings@) =~= liability_warnings(args, figures));
    let linked_asset_id = match &args.linked_asset_id {
        Some(s) => {
            let t = trim(s.as_str());
            if t.as_str().is_empty() {
                None
            } else {
                Some(owned(s.as_str()))
            }
        },
        None => None,
    };
    let available = available_currencies(base_currency, Some(currency.as_str()));
    let is_valid = missing_fields.len() == 0;
    CreateLiabilityOutput {
        draft: LiabilityDraft {
            kind: owned("Liability"),
            name,
            liability_type,
            currency,
            originated_at,
            linked_asset_id,
            notes: trimmed_option(&args.notes),
        },
        validation: ValidationResult { is_valid, missing_fields, warnings },
        available_subtypes: subtype_options(),
        available_currencies: available,
    }
}

impl<E: AiEnvironment> CreateLiabilityTool<E> {
    /// The draft for `args` against the environment's base currency.
    pub fn build_output(&self, args: CreateLiabilityArgs, figures: LiabilityFigures) -> (r: CreateLiabilityOutput)
        ensures
            exists|base: Seq<char>| liability_output(r, args, figures, base),
    {
        let base = self.env.base_currency();
        let r = draft_liability(args, figures, base.as_str());
        assert(liability_output(r, args, figures, base@));
        r
    }
}

} // verus!
