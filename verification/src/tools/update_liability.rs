//! Update Liability: the subtype vocabulary of a liability edit. Unlike
//! creation, an unrecognised subtype is dropped rather than mapped to `other`.
use vstd::prelude::*;

use std::sync::Arc;

use crate::dates::parses_as_date;
use crate::text::{owned, push_str, str_eq, to_lowercase, to_uppercase, trim, trimmed, unicode_lowercase, unicode_uppercase};
use crate::tools::common::strings_view;
use crate::text::opt_chars;
use crate::tools::create_goal::iso_date;
use crate::tools::env::AiEnvironment;

verus! {

/// One entry of the subtype dropdown.
#[derive(Debug, Clone)]
pub struct LiabilitySubtypeOption {
    pub value: String,
    pub label: String,
}

/// The option table offered next to the draft: (value, label) pairs.
pub open spec fn subtype_options_table() -> Seq<(Seq<char>, Seq<char>)> {
    seq![("mortgage"@, "Mortgage"@), ("student_loan"@, "Student loan"@), ("credit_card"@, "Credit card"@), ("personal_loan"@, "Personal loan"@), ("auto_loan"@, "Auto loan"@), ("heloc"@, "HELOC / equity line"@), ("other"@, "Other"@)]
}

/// The subtypes offered, in display order.
pub fn subtype_options() -> (r: Vec<LiabilitySubtypeOption>)
    ensures
        r@.len() == subtype_options_table().len(),
        forall|i: int| 0 <= i < r@.len() ==> (#[trigger] r@[i]).value@ == subtype_options_table()[i].0
            && r@[i].label@ == subtype_options_table()[i].1,
{
    let mut out: Vec<LiabilitySubtypeOption> = Vec::new();
    out.push(LiabilitySubtypeOption { value: owned("mortgage"), label: owned("Mortgage") });
    out.push(LiabilitySubtypeOption { value: owned("student_loan"), label: owned("Student loan") });
    out.push(LiabilitySubtypeOption { value: owned("credit_card"), label: owned("Credit card") });
    out.push(LiabilitySubtypeOption { value: owned("personal_loan"), label: owned("Personal loan") });
    out.push(LiabilitySubtypeOption { value: owned("auto_loan"), label: owned("Auto loan") });
    out.push(LiabilitySubtypeOption { value: owned("heloc"), label: owned("HELOC / equity line") });
    out.push(LiabilitySubtypeOption { value: owned("other"), label: owned("Other") });
    out
}

/// The subtype a trimmed, lower-cased free-form subtype names, if any.
pub open spec fn subtype_for(key: Seq<char>) -> Option<Seq<char>> {
    if key == "mortgage"@ || key == "home_loan"@ || key == "home-loan"@ {
        Some("mortgage"@)
    } else if key == "student_loan"@ || key == "student-loan"@ || key == "studentloan"@ || key == "tuition_loan"@ {
        Some("student_loan"@)
    } else if key == "credit_card"@ || key == "credit-card"@ || key == "creditcard"@ || key == "cc"@ {
        Some("credit_card"@)
    } else if key == "personal_loan"@ || key == "personal-loan"@ || key == "personalloan"@ || key == "loan"@ {
        Some("personal_loan"@)
    } else if key == "auto_loan"@ || key == "auto-loan"@ || key == "car_loan"@ || key == "car-loan"@ || key == "autoloan"@ {
        Some("auto_loan"@)
    } else if key == "heloc"@ || key == "home_equity"@ || key == "home-equity"@ || key == "equity_line"@ {
        Some("heloc"@)
    } else if key == "other"@ {
        Some("other"@)
    } else {
        None
    }
}

fn subtype_for_exec(key: &str) -> (r: Option<String>)
    ensures
        match r {
            Some(v) => subtype_for(key@) == Some(v@),
            None => subtype_for(key@) is None,
        },
{
    if str_eq(key, "mortgage") || str_eq(key, "home_loan") || str_eq(key, "home-loan") {
        Some(owned("mortgage"))
    } else if str_eq(key, "student_loan") || str_eq(key, "student-loan") || str_eq(key, "studentloan") || str_eq(key, "tuition_loan") {
        Some(owned("student_loan"))
    } else if str_eq(key, "credit_card") || str_eq(key, "credit-card") || str_eq(key, "creditcard") || str_eq(key, "cc") {
        Some(owned("credit_card"))
    } else if str_eq(key, "personal_loan") || str_eq(key, "personal-loan") || str_eq(key, "personalloan") || str_eq(key, "loan") {
        Some(owned("personal_loan"))
    } else if str_eq(key, "auto_loan") || str_eq(key, "auto-loan") || str_eq(key, "car_loan") || str_eq(key, "car-loan") || str_eq(key, "autoloan") {
        Some(owned("auto_loan"))
    } else if str_eq(key, "heloc") || str_eq(key, "home_equity") || str_eq(key, "home-equity") || str_eq(key, "equity_line") {
        Some(owned("heloc"))
    } else if str_eq(key, "other") {
        Some(owned("other"))
    } else {
        None
    }
}

/// The canonical subtype a free-form one (trimmed, lower-cased) names, or `None` when unrecognised.
pub fn normalize_subtype(raw: &str) -> (r: Option<String>)
    ensures
        match r {
            Some(v) => subtype_for(unicode_lowercase(trimmed(raw@))) == Some(v@),
            None => subtype_for(unicode_lowercase(trimmed(raw@))) is None,
        },
{
    let t = trim(raw);
    let k = to_lowercase(t.as_str());
    subtype_for_exec(k.as_str())
}

/// Proposes an edit of an existing liability; never writes.
pub struct UpdateLiabilityTool<E: AiEnvironment> {
    env: Arc<E>,
}

impl<E: AiEnvironment> UpdateLiabilityTool<E> {
    pub fn new(env: Arc<E>) -> (r: Self)
        ensures
            r.env() == env,
    {
        UpdateLiabilityTool { env }
    }

    pub closed spec fn env(&self) -> Arc<E> {
        self.env
    }
}

/// What the assistant asks to change; the amounts (principal, rate,
/// monthly payment) are floating-point figures the host keeps and judges
/// (see [`LiabilityEditFigures`]).
pub struct UpdateLiabilityArgs {
    pub asset_id: String,
    /// A new name; blank asks to clear it.
    pub name: Option<String>,
    /// YYYY-MM-DD.
    pub originated_at: Option<String>,
    pub liability_type: Option<String>,
    pub notes: Option<String>,
}

/// The host's judgement of the requested amounts.
pub struct LiabilityEditFigures {
    /// At least one of principal, rate and monthly payment was given.
    pub any_given: bool,
    /// How the rate prints, when one was given outside 0–100 %.
    pub unusual_rate: Option<String>,
    /// A monthly payment below zero was given.
    pub monthly_negative: bool,
    /// A principal below zero was given.
    pub principal_negative: bool,
}

/// The edit the user is asked to confirm (amounts attached by the host).
pub struct LiabilityUpdateDraft {
    pub asset_id: String,
    pub name: Option<String>,
    pub originated_at: Option<String>,
    pub liability_type: Option<String>,
    pub notes: Option<String>,
}

pub struct ValidationResult {
    pub is_valid: bool,
    pub missing_fields: Vec<String>,
    pub warnings: Vec<String>,
    pub has_changes: bool,
}

pub struct UpdateLiabilityOutput {
    pub draft: LiabilityUpdateDraft,
    pub validation: ValidationResult,
    pub available_subtypes: Vec<LiabilitySubtypeOption>,
}

pub open spec fn trimmed_some(o: Option<Seq<char>>) -> Option<Seq<char>> {
    match o {
        Some(s) => Some(trimmed(s)),
        None => None,
    }
}

pub open spec fn edited_type(o: Option<Seq<char>>) -> Option<Seq<char>> {
    match o {
        Some(s) => if trimmed(s).len() == 0 {
            None
        } else {
            subtype_for(unicode_lowercase(trimmed(s)))
        },
        None => None,
    }
}

pub open spec fn edited_date(o: Option<Seq<char>>) -> Option<Seq<char>> {
    match o {
        Some(s) => if trimmed(s).len() == 0 {
            None
        } else if iso_date(s) {
            Some(trimmed(s))
        } else {
            None
        },
        None => None,
    }
}

pub open spec fn edit_warnings(args: UpdateLiabilityArgs, f: LiabilityEditFigures) -> Seq<Seq<char>> {
    let a = match opt_chars(args.liability_type) {
        Some(s) => if trimmed(s).len() > 0 && subtype_for(unicode_lowercase(trimmed(s))) is None {
            seq!["Unknown liability type \""@ + s + "\" — ignoring."@]
        } else {
            Seq::empty()
        },
        None => Seq::empty(),
    };
    let b = match f.unusual_rate {
        Some(r) => a.push("Rate "@ + r@ + "% looks unusual — confirm before saving."@),
        None => a,
    };
    let c = if f.monthly_negative {
        b.push("Monthly payment should be non-negative."@)
    } else {
        b
    };
    let d = if f.principal_negative {
        c.push("Principal should be non-negative."@)
    } else {
        c
    };
    match opt_chars(args.originated_at) {
        Some(s) => if trimmed(s).len() > 0 && !iso_date(s) {
            d.push("Could not parse originatedAt \""@ + s + "\" — expecting YYYY-MM-DD."@)
        } else {
            d
        },
        None => d,
    }
}

pub open spec fn edit_has_changes(args: UpdateLiabilityArgs, f: LiabilityEditFigures) -> bool {
    args.name is Some || f.any_given || edited_date(opt_chars(args.originated_at)) is Some || edited_type(
        opt_chars(args.liability_type),
    ) is Some || args.notes is Some
}

pub open spec fn liability_edit(r: UpdateLiabilityOutput, args: UpdateLiabilityArgs, f: LiabilityEditFigures) -> bool {
    let missing = trimmed(args.asset_id@).len() == 0;
    let changes = edit_has_changes(args, f);
    &&& r.draft.asset_id@ == trimmed(args.asset_id@)
    &&& opt_chars(r.draft.name) == trimmed_some(opt_chars(args.name))
    &&& opt_chars(r.draft.originated_at) == edited_date(opt_chars(args.originated_at))
    &&& opt_chars(r.draft.liability_type) == edited_type(opt_chars(args.liability_type))
    &&& opt_chars(r.draft.notes) == trimmed_some(opt_chars(args.notes))
    &&& strings_view(r.validation.missing_fields@) == if missing {
        seq!["assetId"@]
    } else {
        Seq::empty()
    }
    &&& strings_view(r.validation.warnings@) == edit_warnings(args, f) + if !changes && !missing {
        seq!["No fields changed — pass at least one field to update."@]
    } else {
        Seq::empty()
    }
    &&& r.validation.has_changes == changes
    &&& r.validation.is_valid == (!missing && changes)
    &&& r.available_subtypes@.len() == subtype_options_table().len()
    &&& forall|i: int| 0 <= i < r.available_subtypes@.len() ==> (#[trigger] r.available_subtypes@[i]).value@
        == subtype_options_table()[i].0 && r.available_subtypes@[i].label@ == subtype_options_table()[i].1
}

fn trim_some(o: &Option<String>) -> (r: Option<String>)
    ensures
        opt_chars(r) == trimmed_some(opt_chars(*o)),
{
    match o {
        Some(s) => Some(trim(s.as_str())),
        None => None,
    }
}

impl<E: AiEnvironment> UpdateLiabilityTool<E> {
    /// The edit `args` describes; `figures` is the host's judgement of the
    /// requested amounts.
    pub fn build_output(&self, args: UpdateLiabilityArgs, figures: LiabilityEditFigures) -> (r: UpdateLiabilityOutput)
        ensures
            liability_edit(r, args, figures),
    {
        let mut missing_fields: Vec<String> = Vec::new();
        let mut warnings: Vec<String> = Vec::new();
        let asset_id = trim(args.asset_id.as_str());
        let missing = asset_id.as_str().is_empty();
        if missing {
            missing_fields.push(owned("assetId"));
        }
        proof {
            reveal_strlit("assetId");
            assert(strings_view(missing_fields@) =~= if missing {
                seq!["assetId"@]
            } else {
                Seq::empty()
            });
        }
        let name = trim_some(&args.name);
        let liability_type = match &args.liability_type {
            Some(s) => {
                let t = trim(s.as_str());
                if t.as_str().is_empty() {
                    None
                } else {
                    match normalize_subtype(s.as_str()) {
                        Some(v) => Some(v),
                        None => {
                            let mut w = owned("Unknown liability type \"");
                            push_str(&mut w, s.as_str());
                            push_str(&mut w, "\" — ignoring.");
                            warnings.push(w);
                            None
                        },
                    }
                }
            },
            None => None,
        };
        let ghost w1 = strings_view(warnings@);
        match &figures.unusual_rate {
            Some(rate) => {
                let mut w = owned("Rate ");
                push_str(&mut w, rate.as_str());
                push_str(&mut w, "% looks unusual — confirm before saving.");
                let ghost wv = w@;
                warnings.push(w);
                assert(strings_view(warnings@) =~= w1.push(wv));
            },
            None => {},
        }
        let ghost w2 = strings_view(warnings@);
        if figures.monthly_negative {
            warnings.push(owned("Monthly payment should be non-negative."));
            assert(strings_view(warnings@) =~= w2.push("Monthly payment should be non-negative."@));
        }
        let ghost w3 = strings_view(warnings@);
        if figures.principal_negative {
            warnings.push(owned("Principal should be non-negative."));
            assert(strings_view(warnings@) =~= w3.push("Principal should be non-negative."@));
        }
        let ghost w4 = strings_view(warnings@);
        let originated_at = match &args.originated_at {
            Some(s) => {
                let t = trim(s.as_str());
                if t.as_str().is_empty() {
                    None
                } else if parses_as_date(t.as_str(), "%Y-%m-%d") {
                    Some(t)
                } else {
                    let mut w = owned("Could not parse originatedAt \"");
                    push_str(&mut w, s.as_str());
                    push_str(&mut w, "\" — expecting YYYY-MM-DD.");
                    let ghost wv = w@;
                    warnings.push(w);
                    assert(strings_view(warnings@) =~= w4.push(wv));
                    None
                }
            },
            None => None,
        };
        assert(strings_view(warnings@) =~= edit_warnings(args, figures));
        let notes = trim_some(&args.notes);
        let has_changes = name.is_some() || figures.any_given || originated_at.is_some() || liability_type.is_some()
            || notes.is_some();
        let ghost w5 = strings_view(warnings@);
        if !has_changes && !missing {
            warnings.push(owned("No fields changed — pass at least one field to update."));
            assert(strings_view(warnings@) =~= w5 + seq!["No fields changed — pass at least one field to update."@]);
        } else {
            assert(strings_view(warnings@) =~= w5 + Seq::<Seq<char>>::empty());
        }
        UpdateLiabilityOutput {
            draft: LiabilityUpdateDraft { asset_id, name, originated_at, liability_type, notes },
            validation: ValidationResult { is_valid: !missing && has_changes, missing_fields, warnings, has_changes },
            available_subtypes: subtype_options(),
        }
    }
}

} // verus!
