//! Onboarding examples: three example liabilities (a mortgage, a student
//! loan, a credit card) seeded once, when the user has no liability yet,
//! so that the first screen shows rows to edit rather than blank forms.
use vstd::prelude::*;

use crate::dates::CalendarDate;
use crate::decimal::Dec;
use crate::holdings::AssetKind;
use crate::text::{owned, push_str};

verus! {

/// The prefix of every example's name; the first edit strips it.
pub open spec fn example_prefix() -> Seq<char> {
    "Example — "@
}

/// One example liability, as the create request carries it.
pub struct ExampleLiability {
    pub name: String,
    pub currency: String,
    pub current_value: Dec,
    pub purchase_date: Option<CalendarDate>,
    pub sub_type: String,
    pub rate_pct: String,
    pub monthly_payment: String,
    pub originated_at: Option<String>,
}

pub ghost struct ExampleView {
    pub name: Seq<char>,
    pub currency: Seq<char>,
    pub current_value: Dec,
    pub purchase_date: Option<CalendarDate>,
    pub sub_type: Seq<char>,
    pub rate_pct: Seq<char>,
    pub monthly_payment: Seq<char>,
    pub originated_at: Option<Seq<char>>,
}

impl ExampleLiability {
    pub open spec fn view(&self) -> ExampleView {
        ExampleView {
            name: self.name@,
            currency: self.currency@,
            current_value: self.current_value,
            purchase_date: self.purchase_date,
            sub_type: self.sub_type@,
            rate_pct: self.rate_pct@,
            monthly_payment: self.monthly_payment@,
            originated_at: match self.originated_at {
                Some(s) => Some(s@),
                None => None,
            },
        }
    }
}

pub open spec fn examples_view(v: Seq<ExampleLiability>) -> Seq<ExampleView> {
    v.map_values(|e: ExampleLiability| e@)
}

/// The three examples in `currency`.
pub open spec fn examples(currency: Seq<char>) -> Seq<ExampleView> {
    seq![
        ExampleView {
            name: example_prefix() + "Home mortgage"@,
            currency,
            current_value: Dec { mantissa: 480000, scale: 0 },
            purchase_date: Some(CalendarDate { year: 2023, month: 1, day: 15 }),
            sub_type: "mortgage"@,
            rate_pct: "5.2"@,
            monthly_payment: "2650"@,
            originated_at: Some("2023-01-15"@),
        },
        ExampleView {
            name: example_prefix() + "Student loan"@,
            currency,
            current_value: Dec { mantissa: 32000, scale: 0 },
            purchase_date: None,
            sub_type: "student_loan"@,
            rate_pct: "6.8"@,
            monthly_payment: "410"@,
            originated_at: None,
        },
        ExampleView {
            name: example_prefix() + "Credit card"@,
            currency,
            current_value: Dec { mantissa: 4800, scale: 0 },
            purchase_date: None,
            sub_type: "credit_card"@,
            rate_pct: "22.99"@,
            monthly_payment: "145"@,
            originated_at: None,
        },
    ]
}

/// Whether any of the user's alternative holdings is a liability.
pub fn has_any_liability(kinds: &Vec<AssetKind>) -> (r: bool)
    ensures
        r == exists|i: int| 0 <= i < kinds@.len() && kinds@[i] == AssetKind::Liability,
{
    let mut i: usize = 0;
    while i < kinds.len()
        invariant
            i <= kinds.len(),
            forall|j: int| 0 <= j < i ==> kinds@[j] != AssetKind::Liability,
        decreases kinds.len() - i,
    {
        if kinds[i] == AssetKind::Liability {
            return true;
        }
        i = i + 1;
    }
    false
}

fn example(
    name: &str,
    currency: &str,
    value: i128,
    purchase_date: Option<CalendarDate>,
    sub_type: &str,
    rate_pct: &str,
    monthly_payment: &str,
    originated_at: Option<&str>,
) -> (r: ExampleLiability)
    ensures
        r@ == (ExampleView {
            name: example_prefix() + name@,
            currency: currency@,
            current_value: Dec { mantissa: value, scale: 0 },
            purchase_date,
            sub_type: sub_type@,
            rate_pct: rate_pct@,
            monthly_payment: monthly_payment@,
            originated_at: match originated_at {
                Some(s) => Some(s@),
                None => None,
            },
        }),
{
    let mut full = owned("Example — ");
    push_str(&mut full, name);
    ExampleLiability {
        name: full,
        currency: owned(currency),
        current_value: Dec { mantissa: value, scale: 0 },
        purchase_date,
        sub_type: owned(sub_type),
        rate_pct: owned(rate_pct),
        monthly_payment: owned(monthly_payment),
        originated_at: match originated_at {
            Some(s) => Some(owned(s)),
            None => None,
        },
    }
}

/// The examples to seed for a user whose holdings have the kinds `kinds`:
/// none when any is a liability (seeding is done at most once), otherwise
/// the three of [`examples`] in the base currency.
pub fn examples_to_seed(kinds: &Vec<AssetKind>, base_currency: &str) -> (r: Vec<ExampleLiability>)
    ensures
        examples_view(r@) == if exists|i: int| 0 <= i < kinds@.len() && kinds@[i] == AssetKind::Liability {
            Seq::empty()
        } else {
            examples(base_currency@)
        },
{
    let mut out: Vec<ExampleLiability> = Vec::new();
    if has_any_liability(kinds) {
        assert(examples_view(out@) =~= Seq::<ExampleView>::empty());
        return out;
    }
    out.push(
        example(
            "Home mortgage",
            base_currency,
            480000,
            Some(CalendarDate { year: 2023, month: 1, day: 15 }),
            "mortgage",
            "5.2",
            "2650",
            Some("2023-01-15"),
        ),
    );
    out.push(example("Student loan", base_currency, 32000, None, "student_loan", "6.8", "410", None));
    out.push(example("Credit card", base_currency, 4800, None, "credit_card", "22.99", "145", None));
    assert(examples_view(out@) =~= examples(base_currency@));
    out
}

} // verus!
