//! Create Account: turns the account the user described into a draft the
//! user confirms. The tool never writes.
use vstd::prelude::*;

use std::sync::Arc;

use crate::text::{opt_chars, owned, push_str, str_eq, to_lowercase, to_uppercase, trim, trimmed, unicode_lowercase, unicode_uppercase};
use crate::tools::common::{available_currencies, currency_choices, strings_view, upper_trimmed};
use crate::tools::env::AiEnvironment;

verus! {

/// One entry of the account-type dropdown; the first is the default.
#[derive(Debug, Clone)]
pub struct AccountTypeOption {
    pub value: String,
    pub label: String,
}

/// The option table offered next to the draft: (value, label) pairs.
pub open spec fn account_type_options_table() -> Seq<(Seq<char>, Seq<char>)> {
    seq![("BROKERAGE"@, "Brokerage / taxable"@), ("RETIREMENT"@, "Retirement (401k, IRA, RRSP, …)"@), ("CASH"@, "Cash"@), ("CHECKING"@, "Checking"@), ("SAVINGS"@, "Savings"@), ("CRYPTO"@, "Crypto wallet / exchange"@), ("OTHER"@, "Other"@)]
}

/// The account types offered, in display order.
pub fn account_type_options() -> (r: Vec<AccountTypeOption>)
    ensures
        r@.len() == account_type_options_table().len(),
        forall|i: int| 0 <= i < r@.len() ==> (#[trigger] r@[i]).value@ == account_type_options_table()[i].0
            && r@[i].label@ == account_type_options_table()[i].1,
{
    let mut out: Vec<AccountTypeOption> = Vec::new();
    out.push(AccountTypeOption { value: owned("BROKERAGE"), label: owned("Brokerage / taxable") });
    out.push(AccountTypeOption { value: owned("RETIREMENT"), label: owned("Retirement (401k, IRA, RRSP, …)") });
    out.push(AccountTypeOption { value: owned("CASH"), label: owned("Cash") });
    out.push(AccountTypeOption { value: owned("CHECKING"), label: owned("Checking") });
    out.push(AccountTypeOption { value: owned("SAVINGS"), label: owned("Savings") });
    out.push(AccountTypeOption { value: owned("CRYPTO"), label: owned("Crypto wallet / exchange") });
    out.push(AccountTypeOption { value: owned("OTHER"), label: owned("Other") });
    out
}

/// The offered type a trimmed, upper-cased free-form type is, or `OTHER`.
pub open spec fn account_type_for(key: Seq<char>) -> Seq<char> {
    if key == "BROKERAGE"@ {
        "BROKERAGE"@
    } else if key == "RETIREMENT"@ {
        "RETIREMENT"@
    } else if key == "CASH"@ {
        "CASH"@
    } else if key == "CHECKING"@ {
        "CHECKING"@
    } else if key == "SAVINGS"@ {
        "SAVINGS"@
    } else if key == "CRYPTO"@ {
        "CRYPTO"@
    } else if key == "OTHER"@ {
        "OTHER"@
    } else {
        "OTHER"@
    }
}

fn account_type_for_exec(key: &str) -> (r: String)
    ensures
        r@ == account_type_for(key@),
{
    if str_eq(key, "BROKERAGE") {
        owned("BROKERAGE")
    } else if str_eq(key, "RETIREMENT") {
        owned("RETIREMENT")
    } else if str_eq(key, "CASH") {
        owned("CASH")
    } else if str_eq(key, "CHECKING") {
        owned("CHECKING")
    } else if str_eq(key, "SAVINGS") {
        owned("SAVINGS")
    } else if str_eq(key, "CRYPTO") {
        owned("CRYPTO")
    } else if str_eq(key, "OTHER") {
        owned("OTHER")
    } else {
        owned("OTHER")
    }
}

/// Maps a free-form type (trimmed, upper-cased) to itself when it is one of the offered types, else `OTHER`.
pub fn normalize_account_type(raw: &str) -> (r: String)
    ensures
        r@ == account_type_for(unicode_uppercase(trimmed(raw@))),
{
    let t = trim(raw);
    let k = to_uppercase(t.as_str());
    account_type_for_exec(k.as_str())
}

/// Proposes a new account; never writes.
pub struct CreateAccountTool<E: AiEnvironment> {
    env: Arc<E>,
}

impl<E: AiEnvironment> CreateAccountTool<E> {
    pub fn new(env: Arc<E>) -> (r: Self)
        ensures
            r.env() == env,
    {
        CreateAccountTool { env }
    }

    pub closed spec fn env(&self) -> Arc<E> {
        self.env
    }
}

/// What the model asks for.
#[derive(Debug, Clone)]
pub struct CreateAccountArgs {
    /// User-visible name of the account.
    pub name: String,
    /// Free-form account type; normalised against the offered types.
    pub account_type: String,
    /// Currency code; falls back to the base currency.
    pub currency: Option<String>,
    /// Mark the account as the default for new activities.
    pub is_default: bool,
    /// Optional grouping label.
    pub group: Option<String>,
    /// Optional free-form notes.
    pub notes: Option<String>,
}

impl Default for CreateAccountArgs {
    fn default() -> (r: Self)
        ensures
            r.name@.len() == 0,
            r.account_type@.len() == 0,
            r.currency is None,
            !r.is_default,
            r.group is None,
            r.notes is None,
    {
        CreateAccountArgs {
            name: String::new(),
            account_type: String::new(),
            currency: None,
            is_default: false,
            group: None,
            notes: None,
        }
    }
}

/// The account that will be created once the user confirms.
#[derive(Debug, Clone)]
pub struct AccountDraft {
    pub name: String,
    pub account_type: String,
    pub currency: String,
    pub is_default: bool,
    pub group: Option<String>,
    pub notes: Option<String>,
    /// Always `MANUAL` for accounts the assistant proposes.
    pub provider: String,
}

#[derive(Debug, Clone)]
pub struct ValidationResult {
    pub is_valid: bool,
    pub missing_fields: Vec<String>,
    pub warnings: Vec<String>,
}

/// An existing account, surfaced so the card can warn on near-duplicates.
#[derive(Debug, Clone)]
pub struct ExistingAccount {
    pub id: String,
    pub name: String,
    pub account_type: String,
    pub currency: String,
}

impl ExistingAccount {
    pub fn duplicate(&self) -> (r: Self)
        ensures
            r == *self,
    {
        ExistingAccount {
            id: self.id.clone(),
            name: self.name.clone(),
            account_type: self.account_type.clone(),
            currency: self.currency.clone(),
        }
    }
}

/// The draft plus what the confirm card shows next to it.
#[derive(Debug, Clone)]
pub struct CreateAccountOutput {
    pub draft: AccountDraft,
    pub validation: ValidationResult,
    pub existing_accounts: Vec<ExistingAccount>,
    /// Currency choices, base currency first.
    pub available_currencies: Vec<String>,
    pub available_types: Vec<AccountTypeOption>,
}

/// The currency a draft uses: the given code trimmed and upper-cased, or the
/// base currency when none (or only white space) is given.
pub open spec fn draft_currency(given: Option<Seq<char>>, base: Seq<char>) -> Seq<char> {
    match given {
        Some(c) => if trimmed(c).len() > 0 {
            upper_trimmed(c)
        } else {
            base
        },
        None => base,
    }
}

/// An optional text field trimmed, dropped when nothing is left.
pub open spec fn trimmed_opt(o: Option<Seq<char>>) -> Option<Seq<char>> {
    match o {
        Some(s) => if trimmed(s).len() > 0 {
            Some(trimmed(s))
        } else {
            None
        },
        None => None,
    }
}

/// The fields the draft lacks.
pub open spec fn missing_account_fields(name: Seq<char>, account_type: Seq<char>) -> Seq<
    Seq<char>,
> {
    let a = if trimmed(name).len() == 0 {
        seq!["name"@]
    } else {
        Seq::empty()
    };
    if trimmed(account_type).len() == 0 {
        a.push("accountType"@)
    } else {
        a
    }
}

/// Some existing account carries this name, compared lower-cased.
pub open spec fn name_taken(existing: Seq<ExistingAccount>, name: Seq<char>) -> bool {
    exists|i: int|
        0 <= i < existing.len() && unicode_lowercase((#[trigger] existing[i]).name@)
            == unicode_lowercase(name)
}

/// The warning raised when the name is already taken.
pub open spec fn name_taken_warning(name: Seq<char>) -> Seq<char> {
    "An account named \""@ + name + "\" already exists — consider update_account instead."@
}

pub(crate) fn trimmed_option(o: &Option<String>) -> (r: Option<String>)
    ensures
        opt_chars(r) == trimmed_opt(opt_chars(*o)),
{
    match o {
        Some(s) => {
            let t = trim(s.as_str());
            if t.as_str().is_empty() {
                None
            } else {
                Some(t)
            }
        },
        None => None,
    }
}

fn name_is_taken(existing: &Vec<ExistingAccount>, name: &str) -> (r: bool)
    ensures
        r == name_taken(existing@, name@),
{
    let lower = to_lowercase(name);
    let mut i: usize = 0;
    while i < existing.len()
        invariant
            i <= existing.len(),
            lower@ == unicode_lowercase(name@),
            forall|k: int|
                0 <= k < i ==> unicode_lowercase((#[trigger] existing@[k]).name@) != lower@,
        decreases existing.len() - i,
    {
        let l = to_lowercase(existing[i].name.as_str());
        if str_eq(l.as_str(), lower.as_str()) {
            return true;
        }
        i = i + 1;
    }
    false
}

/// Builds the draft for `args` against the base currency and the user's
/// existing accounts.
pub fn draft_account(args: CreateAccountArgs, base_currency: &str, existing: &Vec<ExistingAccount>) -> (r: CreateAccountOutput)
    ensures
        r.draft.name@ == trimmed(args.name@),
        r.draft.account_type@ == account_type_for(unicode_uppercase(trimmed(args.account_type@))),
        r.draft.currency@ == draft_currency(opt_chars(args.currency), base_currency@),
        r.draft.is_default == args.is_default,
        opt_chars(r.draft.group) == trimmed_opt(opt_chars(args.group)),
        opt_chars(r.draft.notes) == trimmed_opt(opt_chars(args.notes)),
        r.draft.provider@ == "MANUAL"@,
        strings_view(r.validation.missing_fields@) == missing_account_fields(args.name@, args.account_type@),
        r.validation.is_valid == (r.validation.missing_fields@.len() == 0),
        strings_view(r.validation.warnings@) == (if unicode_lowercase(trimmed(args.name@)).len() > 0
            && name_taken(existing@, trimmed(args.name@)) {
            seq![name_taken_warning(trimmed(args.name@))]
        } else {
            Seq::empty()
        }),
        r.existing_accounts@ == existing@,
        strings_view(r.available_currencies@) == currency_choices(base_currency@, Some(r.draft.currency@)),
        r.available_types@.len() == account_type_options_table().len(),
        forall|i: int| 0 <= i < r.available_types@.len() ==> (#[trigger] r.available_types@[i]).value@ == account_type_options_table()[i].0
            && r.available_types@[i].label@ == account_type_options_table()[i].1,
{
    let currency = match &args.currency {
        Some(c) => {
            let t = trim(c.as_str());
            if t.as_str().is_empty() {
                owned(base_currency)
            } else {
                to_uppercase(t.as_str())
            }
        },
        None => owned(base_currency),
    };
    let account_type = normalize_account_type(args.account_type.as_str());
    let name = trim(args.name.as_str());
    let mut missing_fields: Vec<String> = Vec::new();
    if name.as_str().is_empty() {
        missing_fields.push(owned("name"));
    }
    let ty = trim(args.account_type.as_str());
    if ty.as_str().is_empty() {
        missing_fields.push(owned("accountType"));
    }
    proof {
        reveal_strlit("name");
        reveal_strlit("accountType");
        assert(strings_view(missing_fields@) =~= missing_account_fields(args.name@, args.account_type@));
    }
    let mut warnings: Vec<String> = Vec::new();
    let name_lower = to_lowercase(name.as_str());
    if !name_lower.as_str().is_empty() && name_is_taken(existing, name.as_str()) {
        let mut w = owned("An account named \"");
        push_str(&mut w, name.as_str());
        push_str(&mut w, "\" already exists — consider update_account instead.");
        warnings.push(w);
        proof {
            assert(strings_view(warnings@) =~= seq![name_taken_warning(trimmed(args.name@))]);
        }
    } else {
        assert(strings_view(warnings@) =~= Seq::<Seq<char>>::empty());
    }
    let mut existing_accounts: Vec<ExistingAccount> = Vec::new();
    let mut i: usize = 0;
    while i < existing.len()
        invariant
            i <= existing.len(),
            existing_accounts@ == existing@.take(i as int),
        decreases existing.len() - i,
    {
        existing_accounts.push(existing[i].duplicate());
        assert(existing@.take(i + 1) =~= existing@.take(i as int).push(existing@[i as int]));
        i = i + 1;
    }
    assert(existing@.take(existing.len() as int) =~= existing@);
    let available = available_currencies(base_currency, Some(currency.as_str()));
    let is_valid = missing_fields.len() == 0;
    CreateAccountOutput {
        draft: AccountDraft {
            name,
            account_type,
            currency,
            is_default: args.is_default,
            group: trimmed_option(&args.group),
            notes: trimmed_option(&args.notes),
            provider: owned("MANUAL"),
        },
        validation: ValidationResult { is_valid, missing_fields, warnings },
        existing_accounts,
        available_currencies: available,
        available_types: account_type_options(),
    }
}

impl<E: AiEnvironment> CreateAccountTool<E> {
    /// The draft for `args`, against the environment's base currency and
    /// the user's active accounts.
    pub fn build_output(&self, args: CreateAccountArgs, existing: &Vec<ExistingAccount>) -> (r: CreateAccountOutput)
        ensures
            r.draft.name@ == trimmed(args.name@),
            r.draft.account_type@ == account_type_for(unicode_uppercase(trimmed(args.account_type@))),
            r.draft.provider@ == "MANUAL"@,
            r.validation.is_valid == (missing_account_fields(args.name@, args.account_type@).len() == 0),
            r.existing_accounts@ == existing@,
            exists|base: Seq<char>| r.draft.currency@ == draft_currency(opt_chars(args.currency), base),
    {
        let base = self.env.base_currency();
        let out = draft_account(args, base.as_str(), existing);
        assert(out.draft.currency@ == draft_currency(opt_chars(args.currency), base@));
        out
    }
}

} // verus!
