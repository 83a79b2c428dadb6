//! Update Account: editing an existing account from a free-form request.
//! The reference is resolved to one account, the requested fields are laid
//! over its current values, and each changed field is listed as a diff.
use vstd::prelude::*;

use std::sync::Arc;

use crate::accounts::{account_keys, copy_opt, resolve_account, Account};
use crate::text::{owned, push_str, str_eq, to_uppercase, trim, trimmed, unicode_uppercase};
use crate::tools::common::strings_view;
use crate::text::opt_chars;
use crate::tools::env::AiEnvironment;
use crate::tools::resolve::{positions, resolution, within, Resolution, Resolved};

verus! {

/// One entry of the account-type dropdown.
#[derive(Debug, Clone)]
pub struct AccountTypeOption {
    pub value: String,
    pub label: String,
}

/// The option table offered next to the draft: (value, label) pairs.
pub open spec fn account_type_options_table() -> Seq<(Seq<char>, Seq<char>)> {
    seq![("SECURITIES"@, "Brokerage / investments"@), ("CASH"@, "Cash / bank account"@), ("CRYPTOCURRENCY"@, "Crypto wallet / exchange"@)]
}

/// The account types offered, in display order.
pub fn account_type_options() -> (r: Vec<AccountTypeOption>)
    ensures
        r@.len() == account_type_options_table().len(),
        forall|i: int| 0 <= i < r@.len() ==> (#[trigger] r@[i]).value@ == account_type_options_table()[i].0
            && r@[i].label@ == account_type_options_table()[i].1,
{
    let mut out: Vec<AccountTypeOption> = Vec::new();
    out.push(AccountTypeOption { value: owned("SECURITIES"), label: owned("Brokerage / investments") });
    out.push(AccountTypeOption { value: owned("CASH"), label: owned("Cash / bank account") });
    out.push(AccountTypeOption { value: owned("CRYPTOCURRENCY"), label: owned("Crypto wallet / exchange") });
    out
}

/// The account type a trimmed, upper-cased free-form type names, if any.
pub open spec fn account_type_alias(key: Seq<char>) -> Option<Seq<char>> {
    if key == "SECURITIES"@ || key == "BROKERAGE"@ || key == "TAXABLE"@ || key == "INVESTMENT"@ || key == "INVESTMENTS"@ || key == "RETIREMENT"@ || key == "401K"@ || key == "IRA"@ || key == "ROTH"@ || key == "ROTH_IRA"@ || key == "RRSP"@ || key == "TFSA"@ || key == "SIPP"@ || key == "PENSION"@ || key == "STOCK"@ || key == "STOCKS"@ || key == "EQUITIES"@ {
        Some("SECURITIES"@)
    } else if key == "CRYPTOCURRENCY"@ || key == "CRYPTO"@ || key == "WALLET"@ || key == "BTC"@ || key == "ETH"@ {
        Some("CRYPTOCURRENCY"@)
    } else if key == "CASH"@ || key == "BANK"@ || key == "CHECKING"@ || key == "SAVINGS"@ || key == "DEPOSIT"@ || key == "CURRENT"@ {
        Some("CASH"@)
    } else {
        None
    }
}

fn account_type_alias_exec(key: &str) -> (r: Option<String>)
    ensures
        match r {
            Some(v) => account_type_alias(key@) == Some(v@),
            None => account_type_alias(key@) is None,
        },
{
    if str_eq(key, "SECURITIES") || str_eq(key, "BROKERAGE") || str_eq(key, "TAXABLE") || str_eq(key, "INVESTMENT") || str_eq(key, "INVESTMENTS") || str_eq(key, "RETIREMENT") || str_eq(key, "401K") || str_eq(key, "IRA") || str_eq(key, "ROTH") || str_eq(key, "ROTH_IRA") || str_eq(key, "RRSP") || str_eq(key, "TFSA") || str_eq(key, "SIPP") || str_eq(key, "PENSION") || str_eq(key, "STOCK") || str_eq(key, "STOCKS") || str_eq(key, "EQUITIES") {
        Some(owned("SECURITIES"))
    } else if str_eq(key, "CRYPTOCURRENCY") || str_eq(key, "CRYPTO") || str_eq(key, "WALLET") || str_eq(key, "BTC") || str_eq(key, "ETH") {
        Some(owned("CRYPTOCURRENCY"))
    } else if str_eq(key, "CASH") || str_eq(key, "BANK") || str_eq(key, "CHECKING") || str_eq(key, "SAVINGS") || str_eq(key, "DEPOSIT") || str_eq(key, "CURRENT") {
        Some(owned("CASH"))
    } else {
        None
    }
}

/// The canonical account type a free-form one (trimmed, upper-cased) names, or `None` when unrecognised.
pub fn normalize_account_type(raw: &str) -> (r: Option<String>)
    ensures
        match r {
            Some(v) => account_type_alias(unicode_uppercase(trimmed(raw@))) == Some(v@),
            None => account_type_alias(unicode_uppercase(trimmed(raw@))) is None,
        },
{
    let t = trim(raw);
    let k = to_uppercase(t.as_str());
    account_type_alias_exec(k.as_str())
}

/// Proposes an edit of an existing account; never writes.
pub struct UpdateAccountTool<E: AiEnvironment> {
    env: Arc<E>,
}

impl<E: AiEnvironment> UpdateAccountTool<E> {
    pub fn new(env: Arc<E>) -> (r: Self)
        ensures
            r.env() == env,
    {
        UpdateAccountTool { env }
    }

    pub closed spec fn env(&self) -> Arc<E> {
        self.env
    }
}

/// What the assistant asks to change; omitted fields keep their value.
pub struct UpdateAccountArgs {
    /// The account's id or (part of) its name.
    pub account_ref: String,
    pub name: Option<String>,
    pub account_type: Option<String>,
    pub is_default: Option<bool>,
    pub is_active: Option<bool>,
    pub group: Option<String>,
    pub notes: Option<String>,
}

impl Default for UpdateAccountArgs {
    fn default() -> (r: Self)
        ensures
            r.account_ref@ == Seq::<char>::empty(),
            r.name is None,
            r.account_type is None,
            r.is_default is None,
            r.is_active is None,
            r.group is None,
            r.notes is None,
    {
        UpdateAccountArgs {
            account_ref: String::new(),
            name: None,
            account_type: None,
            is_default: None,
            is_active: None,
            group: None,
            notes: None,
        }
    }
}

/// The account as it will read once the edit is applied.
pub struct AccountUpdateDraft {
    pub id: String,
    pub name: String,
    pub account_type: String,
    pub group: Option<String>,
    pub is_default: bool,
    pub is_active: bool,
    /// Carried for display; an edit never changes it.
    pub currency: String,
    pub notes: Option<String>,
}

/// The account as it is now.
pub struct AccountSnapshot {
    pub id: String,
    pub name: String,
    pub account_type: String,
    pub group: Option<String>,
    pub is_default: bool,
    pub is_active: bool,
    pub currency: String,
    pub notes: Option<String>,
}

/// One changed field: its name, the old and the new value.
pub struct FieldDiff {
    pub field: String,
    pub old: Option<String>,
    pub new: Option<String>,
}

pub struct ValidationResult {
    pub is_valid: bool,
    pub missing_fields: Vec<String>,
    pub warnings: Vec<String>,
    /// The reference named exactly one account.
    pub resolved: bool,
    /// The accounts an ambiguous reference matched.
    pub candidates: Vec<AccountSnapshot>,
}

pub struct UpdateAccountOutput {
    pub draft: AccountUpdateDraft,
    pub current: AccountSnapshot,
    pub diff: Vec<FieldDiff>,
    pub validation: ValidationResult,
    pub available_types: Vec<AccountTypeOption>,
}

/// `s` is the snapshot of account `a`.
pub open spec fn snapshot_of(s: AccountSnapshot, a: Account) -> bool {
    &&& s.id@ == a.id@
    &&& s.name@ == a.name@
    &&& s.account_type@ == a.account_type@
    &&& opt_chars(s.group) == opt_chars(a.group)
    &&& s.is_default == a.is_default
    &&& s.is_active == a.is_active
    &&& s.currency@ == a.currency@
    &&& opt_chars(s.notes) == opt_chars(a.meta)
}

/// The empty snapshot returned when no single account was found.
pub open spec fn blank_snapshot(s: AccountSnapshot) -> bool {
    &&& s.id@.len() == 0
    &&& s.name@.len() == 0
    &&& s.account_type@.len() == 0
    &&& s.group is None
    &&& !s.is_default
    &&& !s.is_active
    &&& s.currency@.len() == 0
    &&& s.notes is None
}

/// A requested name replaces the current one when something is left after
/// trimming.
pub open spec fn proposed_name(arg: Option<Seq<char>>, current: Seq<char>) -> Seq<char> {
    match arg {
        Some(n) => if trimmed(n).len() > 0 {
            trimmed(n)
        } else {
            current
        },
        None => current,
    }
}

/// A requested type replaces the current one when it is recognised.
pub open spec fn proposed_type(arg: Option<Seq<char>>, current: Seq<char>) -> Seq<char> {
    match arg {
        Some(t) => match account_type_alias(unicode_uppercase(trimmed(t))) {
            Some(v) => v,
            None => current,
        },
        None => current,
    }
}

/// A requested optional text replaces the current one; a blank request
/// clears it.
pub open spec fn proposed_text(arg: Option<Seq<char>>, current: Option<Seq<char>>) -> Option<Seq<char>> {
    match arg {
        Some(g) => if trimmed(g).len() == 0 {
            None
        } else {
            Some(trimmed(g))
        },
        None => current,
    }
}

pub open spec fn proposed_flag(arg: Option<bool>, current: bool) -> bool {
    match arg {
        Some(b) => b,
        None => current,
    }
}

/// How a flag is shown in a diff.
pub open spec fn yes_no(b: bool) -> Seq<char> {
    if b {
        "yes"@
    } else {
        "no"@
    }
}

pub type DiffView = (Seq<char>, Option<Seq<char>>, Option<Seq<char>>);

impl FieldDiff {
    pub open spec fn view(&self) -> DiffView {
        (self.field@, opt_chars(self.old), opt_chars(self.new))
    }
}

pub open spec fn diff_views(v: Seq<FieldDiff>) -> Seq<DiffView> {
    v.map_values(|d: FieldDiff| d@)
}

/// A diff row for `field` when the value changes, none otherwise.
pub open spec fn diff_row(field: Seq<char>, old: Option<Seq<char>>, new: Option<Seq<char>>) -> Seq<DiffView> {
    if old != new {
        seq![(field, old, new)]
    } else {
        Seq::empty()
    }
}

/// The rows of an edit of `current` into `draft`: name, type, group,
/// default flag, active flag, notes, in that order.
pub open spec fn account_diff(current: AccountSnapshot, draft: AccountUpdateDraft) -> Seq<DiffView> {
    diff_row("name"@, Some(current.name@), Some(draft.name@))
        + diff_row("accountType"@, Some(current.account_type@), Some(draft.account_type@))
        + diff_row("group"@, opt_chars(current.group), opt_chars(draft.group))
        + diff_row("isDefault"@, Some(yes_no(current.is_default)), Some(yes_no(draft.is_default)))
        + diff_row("isActive"@, Some(yes_no(current.is_active)), Some(yes_no(draft.is_active)))
        + diff_row("notes"@, opt_chars(current.notes), opt_chars(draft.notes))
}

pub open spec fn no_change_warning() -> Seq<char> {
    "No fields changed — the draft matches the current account exactly."@
}

pub open spec fn no_match_warning(reference: Seq<char>) -> Seq<char> {
    "No active account matches \""@ + reference + "\". Use create_account to add it, or list accounts first."@
}

pub open spec fn ambiguous_warning(reference: Seq<char>) -> Seq<char> {
    "Multiple accounts match \""@ + reference + "\". Ask the user which one to update."@
}

/// The draft when the reference named account `a`: `a` overlaid by the
/// requested fields.
pub open spec fn overlay_draft(d: AccountUpdateDraft, a: Account, args: UpdateAccountArgs) -> bool {
    &&& d.id@ == a.id@
    &&& d.name@ == proposed_name(opt_chars(args.name), a.name@)
    &&& d.account_type@ == proposed_type(opt_chars(args.account_type), a.account_type@)
    &&& opt_chars(d.group) == proposed_text(opt_chars(args.group), opt_chars(a.group))
    &&& d.is_default == proposed_flag(args.is_default, a.is_default)
    &&& d.is_active == proposed_flag(args.is_active, a.is_active)
    &&& d.currency@ == a.currency@
    &&& opt_chars(d.notes) == proposed_text(opt_chars(args.notes), opt_chars(a.meta))
}

/// The stub draft when the reference named no single account: the
/// requested fields as given, the others empty (active by default).
pub open spec fn stub_draft(d: AccountUpdateDraft, args: UpdateAccountArgs) -> bool {
    &&& d.id@.len() == 0
    &&& d.name@ == match args.name {
        Some(n) => n@,
        None => Seq::empty(),
    }
    &&& d.account_type@ == match args.account_type {
        Some(t) => match account_type_alias(unicode_uppercase(trimmed(t@))) {
            Some(v) => v,
            None => Seq::empty(),
        },
        None => Seq::empty(),
    }
    &&& opt_chars(d.group) == opt_chars(args.group)
    &&& d.is_default == proposed_flag(args.is_default, false)
    &&& d.is_active == proposed_flag(args.is_active, true)
    &&& d.currency@.len() == 0
    &&& opt_chars(d.notes) == opt_chars(args.notes)
}

/// The whole output for `args` against `accounts`.
pub open spec fn update_output(r: UpdateAccountOutput, args: UpdateAccountArgs, accounts: Seq<Account>) -> bool {
    &&& r.available_types@.len() == account_type_options_table().len()
    &&& forall|i: int| 0 <= i < r.available_types@.len() ==> (#[trigger] r.available_types@[i]).value@
        == account_type_options_table()[i].0 && r.available_types@[i].label@ == account_type_options_table()[i].1
    &&& match resolution(account_keys(accounts), args.account_ref@) {
        Resolved::Single(i) => {
            &&& snapshot_of(r.current, accounts[i])
            &&& overlay_draft(r.draft, accounts[i], args)
            &&& diff_views(r.diff@) == account_diff(r.current, r.draft)
            &&& r.validation.is_valid == (r.diff@.len() > 0)
            &&& r.validation.missing_fields@.len() == 0
            &&& strings_view(r.validation.warnings@) == if r.diff@.len() == 0 {
                seq![no_change_warning()]
            } else {
                Seq::empty()
            }
            &&& r.validation.resolved
            &&& r.validation.candidates@.len() == 0
        },
        res => {
            &&& blank_snapshot(r.current)
            &&& stub_draft(r.draft, args)
            &&& r.diff@.len() == 0
            &&& !r.validation.is_valid
            &&& !r.validation.resolved
            &&& strings_view(r.validation.missing_fields@) == if trimmed(args.account_ref@).len() == 0 {
                seq!["accountRef"@]
            } else {
                Seq::empty()
            }
            &&& match res {
                Resolved::Ambiguous(found) => {
                    &&& r.validation.candidates@.len() == found.len()
                    &&& forall|k: int| 0 <= k < found.len() ==> snapshot_of(#[trigger] r.validation.candidates@[k], accounts[found[k]])
                    &&& strings_view(r.validation.warnings@) == seq![ambiguous_warning(args.account_ref@)]
                },
                _ => {
                    &&& r.validation.candidates@.len() == 0
                    &&& strings_view(r.validation.warnings@) == seq![no_match_warning(args.account_ref@)]
                },
            }
        },
    }
}

fn snapshot(a: &Account) -> (s: AccountSnapshot)
    ensures
        snapshot_of(s, *a),
{
    AccountSnapshot {
        id: owned(a.id.as_str()),
        name: owned(a.name.as_str()),
        account_type: owned(a.account_type.as_str()),
        group: copy_opt(&a.group),
        is_default: a.is_default,
        is_active: a.is_active,
        currency: owned(a.currency.as_str()),
        notes: copy_opt(&a.meta),
    }
}

pub(crate) fn opt_eq(a: &Option<String>, b: &Option<String>) -> (r: bool)
    ensures
        r == (opt_chars(*a) == opt_chars(*b)),
{
    match (a, b) {
        (Some(x), Some(y)) => str_eq(x.as_str(), y.as_str()),
        (None, None) => true,
        _ => false,
    }
}

fn yes_no_exec(b: bool) -> (r: String)
    ensures
        r@ == yes_no(b),
{
    if b {
        owned("yes")
    } else {
        owned("no")
    }
}

pub(crate) fn push_diff(diffs: &mut Vec<FieldDiff>, field: &str, before: Option<String>, after: Option<String>)
    ensures
        diff_views(final(diffs)@) == diff_views(old(diffs)@) + diff_row(field@, opt_chars(before), opt_chars(after)),
{
    let changed = !opt_eq(&before, &after);
    if changed {
        let ghost prior = diff_views(diffs@);
        let ghost row: DiffView = (field@, opt_chars(before), opt_chars(after));
        diffs.push(FieldDiff { field: owned(field), old: before, new: after });
        assert(diff_views(diffs@) =~= prior + seq![row]);
    } else {
        assert(diff_views(diffs@) =~= diff_views(diffs@) + Seq::<DiffView>::empty());
    }
}

/// The text a requested optional field leaves: trimmed, or cleared when
/// blank, or the current value when not requested.
fn overlay_text(arg: &Option<String>, current: &Option<String>) -> (r: Option<String>)
    ensures
        opt_chars(r) == proposed_text(opt_chars(*arg), opt_chars(*current)),
{
    match arg {
        Some(g) => {
            let t = trim(g.as_str());
            if t.as_str().is_empty() {
                None
            } else {
                Some(t)
            }
        },
        None => copy_opt(current),
    }
}

fn snapshots_at(accounts: &Vec<Account>, found: &Vec<usize>) -> (out: Vec<AccountSnapshot>)
    requires
        forall|k: int| 0 <= k < found@.len() ==> #[trigger] found@[k] < accounts@.len(),
    ensures
        out@.len() == found@.len(),
        forall|k: int| 0 <= k < found@.len() ==> snapshot_of(#[trigger] out@[k], accounts@[found@[k] as int]),
{
    let mut out: Vec<AccountSnapshot> = Vec::new();
    let mut k: usize = 0;
    while k < found.len()
        invariant
            k <= found.len(),
            forall|j: int| 0 <= j < found@.len() ==> #[trigger] found@[j] < accounts@.len(),
            out@.len() == k,
            forall|j: int| 0 <= j < k ==> snapshot_of(#[trigger] out@[j], accounts@[found@[j] as int]),
        decreases found.len() - k,
    {
        let i = found[k];
        out.push(snapshot(&accounts[i]));
        k = k + 1;
    }
    out
}

fn unresolved_output(args: UpdateAccountArgs, accounts: &Vec<Account>, res: Resolution) -> (r: UpdateAccountOutput)
    requires
        res@ == resolution(account_keys(accounts@), args.account_ref@),
        res@ !is Single,
        within(res@, accounts@.len() as int),
        res@ is Ambiguous ==> res@->Ambiguous_0.len() > 1,
    ensures
        update_output(r, args, accounts@),
{
    let candidates = match &res {
        Resolution::Ambiguous(found) => {
            proof {
                assert forall|k: int| 0 <= k < found@.len() implies #[trigger] found@[k] < accounts@.len() by {
                    assert(positions(found@)[k] == found@[k] as int);
                }
            }
            snapshots_at(accounts, found)
        },
        _ => Vec::new(),
    };
    let mut missing: Vec<String> = Vec::new();
    let t = trim(args.account_ref.as_str());
    if t.as_str().is_empty() {
        missing.push(owned("accountRef"));
    }
    let mut warning = if candidates.len() == 0 {
        owned("No active account matches \"")
    } else {
        owned("Multiple accounts match \"")
    };
    push_str(&mut warning, args.account_ref.as_str());
    if candidates.len() == 0 {
        push_str(&mut warning, "\". Use create_account to add it, or list accounts first.");
    } else {
        push_str(&mut warning, "\". Ask the user which one to update.");
    }
    let mut warnings: Vec<String> = Vec::new();
    warnings.push(warning);
    let account_type = match &args.account_type {
        Some(ty) => match normalize_account_type(ty.as_str()) {
            Some(v) => v,
            None => String::new(),
        },
        None => String::new(),
    };
    let is_default = match args.is_default {
        Some(b) => b,
        None => false,
    };
    let is_active = match args.is_active {
        Some(b) => b,
        None => true,
    };
    let name = match &args.name {
        Some(n) => owned(n.as_str()),
        None => String::new(),
    };
    let r = UpdateAccountOutput {
        draft: AccountUpdateDraft {
            id: String::new(),
            name,
            account_type,
            group: copy_opt(&args.group),
            is_default,
            is_active,
            currency: String::new(),
            notes: copy_opt(&args.notes),
        },
        current: AccountSnapshot {
            id: String::new(),
            name: String::new(),
            account_type: String::new(),
            group: None,
            is_default: false,
            is_active: false,
            currency: String::new(),
            notes: None,
        },
        diff: Vec::new(),
        validation: ValidationResult {
            is_valid: false,
            missing_fields: missing,
            warnings,
            resolved: false,
            candidates,
        },
        available_types: account_type_options(),
    };
    proof {
        reveal_strlit("accountRef");
        assert(strings_view(r.validation.missing_fields@) =~= if trimmed(args.account_ref@).len() == 0 {
            seq!["accountRef"@]
        } else {
            Seq::empty()
        });
        assert(strings_view(r.validation.warnings@) =~= seq![r.validation.warnings@[0]@]);
    }
    r
}

impl<E: AiEnvironment> UpdateAccountTool<E> {
    /// The edit `args` describes, against the user's non-archived accounts.
    pub fn build_output(&self, args: UpdateAccountArgs, accounts: &Vec<Account>) -> (r: UpdateAccountOutput)
        ensures
            update_output(r, args, accounts@),
    {
        let res = resolve_account(accounts, args.account_ref.as_str());
        let i = match res {
            Resolution::Single(i) => i,
            _ => {
                return unresolved_output(args, accounts, res);
            },
        };
        let a = &accounts[i];
        let current = snapshot(a);
        let new_name = match &args.name {
            Some(n) => {
                let t = trim(n.as_str());
                if t.as_str().is_empty() {
                    owned(a.name.as_str())
                } else {
                    t
                }
            },
            None => owned(a.name.as_str()),
        };
        let new_type = match &args.account_type {
            Some(ty) => match normalize_account_type(ty.as_str()) {
                Some(v) => v,
                None => owned(a.account_type.as_str()),
            },
            None => owned(a.account_type.as_str()),
        };
        let new_group = overlay_text(&args.group, &a.group);
        let new_is_default = match args.is_default {
            Some(b) => b,
            None => a.is_default,
        };
        let new_is_active = match args.is_active {
            Some(b) => b,
            None => a.is_active,
        };
        let new_notes = overlay_text(&args.notes, &a.meta);
        let mut diffs: Vec<FieldDiff> = Vec::new();
        push_diff(&mut diffs, "name", Some(owned(current.name.as_str())), Some(owned(new_name.as_str())));
        push_diff(&mut diffs, "accountType", Some(owned(current.account_type.as_str())), Some(owned(new_type.as_str())));
        push_diff(&mut diffs, "group", copy_opt(&current.group), copy_opt(&new_group));
        push_diff(&mut diffs, "isDefault", Some(yes_no_exec(current.is_default)), Some(yes_no_exec(new_is_default)));
        push_diff(&mut diffs, "isActive", Some(yes_no_exec(current.is_active)), Some(yes_no_exec(new_is_active)));
        push_diff(&mut diffs, "notes", copy_opt(&current.notes), copy_opt(&new_notes));
        let mut warnings: Vec<String> = Vec::new();
        if diffs.len() == 0 {
            warnings.push(owned("No fields changed — the draft matches the current account exactly."));
        }
        let is_valid = diffs.len() > 0;
        let draft = AccountUpdateDraft {
            id: owned(a.id.as_str()),
            name: new_name,
            account_type: new_type,
            group: new_group,
            is_default: new_is_default,
            is_active: new_is_active,
            currency: owned(a.currency.as_str()),
            notes: new_notes,
        };
        proof {
            assert(diff_views(diffs@) =~= account_diff(current, draft));
            assert(strings_view(warnings@) =~= if diffs@.len() == 0 {
                seq![no_change_warning()]
            } else {
                Seq::empty()
            });
        }
        UpdateAccountOutput {
            draft,
            current,
            diff: diffs,
            validation: ValidationResult {
                is_valid,
                missing_fields: Vec::new(),
                warnings,
                resolved: true,
                candidates: Vec::new(),
            },
            available_types: account_type_options(),
        }
    }
}

} // verus!
