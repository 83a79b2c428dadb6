//! Delete Account: the confirm card for removing an account, with the
//! activities that would cascade away. The tool itself never writes.
use vstd::prelude::*;

use std::sync::Arc;

use crate::accounts::{account_keys, copy_opt, Account};
use crate::text::{decimal, decimal_string, owned, push_str};
use crate::tools::common::strings_view;
use crate::text::opt_chars;
use crate::tools::env::AiEnvironment;
use crate::tools::resolve::{positions, resolution, within, Resolution, Resolved};

verus! {

/// What the assistant passes.
pub struct DeleteAccountArgs {
    /// The account's id or (part of) its name.
    pub account_ref: String,
    /// The user's stated reason, shown on the confirm card.
    pub reason: Option<String>,
}

/// The account about to be removed (blank when unresolved).
pub struct AccountSnapshot {
    pub id: String,
    pub name: String,
    pub account_type: String,
    pub currency: String,
    pub group: Option<String>,
    pub is_default: bool,
    pub is_active: bool,
}

impl Default for AccountSnapshot {
    fn default() -> (r: Self)
        ensures
            blank_snapshot(r),
    {
        AccountSnapshot {
            id: String::new(),
            name: String::new(),
            account_type: String::new(),
            currency: String::new(),
            group: None,
            is_default: false,
            is_active: false,
        }
    }
}

/// One activity of the account, as the activity service lists it (oldest
/// first), its date already written as YYYY-MM-DD.
pub struct ActivityRecord {
    pub activity_type: String,
    pub date: String,
    pub asset_id: Option<String>,
}

/// An activity shown on the confirm card.
pub struct ActivityPreview {
    pub activity_type: String,
    pub date: String,
    pub asset_symbol: Option<String>,
}

/// What confirming would remove.
pub struct DeletionImpact {
    /// Activities that cascade away with the account.
    pub activity_count: usize,
    /// The most recent of them (at most five), oldest first.
    pub recent_activities: Vec<ActivityPreview>,
    /// The account is the user's default one.
    pub is_default: bool,
}

impl Default for DeletionImpact {
    fn default() -> (r: Self)
        ensures
            r.activity_count == 0,
            r.recent_activities@.len() == 0,
            !r.is_default,
    {
        DeletionImpact { activity_count: 0, recent_activities: Vec::new(), is_default: false }
    }
}

pub struct ValidationResult {
    /// The reference named exactly one account.
    pub resolved: bool,
    /// The accounts an ambiguous reference matched.
    pub candidates: Vec<AccountSnapshot>,
    pub warnings: Vec<String>,
    /// The user may confirm.
    pub is_valid: bool,
}

pub struct DeleteAccountOutput {
    pub target: AccountSnapshot,
    pub impact: DeletionImpact,
    pub reason: Option<String>,
    pub validation: ValidationResult,
}

/// Proposes removing an account; never writes.
pub struct DeleteAccountTool<E: AiEnvironment> {
    env: Arc<E>,
}

impl<E: AiEnvironment> DeleteAccountTool<E> {
    pub fn new(env: Arc<E>) -> (r: Self)
        ensures
            r.env() == env,
    {
        DeleteAccountTool { env }
    }

    pub closed spec fn env(&self) -> Arc<E> {
        self.env
    }
}

/// `s` is the snapshot of account `a`.
pub open spec fn snapshot_of(s: AccountSnapshot, a: Account) -> bool {
    &&& s.id@ == a.id@
    &&& s.name@ == a.name@
    &&& s.account_type@ == a.account_type@
    &&& s.currency@ == a.currency@
    &&& opt_chars(s.group) == opt_chars(a.group)
    &&& s.is_default == a.is_default
    &&& s.is_active == a.is_active
}

pub open spec fn blank_snapshot(s: AccountSnapshot) -> bool {
    &&& s.id@.len() == 0
    &&& s.name@.len() == 0
    &&& s.account_type@.len() == 0
    &&& s.currency@.len() == 0
    &&& s.group is None
    &&& !s.is_default
    &&& !s.is_active
}

pub type ActivityView = (Seq<char>, Seq<char>, Option<Seq<char>>);

impl ActivityRecord {
    pub open spec fn view(&self) -> ActivityView {
        (self.activity_type@, self.date@, opt_chars(self.asset_id))
    }
}

impl ActivityPreview {
    pub open spec fn view(&self) -> ActivityView {
        (self.activity_type@, self.date@, opt_chars(self.asset_symbol))
    }
}

pub open spec fn record_views(v: Seq<ActivityRecord>) -> Seq<ActivityView> {
    v.map_values(|a: ActivityRecord| a@)
}

pub open spec fn preview_views(v: Seq<ActivityPreview>) -> Seq<ActivityView> {
    v.map_values(|a: ActivityPreview| a@)
}

/// The last five activities (all of them when fewer), oldest first.
pub open spec fn last_five<T>(s: Seq<T>) -> Seq<T> {
    if s.len() > 5 {
        s.subrange(s.len() - 5, s.len() as int)
    } else {
        s
    }
}

pub open spec fn default_account_warning() -> Seq<char> {
    "This is your default account — another account will inherit the default flag after deletion."@
}

pub open spec fn cascade_warning(n: nat) -> Seq<char> {
    "Deleting this account will cascade-remove "@ + decimal(n)
        + " activities. Consider archiving instead if you want to keep history."@
}

pub open spec fn ambiguous_warning(reference: Seq<char>, n: nat) -> Seq<char> {
    "\""@ + reference + "\" matched "@ + decimal(n)
        + " accounts. Ask the user which one they mean by name + currency before retrying."@
}

pub open spec fn not_found_warning(reference: Seq<char>) -> Seq<char> {
    "No account named \""@ + reference
        + "\" found. Double-check the name or list accounts first with get_accounts."@
}

pub open spec fn missing_ref_warning() -> Seq<char> {
    "accountRef is required — give the account name or id."@
}

/// The warnings on deleting a resolved account: the default flag, then a
/// large cascade (more than twenty activities).
pub open spec fn resolved_warnings(is_default: bool, activity_count: nat) -> Seq<Seq<char>> {
    let a = if is_default {
        seq![default_account_warning()]
    } else {
        Seq::empty()
    };
    if activity_count > 20 {
        a.push(cascade_warning(activity_count))
    } else {
        a
    }
}

/// The confirm card for deleting what `args` names among `accounts`, where
/// `activities` are the activities of the account it resolves to.
pub open spec fn delete_output(
    r: DeleteAccountOutput,
    args: DeleteAccountArgs,
    accounts: Seq<Account>,
    activities: Seq<ActivityRecord>,
) -> bool {
    &&& opt_chars(r.reason) == opt_chars(args.reason)
    &&& match resolution(account_keys(accounts), args.account_ref@) {
        Resolved::Single(i) => {
            &&& snapshot_of(r.target, accounts[i])
            &&& r.impact.activity_count == activities.len()
            &&& preview_views(r.impact.recent_activities@) == last_five(record_views(activities))
            &&& r.impact.is_default == accounts[i].is_default
            &&& r.validation.resolved
            &&& r.validation.candidates@.len() == 0
            &&& strings_view(r.validation.warnings@) == resolved_warnings(accounts[i].is_default, activities.len())
            &&& r.validation.is_valid
        },
        res => {
            &&& blank_snapshot(r.target)
            &&& r.impact.activity_count == 0
            &&& r.impact.recent_activities@.len() == 0
            &&& !r.impact.is_default
            &&& !r.validation.resolved
            &&& !r.validation.is_valid
            &&& match res {
                Resolved::Ambiguous(found) => {
                    &&& r.validation.candidates@.len() == found.len()
                    &&& forall|k: int| 0 <= k < found.len() ==> snapshot_of(#[trigger] r.validation.candidates@[k], accounts[found[k]])
                    &&& strings_view(r.validation.warnings@) == seq![ambiguous_warning(args.account_ref@, found.len())]
                },
                Resolved::NotFound => {
                    &&& r.validation.candidates@.len() == 0
                    &&& strings_view(r.validation.warnings@) == seq![not_found_warning(args.account_ref@)]
                },
                _ => {
                    &&& r.validation.candidates@.len() == 0
                    &&& strings_view(r.validation.warnings@) == seq![missing_ref_warning()]
                },
            }
        },
    }
}

fn snapshot(a: &Account) -> (s: AccountSnapshot)
    ensures
        snapshot_of(s, *a),
{
    AccountSnapshot {
        id: owned(a.id.as_str()),
        name: owned(a.name.as_str()),
        account_type: owned(a.account_type.as_str()),
        currency: owned(a.currency.as_str()),
        group: copy_opt(&a.group),
        is_default: a.is_default,
        is_active: a.is_active,
    }
}

fn snapshots_at(accounts: &Vec<Account>, found: &Vec<usize>) -> (out: Vec<AccountSnapshot>)
    requires
        forall|k: int| 0 <= k < found@.len() ==> #[trigger] found@[k] < accounts@.len(),
    ensures
        out@.len() == found@.len(),
        forall|k: int| 0 <= k < found@.len() ==> snapshot_of(#[trigger] out@[k], accounts@[found@[k] as int]),
{
    let mut out: Vec<AccountSnapshot> = Vec::new();
    let mut k: usize = 0;
    while k < found.len()
        invariant
            k <= found.len(),
            forall|j: int| 0 <= j < found@.len() ==> #[trigger] found@[j] < accounts@.len(),
            out@.len() == k,
            forall|j: int| 0 <= j < k ==> snapshot_of(#[trigger] out@[j], accounts@[found@[j] as int]),
        decreases found.len() - k,
    {
        let i = found[k];
        out.push(snapshot(&accounts[i]));
        k = k + 1;
    }
    out
}

/// The last five activities as previews, oldest first.
fn recent_previews(activities: &Vec<ActivityRecord>) -> (out: Vec<ActivityPreview>)
    ensures
        preview_views(out@) == last_five(record_views(activities@)),
{
    let n = activities.len();
    let start: usize = if n > 5 {
        n - 5
    } else {
        0
    };
    let mut out: Vec<ActivityPreview> = Vec::new();
    let mut i: usize = start;
    while i < n
        invariant
            n == activities.len(),
            start <= i <= n,
            preview_views(out@) == record_views(activities@).subrange(start as int, i as int),
        decreases n - i,
    {
        let a = &activities[i];
        let ghost prior = out@;
        out.push(ActivityPreview {
            activity_type: owned(a.activity_type.as_str()),
            date: owned(a.date.as_str()),
            asset_symbol: copy_opt(&a.asset_id),
        });
        assert(preview_views(out@) =~= preview_views(prior).push(activities@[i as int]@));
        assert(record_views(activities@).subrange(start as int, i + 1) =~= record_views(activities@).subrange(
            start as int,
            i as int,
        ).push(activities@[i as int]@));
        i = i + 1;
    }
    assert(record_views(activities@).subrange(start as int, n as int) =~= last_five(record_views(activities@)));
    out
}

fn unresolved_output(args: DeleteAccountArgs, accounts: &Vec<Account>, res: Resolution) -> (r: DeleteAccountOutput)
    requires
        res@ == resolution(account_keys(accounts@), args.account_ref@),
        res@ !is Single,
        within(res@, accounts@.len() as int),
    ensures
        delete_output(r, args, accounts@, Seq::empty()),
{
    let (candidates, warning) = match &res {
        Resolution::Ambiguous(found) => {
            proof {
                assert(res@ == Resolved::Ambiguous(positions(found@)));
                assert forall|k: int| 0 <= k < found@.len() implies #[trigger] found@[k] < accounts@.len() by {
                    assert(positions(found@)[k] == found@[k] as int);
                    let ghost f = res@->Ambiguous_0;
                    assert(f == positions(found@));
                    assert(0 <= f[k] < accounts@.len());
                }
            }
            let mut w = owned("\"");
            push_str(&mut w, args.account_ref.as_str());
            push_str(&mut w, "\" matched ");
            let count = decimal_string(found.len());
            push_str(&mut w, count.as_str());
            push_str(&mut w, " accounts. Ask the user which one they mean by name + currency before retrying.");
            (snapshots_at(accounts, found), w)
        },
        Resolution::NotFound => {
            let mut w = owned("No account named \"");
            push_str(&mut w, args.account_ref.as_str());
            push_str(&mut w, "\" found. Double-check the name or list accounts first with get_accounts.");
            (Vec::new(), w)
        },
        _ => (Vec::new(), owned("accountRef is required — give the account name or id.")),
    };
    let mut warnings: Vec<String> = Vec::new();
    warnings.push(warning);
    let r = DeleteAccountOutput {
        target: AccountSnapshot::default(),
        impact: DeletionImpact::default(),
        reason: copy_opt(&args.reason),
        validation: ValidationResult { resolved: false, candidates, warnings, is_valid: false },
    };
    assert(strings_view(r.validation.warnings@) =~= seq![r.validation.warnings@[0]@]);
    r
}

impl<E: AiEnvironment> DeleteAccountTool<E> {
    /// The confirm card for deleting the account `args` names among the
    /// user's non-archived `accounts`; `activities` are the activities of
    /// the account the reference resolves to (see `resolve_account`), and
    /// are not read otherwise.
    pub fn build_output(
        &self,
        args: DeleteAccountArgs,
        accounts: &Vec<Account>,
        activities: &Vec<ActivityRecord>,
    ) -> (r: DeleteAccountOutput)
        ensures
            match resolution(account_keys(accounts@), args.account_ref@) {
                Resolved::Single(_) => delete_output(r, args, accounts@, activities@),
                _ => delete_output(r, args, accounts@, Seq::empty()),
            },
    {
        let res = crate::accounts::resolve_account(accounts, args.account_ref.as_str());
        let i = match res {
            Resolution::Single(i) => i,
            _ => {
                return unresolved_output(args, accounts, res);
            },
        };
        let account = &accounts[i];
        let n = activities.len();
        let recent = recent_previews(activities);
        let mut warnings: Vec<String> = Vec::new();
        if account.is_default {
            warnings.push(owned("This is your default account — another account will inherit the default flag after deletion."));
        }
        if n > 20 {
            let mut w = owned("Deleting this account will cascade-remove ");
            let count = decimal_string(n);
            push_str(&mut w, count.as_str());
            push_str(&mut w, " activities. Consider archiving instead if you want to keep history.");
            warnings.push(w);
        }
        proof {
            assert(strings_view(warnings@) =~= resolved_warnings(account.is_default, n as nat));
        }
        DeleteAccountOutput {
            target: snapshot(account),
            impact: DeletionImpact { activity_count: n, recent_activities: recent, is_default: account.is_default },
            reason: copy_opt(&args.reason),
            validation: ValidationResult {
                resolved: true,
                candidates: Vec::new(),
                warnings,
                is_valid: true,
            },
        }
    }
}

} // verus!
