//! The account record the tools read: the fields of a stored account that
//! drafts, diffs and resolution look at.
use vstd::prelude::*;

use crate::text::owned;
use crate::text::opt_chars;
use crate::tools::resolve::{key_views, resolution, resolve, within, KeyView, RefKey, Resolution};

verus! {

/// A stored account, as the account service returns it.
pub struct Account {
    pub id: String,
    pub name: String,
    /// SECURITIES, CASH or CRYPTOCURRENCY.
    pub account_type: String,
    pub group: Option<String>,
    pub currency: String,
    pub is_default: bool,
    pub is_active: bool,
    /// Free-form notes.
    pub meta: Option<String>,
}

/// A copy of an optional string.
pub fn copy_opt(o: &Option<String>) -> (r: Option<String>)
    ensures
        opt_chars(r) == opt_chars(*o),
{
    match o {
        Some(s) => Some(owned(s.as_str())),
        None => None,
    }
}

impl Account {
    /// The fields of the account, as seen by specifications.
    pub open spec fn same(&self, other: &Account) -> bool {
        &&& self.id@ == other.id@
        &&& self.name@ == other.name@
        &&& self.account_type@ == other.account_type@
        &&& opt_chars(self.group) == opt_chars(other.group)
        &&& self.currency@ == other.currency@
        &&& self.is_default == other.is_default
        &&& self.is_active == other.is_active
        &&& opt_chars(self.meta) == opt_chars(other.meta)
    }

    /// A field-for-field copy.
    pub fn duplicate(&self) -> (r: Account)
        ensures
            r.same(self),
    {
        Account {
            id: owned(self.id.as_str()),
            name: owned(self.name.as_str()),
            account_type: owned(self.account_type.as_str()),
            group: copy_opt(&self.group),
            currency: owned(self.currency.as_str()),
            is_default: self.is_default,
            is_active: self.is_active,
            meta: copy_opt(&self.meta),
        }
    }
}

/// What resolution reads of each account: id, and the name twice.
pub open spec fn account_keys(accounts: Seq<Account>) -> Seq<KeyView> {
    accounts.map_values(|a: Account| (a.id@, a.name@, a.name@))
}

fn account_refs(accounts: &Vec<Account>) -> (keys: Vec<RefKey>)
    ensures
        key_views(keys@) == account_keys(accounts@),
{
    let mut keys: Vec<RefKey> = Vec::new();
    let mut i: usize = 0;
    while i < accounts.len()
        invariant
            i <= accounts.len(),
            keys@.len() == i,
            key_views(keys@) == account_keys(accounts@.take(i as int)),
        decreases accounts.len() - i,
    {
        let a = &accounts[i];
        let ghost prior = keys@;
        keys.push(RefKey { id: owned(a.id.as_str()), name: owned(a.name.as_str()), alt: owned(a.name.as_str()) });
        proof {
            assert(keys@ == prior.push(keys@[i as int]));
            assert(accounts@.take(i + 1) == accounts@.take(i as int).push(accounts@[i as int]));
            assert(key_views(keys@) =~= key_views(prior).push(keys@[i as int]@));
            assert(account_keys(accounts@.take(i + 1)) =~= account_keys(accounts@.take(i as int)).push(
                (accounts@[i as int].id@, accounts@[i as int].name@, accounts@[i as int].name@),
            ));
        }
        i = i + 1;
    }
    assert(accounts@.take(accounts.len() as int) =~= accounts@);
    keys
}

/// Resolves an account reference (an id, a name, or part of a name,
/// compared case-insensitively) against the accounts.
pub fn resolve_account(accounts: &Vec<Account>, reference: &str) -> (r: Resolution)
    ensures
        r@ == resolution(account_keys(accounts@), reference@),
        within(r@, accounts@.len() as int),
{
    let keys = account_refs(accounts);
    resolve(&keys, reference)
}

} // verus!
