//! Get Holdings: which holdings the listing shows, the total of their
//! values and the account name each row is shown under. Cash rows are left
//! out and the list is capped; the per-row amounts are converted to
//! floating point by the host.
use vstd::prelude::*;

use std::sync::Arc;

use crate::decimal::{add_checked, c_add, Dec};
use crate::text::{owned, str_eq};
use crate::tools::env::AiEnvironment;

verus! {

/// What the assistant passes.
pub struct GetHoldingsArgs {
    /// An account id, or "TOTAL" for all accounts.
    pub account_id: String,
    /// "table", "treemap" or "both".
    pub view_mode: String,
}

/// The account scope used when none is given.
pub fn default_account_id() -> (r: String)
    ensures
        r@ == "TOTAL"@,
{
    owned("TOTAL")
}

/// The view used when none is given.
pub fn default_view_mode() -> (r: String)
    ensures
        r@ == "treemap"@,
{
    owned("treemap")
}

/// How a holding is held.
#[derive(Debug, Clone, Copy, PartialEq, Eq, Structural)]
pub enum HoldingType {
    Cash,
    Security,
    AlternativeAsset,
}

pub open spec fn holding_type_name(t: HoldingType) -> Seq<char> {
    match t {
        HoldingType::Cash => "Cash"@,
        HoldingType::Security => "Security"@,
        HoldingType::AlternativeAsset => "AlternativeAsset"@,
    }
}

/// The label a holding type is listed under.
pub fn holding_type_label(t: HoldingType) -> (r: String)
    ensures
        r@ == holding_type_name(t),
{
    match t {
        HoldingType::Cash => owned("Cash"),
        HoldingType::Security => owned("Security"),
        HoldingType::AlternativeAsset => owned("AlternativeAsset"),
    }
}

/// The rows a listing shows, by position, and whether it was cut short.
pub struct HoldingSelection {
    pub positions: Vec<usize>,
    /// `Some(true)` when fewer rows are listed than were fetched.
    pub truncated: Option<bool>,
    /// The number fetched, when the listing was cut short.
    pub original_count: Option<usize>,
}

/// The positions below `k` of non-cash holdings, in order.
pub open spec fn non_cash_below(types: Seq<HoldingType>, k: int) -> Seq<int>
    decreases k,
{
    if k <= 0 {
        Seq::empty()
    } else {
        let p = non_cash_below(types, k - 1);
        if types[k - 1] != HoldingType::Cash {
            p.push(k - 1)
        } else {
            p
        }
    }
}

/// The first `max` non-cash holdings.
pub open spec fn listed(types: Seq<HoldingType>, max: int) -> Seq<int> {
    let p = non_cash_below(types, types.len() as int);
    if p.len() > max {
        p.take(max)
    } else {
        p
    }
}

/// Lists portfolio holdings for an account or all accounts.
pub struct GetHoldingsTool<E: AiEnvironment> {
    env: Arc<E>,
    base_currency: String,
}

impl<E: AiEnvironment> GetHoldingsTool<E> {
    pub fn new(env: Arc<E>, base_currency: String) -> (r: Self)
        ensures
            r.env() == env,
            r.base_currency() == base_currency@,
    {
        GetHoldingsTool { env, base_currency }
    }

    pub closed spec fn env(&self) -> Arc<E> {
        self.env
    }

    pub closed spec fn base_currency(&self) -> Seq<char> {
        self.base_currency@
    }

    /// The currency the listing reports in.
    pub fn currency(&self) -> (r: String)
        ensures
            r@ == self.base_currency(),
    {
        owned(self.base_currency.as_str())
    }

    /// The rows to list among holdings of the given types: the non-cash
    /// ones, at most `max`; cut short when fewer are listed than fetched.
    pub fn select(&self, types: &Vec<HoldingType>, max: usize) -> (r: HoldingSelection)
        ensures
            r.positions@.map_values(|p: usize| p as int) == listed(types@, max as int),
            r.truncated == (if types@.len() > r.positions@.len() {
                Some(true)
            } else {
                None::<bool>
            }),
            r.original_count == (if types@.len() > r.positions@.len() {
                Some(types@.len() as usize)
            } else {
                None::<usize>
            }),
    {
        let mut out: Vec<usize> = Vec::new();
        let mut k: usize = 0;
        while k < types.len()
            invariant
                k <= types.len(),
                out@.map_values(|p: usize| p as int) == {
                    let p = non_cash_below(types@, k as int);
                    if p.len() > max {
                        p.take(max as int)
                    } else {
                        p
                    }
                },
                out@.len() <= max,
            decreases types.len() - k,
        {
            let ghost before = non_cash_below(types@, k as int);
            if types[k] != HoldingType::Cash {
                if out.len() < max {
                    let ghost prior = out@;
                    assert(prior.map_values(|p: usize| p as int) == before);
                    out.push(k);
                    assert(out@ == prior.push(k));
                    assert(out@.map_values(|p: usize| p as int) =~= before.push(k as int));
                } else {
                    assert(before.push(k as int).take(max as int) =~= before.take(max as int));
                }
            }
            k = k + 1;
        }
        let n = types.len();
        if n > out.len() {
            HoldingSelection { positions: out, truncated: Some(true), original_count: Some(n) }
        } else {
            HoldingSelection { positions: out, truncated: None, original_count: None }
        }
    }
}


/// The values of the listed rows summed in listing order from zero with
/// rust_decimal's checked `+` (`None` where a sum overflows).
pub open spec fn listed_sum(values: Seq<Dec>, positions: Seq<usize>) -> Option<Dec>
    decreases positions.len(),
{
    if positions.len() == 0 {
        Some(Dec { mantissa: 0, scale: 0 })
    } else {
        match listed_sum(values, positions.drop_last()) {
            Some(s) => c_add(s, values[positions.last() as int]),
            None => None,
        }
    }
}

/// The total value of the listed rows (see [`listed_sum`]).
pub fn listed_total(values: &Vec<Dec>, positions: &Vec<usize>) -> (r: Option<Dec>)
    requires
        forall|i: int| 0 <= i < values@.len() ==> (#[trigger] values@[i]).valid(),
        forall|i: int| 0 <= i < positions@.len() ==> (#[trigger] positions@[i]) < values@.len(),
    ensures
        r == listed_sum(values@, positions@),
{
    let mut acc: Option<Dec> = Some(Dec::zero());
    let mut i: usize = 0;
    assert(positions@.take(0).len() == 0);
    while i < positions.len()
        invariant
            i <= positions.len(),
            forall|j: int| 0 <= j < values@.len() ==> (#[trigger] values@[j]).valid(),
            forall|j: int| 0 <= j < positions@.len() ==> (#[trigger] positions@[j]) < values@.len(),
            acc == listed_sum(values@, positions@.take(i as int)),
            acc matches Some(d) ==> d.valid(),
        decreases positions.len() - i,
    {
        assert(positions@.take(i + 1).drop_last() =~= positions@.take(i as int));
        assert(positions@.take(i + 1).last() == positions@[i as int]);
        let p = positions[i];
        acc = match acc {
            Some(s) => add_checked(s, values[p]),
            None => None,
        };
        i = i + 1;
    }
    assert(positions@.take(positions.len() as int) =~= positions@);
    acc
}

/// The name of the account `id` among `(id, name)` pairs (the last pair
/// with that id), or the id itself when no account has it.
pub open spec fn label_of(accounts: Seq<(Seq<char>, Seq<char>)>, id: Seq<char>) -> Seq<char>
    decreases accounts.len(),
{
    if accounts.len() == 0 {
        id
    } else if accounts.last().0 == id {
        accounts.last().1
    } else {
        label_of(accounts.drop_last(), id)
    }
}

pub open spec fn pairs_view(v: Seq<(String, String)>) -> Seq<(Seq<char>, Seq<char>)> {
    v.map_values(|e: (String, String)| (e.0@, e.1@))
}

/// The account name a row is shown under (see [`label_of`]).
pub fn account_label(accounts: &Vec<(String, String)>, account_id: &str) -> (r: String)
    ensures
        r@ == label_of(pairs_view(accounts@), account_id@),
{
    let ghost pv = pairs_view(accounts@);
    let mut j: usize = accounts.len();
    assert(pv.take(j as int) =~= pv);
    while j > 0
        invariant
            j <= accounts.len(),
            pv == pairs_view(accounts@),
            label_of(pv, account_id@) == label_of(pv.take(j as int), account_id@),
        decreases j,
    {
        assert(pv.take(j as int).drop_last() =~= pv.take(j - 1));
        assert(pv.take(j as int).last() == pv[j - 1]);
        if str_eq(accounts[j - 1].0.as_str(), account_id) {
            return owned(accounts[j - 1].1.as_str());
        }
        j = j - 1;
    }
    assert(pv.take(0).len() == 0);
    owned(account_id)
}
} // verus!
