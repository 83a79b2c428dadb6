//! Turning the cloud's rows of broker investment transactions into local
//! activities. Each row is tied to the local account linked to the row's
//! broker account; the row's type decides the activity type (buys, sells,
//! dividends, fees, cash movements and transfers, the last two by the sign
//! of the amount, which the broker writes from its own side); rows that
//! cannot be classified are kept as `UNKNOWN` and flagged for review.
use vstd::prelude::*;

use std::str::FromStr;

use crate::accounts::copy_opt;
use crate::dates::{date_parses, parse_date, parsed_ymd, utc_rfc3339, utc_timestamp_text};
use crate::text::{decimal, decimal_string, opt_chars, owned, push_str, str_eq, to_lowercase, unicode_lowercase};

verus! {

/// A decimal number as rust_decimal holds it: `mantissa / 10^scale`.
#[derive(Clone, Copy, Debug, PartialEq, Eq, Structural)]
pub struct DecimalValue {
    pub mantissa: i128,
    pub scale: u32,
}

/// What rust_decimal's `Decimal::from_str` reads `s` as: the mantissa and
/// scale, or nothing when `s` is not a number.
pub uninterp spec fn decimal_parse(s: Seq<char>) -> Option<(i128, u32)>;

pub open spec fn as_decimal(p: Option<(i128, u32)>) -> Option<DecimalValue> {
    match p {
        Some((m, e)) => Some(DecimalValue { mantissa: m, scale: e }),
        None => None,
    }
}

/// Every rust_decimal value has a mantissa of at most 96 bits and a scale
/// of at most 28.
pub open spec fn decimal_in_range(d: DecimalValue) -> bool {
    -0x1_0000_0000_0000_0000_0000_0000 < d.mantissa < 0x1_0000_0000_0000_0000_0000_0000 && d.scale <= 28
}

/// rust_decimal's `Decimal::from_str(s)`, read back by `mantissa()` and
/// `scale()`. Trusted: the result depends on `s` alone, and (as the type's
/// documentation says of every value) its mantissa has at most 96 bits and
/// its scale is at most 28. Which strings parse, and to what, is not
/// stated.
#[verifier::external_body]
fn parse_decimal(s: &str) -> (r: Option<DecimalValue>)
    ensures
        r == as_decimal(decimal_parse(s@)),
        r matches Some(d) ==> decimal_in_range(d),
{
    match rust_decimal::Decimal::from_str(s) {
        Ok(d) => Some(DecimalValue { mantissa: d.mantissa(), scale: d.scale() }),
        Err(_) => None,
    }
}

/// Activities are stamped at noon UTC on their day, clear of any time
/// zone's shift of the date.
pub open spec fn noon_utc_stamp(date: Seq<char>) -> Seq<char> {
    match parsed_ymd(date, "%Y-%m-%d"@) {
        Some((y, m, d)) => utc_rfc3339(y, m, d, 12, 0, 0),
        None => Seq::empty(),
    }
}

/// The fields of one row of the cloud's investment transactions that the
/// mapping reads; a field is absent when the row lacks it or holds a value
/// of another kind.
pub struct PlaidTransaction {
    pub investment_transaction_id: Option<String>,
    pub item_id: Option<String>,
    /// The broker's account id.
    pub account_id: Option<String>,
    /// The broker's transaction type (`buy`, `sell`, `cash`, ...).
    pub plaid_type: Option<String>,
    /// Decimal texts; the amount is signed from the broker's side.
    pub amount: Option<String>,
    pub quantity: Option<String>,
    pub price: Option<String>,
    pub fees: Option<String>,
    pub iso_currency_code: Option<String>,
    pub unofficial_currency_code: Option<String>,
    /// `YYYY-MM-DD`.
    pub transaction_date: Option<String>,
    pub cancelled: Option<bool>,
    pub security_ticker_symbol: Option<String>,
    pub security_name: Option<String>,
    pub security_type: Option<String>,
    pub name: Option<String>,
}

pub ghost struct TxnView {
    pub investment_transaction_id: Option<Seq<char>>,
    pub item_id: Option<Seq<char>>,
    pub account_id: Option<Seq<char>>,
    pub plaid_type: Option<Seq<char>>,
    pub amount: Option<Seq<char>>,
    pub quantity: Option<Seq<char>>,
    pub price: Option<Seq<char>>,
    pub fees: Option<Seq<char>>,
    pub iso_currency_code: Option<Seq<char>>,
    pub unofficial_currency_code: Option<Seq<char>>,
    pub transaction_date: Option<Seq<char>>,
    pub cancelled: Option<bool>,
    pub security_ticker_symbol: Option<Seq<char>>,
    pub security_name: Option<Seq<char>>,
    pub security_type: Option<Seq<char>>,
    pub name: Option<Seq<char>>,
}

impl PlaidTransaction {
    pub open spec fn view(&self) -> TxnView {
        TxnView {
            investment_transaction_id: opt_chars(self.investment_transaction_id),
            item_id: opt_chars(self.item_id),
            account_id: opt_chars(self.account_id),
            plaid_type: opt_chars(self.plaid_type),
            amount: opt_chars(self.amount),
            quantity: opt_chars(self.quantity),
            price: opt_chars(self.price),
            fees: opt_chars(self.fees),
            iso_currency_code: opt_chars(self.iso_currency_code),
            unofficial_currency_code: opt_chars(self.unofficial_currency_code),
            transaction_date: opt_chars(self.transaction_date),
            cancelled: self.cancelled,
            security_ticker_symbol: opt_chars(self.security_ticker_symbol),
            security_name: opt_chars(self.security_name),
            security_type: opt_chars(self.security_type),
            name: opt_chars(self.name),
        }
    }
}

/// A local account and the broker account it was created from, if any.
pub struct LinkedAccount {
    pub id: String,
    pub provider_account_id: Option<String>,
}

pub type LinkedView = (Seq<char>, Option<Seq<char>>);

pub open spec fn linked_views(accounts: Seq<LinkedAccount>) -> Seq<LinkedView> {
    accounts.map_values(|a: LinkedAccount| (a.id@, opt_chars(a.provider_account_id)))
}

/// Whether an activity counts or was cancelled at the broker.
#[derive(Clone, Copy, Debug, PartialEq, Eq, Structural)]
pub enum ActivityStatus {
    Posted,
    Void,
}

/// What is known of the security a row trades, for the asset lookup.
pub struct AssetResolutionInput {
    pub symbol: Option<String>,
    pub name: Option<String>,
    pub instrument_type: Option<String>,
}

pub ghost struct AssetInputView {
    pub symbol: Option<Seq<char>>,
    pub name: Option<Seq<char>>,
    pub instrument_type: Option<Seq<char>>,
}

impl AssetResolutionInput {
    pub open spec fn view(&self) -> AssetInputView {
        AssetInputView {
            symbol: opt_chars(self.symbol),
            name: opt_chars(self.name),
            instrument_type: opt_chars(self.instrument_type),
        }
    }
}

/// A local activity built from a row.
pub struct NewActivity {
    pub id: Option<String>,
    pub account_id: String,
    pub asset: Option<AssetResolutionInput>,
    pub activity_type: String,
    /// RFC 3339, noon UTC on the row's date.
    pub activity_date: String,
    pub quantity: Option<DecimalValue>,
    pub unit_price: Option<DecimalValue>,
    pub currency: String,
    pub fee: Option<DecimalValue>,
    pub amount: Option<DecimalValue>,
    pub status: Option<ActivityStatus>,
    pub notes: Option<String>,
    pub needs_review: Option<bool>,
    pub source_system: Option<String>,
    pub source_record_id: Option<String>,
    pub source_group_id: Option<String>,
}

pub ghost struct ActivityView {
    pub id: Option<Seq<char>>,
    pub account_id: Seq<char>,
    pub asset: Option<AssetInputView>,
    pub activity_type: Seq<char>,
    pub activity_date: Seq<char>,
    pub quantity: Option<DecimalValue>,
    pub unit_price: Option<DecimalValue>,
    pub currency: Seq<char>,
    pub fee: Option<DecimalValue>,
    pub amount: Option<DecimalValue>,
    pub status: Option<ActivityStatus>,
    pub notes: Option<Seq<char>>,
    pub needs_review: Option<bool>,
    pub source_system: Option<Seq<char>>,
    pub source_record_id: Option<Seq<char>>,
    pub source_group_id: Option<Seq<char>>,
}

pub open spec fn asset_view(a: Option<AssetResolutionInput>) -> Option<AssetInputView> {
    match a {
        Some(x) => Some(x@),
        None => None,
    }
}

impl NewActivity {
    pub open spec fn view(&self) -> ActivityView {
        ActivityView {
            id: opt_chars(self.id),
            account_id: self.account_id@,
            asset: asset_view(self.asset),
            activity_type: self.activity_type@,
            activity_date: self.activity_date@,
            quantity: self.quantity,
            unit_price: self.unit_price,
            currency: self.currency@,
            fee: self.fee,
            amount: self.amount,
            status: self.status,
            notes: opt_chars(self.notes),
            needs_review: self.needs_review,
            source_system: opt_chars(self.source_system),
            source_record_id: opt_chars(self.source_record_id),
            source_group_id: opt_chars(self.source_group_id),
        }
    }
}

pub open spec fn activity_view(a: Option<NewActivity>) -> Option<ActivityView> {
    match a {
        Some(x) => Some(x@),
        None => None,
    }
}

/// One mapped row and the local account it belongs to.
pub struct MappedPlaidActivity {
    pub local_account_id: String,
    pub activity: NewActivity,
}

pub open spec fn mapped_views(v: Seq<MappedPlaidActivity>) -> Seq<(Seq<char>, ActivityView)> {
    v.map_values(|m: MappedPlaidActivity| (m.local_account_id@, m.activity@))
}

/// Counts of what happened to a batch of rows.
pub struct PlaidMappingSummary {
    pub fetched: usize,
    pub mapped: usize,
    /// Rows whose broker account is linked to no local account.
    pub skipped_unknown_account: usize,
    /// Mapped rows flagged for review.
    pub needs_review: usize,
}

/// The row's type, lower-cased; `unknown` when it has none.
pub open spec fn row_kind(t: TxnView) -> Seq<char> {
    match t.plaid_type {
        Some(s) => unicode_lowercase(s),
        None => "unknown"@,
    }
}

/// The ticker symbol, when present and not empty.
pub open spec fn ticker(t: TxnView) -> Option<Seq<char>> {
    match t.security_ticker_symbol {
        Some(s) => if s.len() > 0 {
            Some(s)
        } else {
            None
        },
        None => None,
    }
}

pub open spec fn parsed(s: Option<Seq<char>>) -> Option<DecimalValue> {
    match s {
        Some(t) => as_decimal(decimal_parse(t)),
        None => None,
    }
}

/// The sign of a decimal, zero when absent.
pub open spec fn sign_of(d: Option<DecimalValue>) -> int {
    match d {
        Some(v) => if v.mantissa > 0 {
            1
        } else if v.mantissa < 0 {
            -1
        } else {
            0
        },
        None => 0,
    }
}

pub open spec fn amount_sign(t: TxnView) -> int {
    sign_of(parsed(t.amount))
}

/// The local activity type of a row.
pub open spec fn activity_type_for(t: TxnView) -> Seq<char> {
    let k = row_kind(t);
    if k == "buy"@ {
        "BUY"@
    } else if k == "sell"@ {
        "SELL"@
    } else if k == "dividend"@ {
        "DIVIDEND"@
    } else if k == "fee"@ {
        "FEE"@
    } else if k == "cash"@ {
        if amount_sign(t) > 0 {
            "WITHDRAWAL"@
        } else if amount_sign(t) < 0 {
            "DEPOSIT"@
        } else {
            "UNKNOWN"@
        }
    } else if k == "transfer"@ {
        if amount_sign(t) > 0 {
            "TRANSFER_OUT"@
        } else if amount_sign(t) < 0 {
            "TRANSFER_IN"@
        } else {
            "UNKNOWN"@
        }
    } else {
        "UNKNOWN"@
    }
}

/// Why a row is flagged for review, if it is.
pub open spec fn review_reason(t: TxnView) -> Option<Seq<char>> {
    let k = row_kind(t);
    if k == "buy"@ {
        if ticker(t) is None {
            Some("BUY with no security symbol"@)
        } else {
            None
        }
    } else if k == "sell"@ {
        if ticker(t) is None {
            Some("SELL with no security symbol"@)
        } else {
            None
        }
    } else if k == "dividend"@ || k == "fee"@ {
        None
    } else if k == "cash"@ {
        if amount_sign(t) == 0 {
            Some("Cash row with zero amount"@)
        } else {
            None
        }
    } else if k == "transfer"@ {
        if amount_sign(t) == 0 {
            Some("Transfer with zero amount"@)
        } else {
            None
        }
    } else {
        Some("Unmapped Plaid investment-transaction type"@)
    }
}

/// The security a row binds: buys, sells and dividends that name a ticker.
pub open spec fn asset_for(t: TxnView) -> Option<AssetInputView> {
    let k = row_kind(t);
    if (k == "buy"@ || k == "sell"@ || k == "dividend"@) && ticker(t) is Some {
        Some(
            AssetInputView { symbol: ticker(t), name: t.security_name, instrument_type: t.security_type },
        )
    } else {
        None
    }
}

/// The review reason and the row's name, joined by `": "` when both are
/// there.
pub open spec fn notes_for(t: TxnView) -> Option<Seq<char>> {
    match (review_reason(t), t.name) {
        (Some(r), Some(n)) => Some(r + ": "@ + n),
        (Some(r), None) => Some(r),
        (None, Some(n)) => Some(n),
        (None, None) => None,
    }
}

/// The ISO currency, else the unofficial one, else `USD`.
pub open spec fn currency_for(t: TxnView) -> Seq<char> {
    match t.iso_currency_code {
        Some(c) => c,
        None => match t.unofficial_currency_code {
            Some(c) => c,
            None => "USD"@,
        },
    }
}

pub open spec fn abs_value(d: Option<DecimalValue>) -> Option<DecimalValue> {
    match d {
        Some(v) => Some(
            DecimalValue {
                mantissa: (if v.mantissa < 0 {
                    -v.mantissa
                } else {
                    v.mantissa as int
                }) as i128,
                scale: v.scale,
            },
        ),
        None => None,
    }
}

/// The activity a row becomes in the local account `local`: none when the
/// row has no transaction id or no date that parses.
pub open spec fn mapped_activity(t: TxnView, local: Seq<char>) -> Option<ActivityView> {
    match (t.investment_transaction_id, t.transaction_date) {
        (Some(id), Some(date)) => if date_parses(date, "%Y-%m-%d"@) {
            Some(
                ActivityView {
                    id: Some("plaid-"@ + id),
                    account_id: local,
                    asset: asset_for(t),
                    activity_type: activity_type_for(t),
                    activity_date: noon_utc_stamp(date),
                    quantity: abs_value(parsed(t.quantity)),
                    unit_price: parsed(t.price),
                    currency: currency_for(t),
                    fee: parsed(t.fees),
                    amount: abs_value(parsed(t.amount)),
                    status: Some(
                        if t.cancelled == Some(true) {
                            ActivityStatus::Void
                        } else {
                            ActivityStatus::Posted
                        },
                    ),
                    notes: notes_for(t),
                    needs_review: Some(review_reason(t) is Some),
                    source_system: Some("PLAID"@),
                    source_record_id: Some(id),
                    source_group_id: t.item_id,
                },
            )
        } else {
            None
        },
        _ => None,
    }
}

/// Whether `v` has the magnitude and scale of `w`.
pub open spec fn same_magnitude(v: DecimalValue, w: Option<DecimalValue>) -> bool {
    match w {
        Some(x) => (v.mantissa == x.mantissa || v.mantissa == -x.mantissa) && v.scale == x.scale,
        None => false,
    }
}

/// Amounts and quantities are stored unsigned: whatever sign the broker
/// wrote, a mapped activity's amount and quantity are not negative, and
/// keep the magnitude and scale of the row's figures.
pub proof fn lemma_mapped_figures_unsigned(t: TxnView, local: Seq<char>)
    requires
        parsed(t.amount) matches Some(d) ==> decimal_in_range(d),
        parsed(t.quantity) matches Some(d) ==> decimal_in_range(d),
        mapped_activity(t, local) is Some,
    ensures
        ({
            let a = mapped_activity(t, local).unwrap();
            &&& a.amount matches Some(v) ==> v.mantissa >= 0 && same_magnitude(v, parsed(t.amount))
            &&& a.quantity matches Some(v) ==> v.mantissa >= 0 && same_magnitude(v, parsed(t.quantity))
            &&& a.amount is Some <==> parsed(t.amount) is Some
            &&& a.quantity is Some <==> parsed(t.quantity) is Some
        }),
{
}

/// Every row is accounted for at most once: the rows mapped and the rows
/// passed over for an unlinked account together number at most the rows
/// fetched, and a row is flagged for review only if it was mapped.
pub proof fn lemma_rows_accounted(txns: Seq<TxnView>, accounts: Seq<LinkedView>, k: int)
    requires
        0 <= k <= txns.len(),
    ensures
        mapped_rows(txns, accounts, k).len() + unknown_account_rows(txns, accounts, k) <= k,
        reviewed_rows(txns, accounts, k) <= mapped_rows(txns, accounts, k).len(),
    decreases k,
{
    if k > 0 {
        lemma_rows_accounted(txns, accounts, k - 1);
    }
}

/// A mapped activity always belongs to the local account linked to its
/// row's broker account, and carries the row's transaction id as its
/// source record.
pub proof fn lemma_mapped_rows_linked(txns: Seq<TxnView>, accounts: Seq<LinkedView>, k: int, j: int)
    requires
        0 <= k <= txns.len(),
        0 <= j < mapped_rows(txns, accounts, k).len(),
    ensures
        exists|i: int|
            0 <= i < k && #[trigger] row_account(txns[i], accounts) == Some(mapped_rows(txns, accounts, k)[j].0)
                && mapped_rows(txns, accounts, k)[j].1.source_record_id == txns[i].investment_transaction_id
                && mapped_rows(txns, accounts, k)[j].1.account_id == mapped_rows(txns, accounts, k)[j].0,
    decreases k,
{
    let prev = mapped_rows(txns, accounts, k - 1);
    if j < prev.len() {
        lemma_mapped_rows_linked(txns, accounts, k - 1, j);
        assert(mapped_rows(txns, accounts, k)[j] == prev[j]);
    } else {
        let i = k - 1;
        assert(row_account(txns[i], accounts) == Some(mapped_rows(txns, accounts, k)[j].0));
    }
}

fn decimal_field(o: &Option<String>) -> (r: Option<DecimalValue>)
    ensures
        r == parsed(opt_chars(*o)),
        r matches Some(d) ==> decimal_in_range(d),
{
    match o {
        Some(s) => parse_decimal(s.as_str()),
        None => None,
    }
}

fn absolute(d: Option<DecimalValue>) -> (r: Option<DecimalValue>)
    requires
        d matches Some(v) ==> decimal_in_range(v),
    ensures
        r == abs_value(d),
{
    match d {
        Some(v) => Some(
            DecimalValue {
                mantissa: if v.mantissa < 0 {
                    -v.mantissa
                } else {
                    v.mantissa
                },
                scale: v.scale,
            },
        ),
        None => None,
    }
}

fn is_kind(kind: &String, lit: &str) -> (r: bool)
    ensures
        r == (kind@ == lit@),
{
    str_eq(kind.as_str(), lit)
}

/// The activity type and review reason of a row, decided as
/// [`activity_type_for`] and [`review_reason`] say.
fn classify(kind: &String, has_symbol: bool, sign: i8) -> (r: (String, Option<String>))
    requires
        -1 <= sign <= 1,
    ensures
        forall|t: TxnView|
            row_kind(t) == kind@ && (ticker(t) is Some) == has_symbol && amount_sign(t) == sign ==> {
                &&& r.0@ == activity_type_for(t)
                &&& opt_chars(r.1) == review_reason(t)
            },
{
    if is_kind(kind, "buy") {
        (owned("BUY"), if has_symbol { None } else { Some(owned("BUY with no security symbol")) })
    } else if is_kind(kind, "sell") {
        (owned("SELL"), if has_symbol { None } else { Some(owned("SELL with no security symbol")) })
    } else if is_kind(kind, "dividend") {
        (owned("DIVIDEND"), None)
    } else if is_kind(kind, "fee") {
        (owned("FEE"), None)
    } else if is_kind(kind, "cash") {
        if sign > 0 {
            (owned("WITHDRAWAL"), None)
        } else if sign < 0 {
            (owned("DEPOSIT"), None)
        } else {
            (owned("UNKNOWN"), Some(owned("Cash row with zero amount")))
        }
    } else if is_kind(kind, "transfer") {
        if sign > 0 {
            (owned("TRANSFER_OUT"), None)
        } else if sign < 0 {
            (owned("TRANSFER_IN"), None)
        } else {
            (owned("UNKNOWN"), Some(owned("Transfer with zero amount")))
        }
    } else {
        (owned("UNKNOWN"), Some(owned("Unmapped Plaid investment-transaction type")))
    }
}

fn notes_text(reason: &Option<String>, name: &Option<String>) -> (r: Option<String>)
    ensures
        opt_chars(r) == match (opt_chars(*reason), opt_chars(*name)) {
            (Some(r), Some(n)) => Some(r + ": "@ + n),
            (Some(r), None) => Some(r),
            (None, Some(n)) => Some(n),
            (None, None) => None,
        },
{
    match (reason, name) {
        (Some(r), Some(n)) => {
            let mut s = owned(r.as_str());
            push_str(&mut s, ": ");
            push_str(&mut s, n.as_str());
            Some(s)
        },
        (Some(r), None) => Some(owned(r.as_str())),
        (None, Some(n)) => Some(owned(n.as_str())),
        (None, None) => None,
    }
}

/// Maps one row to an activity of the local account `local_account_id`,
/// counting it in `summary` when it is flagged for review.
fn map_single(raw: &PlaidTransaction, local_account_id: &str, summary: &mut PlaidMappingSummary) -> (r:
    Option<NewActivity>)
    requires
        old(summary).needs_review < usize::MAX,
    ensures
        activity_view(r) == mapped_activity(raw@, local_account_id@),
        final(summary).fetched == old(summary).fetched,
        final(summary).mapped == old(summary).mapped,
        final(summary).skipped_unknown_account == old(summary).skipped_unknown_account,
        final(summary).needs_review == old(summary).needs_review + if r is Some && review_reason(raw@) is Some {
            1int
        } else {
            0int
        },
{
    let ghost t = raw@;
    let txn_id = match &raw.investment_transaction_id {
        Some(s) => s.clone(),
        None => return None,
    };
    let item_id = copy_opt(&raw.item_id);
    let kind: String = match &raw.plaid_type {
        Some(s) => to_lowercase(s.as_str()),
        None => owned("unknown"),
    };
    let amount_signed = decimal_field(&raw.amount);
    let quantity = absolute(decimal_field(&raw.quantity));
    let price = decimal_field(&raw.price);
    let fees = decimal_field(&raw.fees);
    let currency = match &raw.iso_currency_code {
        Some(c) => c.clone(),
        None => match &raw.unofficial_currency_code {
            Some(c) => c.clone(),
            None => owned("USD"),
        },
    };
    let date_str = match &raw.transaction_date {
        Some(d) => d,
        None => return None,
    };
    let day = match parse_date(date_str.as_str(), "%Y-%m-%d") {
        Some(d) => d,
        None => return None,
    };
    let activity_date = match utc_timestamp_text(day.year, day.month, day.day, 12, 0, 0) {
        Some(t) => t,
        None => return None,
    };
    let cancelled = match raw.cancelled {
        Some(b) => b,
        None => false,
    };
    let has_symbol = match &raw.security_ticker_symbol {
        Some(s) => !s.as_str().is_empty(),
        None => false,
    };
    let sign: i8 = match amount_signed {
        Some(a) => if a.mantissa > 0 {
            1
        } else if a.mantissa < 0 {
            -1
        } else {
            0
        },
        None => 0,
    };
    assert(row_kind(t) == kind@);
    assert((ticker(t) is Some) == has_symbol);
    assert(amount_sign(t) == sign);
    let (activity_type, reason) = classify(&kind, has_symbol, sign);
    let binds = has_symbol && (is_kind(&kind, "buy") || is_kind(&kind, "sell") || is_kind(&kind, "dividend"));
    let asset = if binds {
        Some(
            AssetResolutionInput {
                symbol: copy_opt(&raw.security_ticker_symbol),
                name: copy_opt(&raw.security_name),
                instrument_type: copy_opt(&raw.security_type),
            },
        )
    } else {
        None
    };
    let needs_review = reason.is_some();
    if needs_review {
        summary.needs_review = summary.needs_review + 1;
    }
    let notes = notes_text(&reason, &raw.name);
    let mut id = owned("plaid-");
    push_str(&mut id, txn_id.as_str());
    let activity = NewActivity {
        id: Some(id),
        account_id: owned(local_account_id),
        asset,
        activity_type,
        activity_date,
        quantity,
        unit_price: price,
        currency,
        fee: fees,
        amount: absolute(amount_signed),
        status: Some(
            if cancelled {
                ActivityStatus::Void
            } else {
                ActivityStatus::Posted
            },
        ),
        notes,
        needs_review: Some(needs_review),
        source_system: Some(owned("PLAID")),
        source_record_id: Some(txn_id),
        source_group_id: item_id,
    };
    assert(activity@ == mapped_activity(t, local_account_id@).unwrap());
    Some(activity)
}

/// The local account created from broker account `pid`; when several
/// are, the last of them.
pub open spec fn local_account(accounts: Seq<LinkedView>, pid: Seq<char>) -> Option<Seq<char>>
    decreases accounts.len(),
{
    if accounts.len() == 0 {
        None
    } else if accounts.last().1 == Some(pid) {
        Some(accounts.last().0)
    } else {
        local_account(accounts.drop_last(), pid)
    }
}

/// The local account a row belongs to, if its broker account is linked.
pub open spec fn row_account(t: TxnView, accounts: Seq<LinkedView>) -> Option<Seq<char>> {
    match t.account_id {
        Some(pid) => local_account(accounts, pid),
        None => None,
    }
}

/// The activities the first `k` rows become, with their local accounts.
pub open spec fn mapped_rows(txns: Seq<TxnView>, accounts: Seq<LinkedView>, k: int) -> Seq<
    (Seq<char>, ActivityView),
>
    decreases k,
{
    if k <= 0 {
        Seq::empty()
    } else {
        let prev = mapped_rows(txns, accounts, k - 1);
        match row_account(txns[k - 1], accounts) {
            Some(local) => match mapped_activity(txns[k - 1], local) {
                Some(a) => prev.push((local, a)),
                None => prev,
            },
            None => prev,
        }
    }
}

/// How many of the first `k` rows name a broker account that no local
/// account is linked to.
pub open spec fn unknown_account_rows(txns: Seq<TxnView>, accounts: Seq<LinkedView>, k: int) -> nat
    decreases k,
{
    if k <= 0 {
        0
    } else {
        unknown_account_rows(txns, accounts, k - 1) + if txns[k - 1].account_id is Some && row_account(
            txns[k - 1],
            accounts,
        ) is None {
            1nat
        } else {
            0nat
        }
    }
}

/// How many of the first `k` rows are mapped and flagged for review.
pub open spec fn reviewed_rows(txns: Seq<TxnView>, accounts: Seq<LinkedView>, k: int) -> nat
    decreases k,
{
    if k <= 0 {
        0
    } else {
        reviewed_rows(txns, accounts, k - 1) + match row_account(txns[k - 1], accounts) {
            Some(local) => if mapped_activity(txns[k - 1], local) is Some && review_reason(txns[k - 1]) is Some {
                1nat
            } else {
                0nat
            },
            None => 0nat,
        }
    }
}

pub open spec fn txn_views(txns: Seq<PlaidTransaction>) -> Seq<TxnView> {
    txns.map_values(|t: PlaidTransaction| t@)
}

fn local_account_for(accounts: &Vec<LinkedAccount>, pid: &str) -> (r: Option<String>)
    ensures
        opt_chars(r) == local_account(linked_views(accounts@), pid@),
{
    let ghost views = linked_views(accounts@);
    let mut i = accounts.len();
    assert(views.take(i as int) =~= views);
    while i > 0
        invariant
            i <= accounts.len(),
            views == linked_views(accounts@),
            local_account(views.take(i as int), pid@) == local_account(views, pid@),
        decreases i,
    {
        let ghost before = views.take(i as int);
        i = i - 1;
        assert(before.drop_last() =~= views.take(i as int));
        let hit = match &accounts[i].provider_account_id {
            Some(p) => str_eq(p.as_str(), pid),
            None => false,
        };
        if hit {
            return Some(accounts[i].id.clone());
        }
    }
    assert(views.take(0) =~= Seq::<LinkedView>::empty());
    None
}

/// Maps a batch of rows to activities of the local accounts they belong
/// to, in row order. Rows without a broker account id are passed over;
/// rows whose broker account is linked to no local account are counted
/// and passed over; rows without a transaction id or a readable date are
/// passed over.
pub fn map_plaid_investment_transactions(txns: &Vec<PlaidTransaction>, accounts: &Vec<LinkedAccount>) -> (r: (
    Vec<MappedPlaidActivity>,
    PlaidMappingSummary,
))
    ensures
        mapped_views(r.0@) == mapped_rows(txn_views(txns@), linked_views(accounts@), txns@.len() as int),
        r.1.fetched == txns@.len(),
        r.1.mapped == r.0@.len(),
        r.1.skipped_unknown_account == unknown_account_rows(
            txn_views(txns@),
            linked_views(accounts@),
            txns@.len() as int,
        ),
        r.1.needs_review == reviewed_rows(txn_views(txns@), linked_views(accounts@), txns@.len() as int),
{
    let ghost tv = txn_views(txns@);
    let ghost lv = linked_views(accounts@);
    let mut summary = PlaidMappingSummary {
        fetched: txns.len(),
        mapped: 0,
        skipped_unknown_account: 0,
        needs_review: 0,
    };
    let mut out: Vec<MappedPlaidActivity> = Vec::new();
    let mut i: usize = 0;
    while i < txns.len()
        invariant
            i <= txns.len(),
            tv == txn_views(txns@),
            lv == linked_views(accounts@),
            summary.fetched == txns@.len(),
            summary.mapped == out@.len(),
            mapped_views(out@) == mapped_rows(tv, lv, i as int),
            summary.skipped_unknown_account == unknown_account_rows(tv, lv, i as int),
            summary.needs_review == reviewed_rows(tv, lv, i as int),
            summary.mapped <= i,
            summary.skipped_unknown_account <= i,
            summary.needs_review <= i,
        decreases txns.len() - i,
    {
        let raw = &txns[i];
        assert(tv[i as int] == raw@);
        match &raw.account_id {
            None => {},
            Some(pid) => {
                match local_account_for(accounts, pid.as_str()) {
                    None => {
                        summary.skipped_unknown_account = summary.skipped_unknown_account + 1;
                    },
                    Some(local) => {
                        let mapped = map_single(raw, local.as_str(), &mut summary);
                        match mapped {
                            Some(activity) => {
                                let ghost before = out@;
                                out.push(MappedPlaidActivity { local_account_id: local, activity });
                                summary.mapped = summary.mapped + 1;
                                assert(mapped_views(out@) =~= mapped_views(before).push(
                                    (out@.last().local_account_id@, out@.last().activity@),
                                ));
                            },
                            None => {},
                        }
                    },
                }
            },
        }
        i = i + 1;
    }
    (out, summary)
}


/// What an ingest did: the mapping counts, what the upsert wrote, the
/// accounts touched, the assets created on the way, and per-account errors
/// (by local account id) that did not stop the other accounts.
pub struct PlaidIngestSummary {
    pub mapping: PlaidMappingSummary,
    pub created: usize,
    pub updated: usize,
    pub skipped: usize,
    pub accounts_touched: Vec<String>,
    pub assets_created: u32,
    pub per_account_errors: Vec<(String, String)>,
}

/// The local accounts of mapped rows, each once, in order of its first row.
pub open spec fn accounts_in(ms: Seq<(Seq<char>, ActivityView)>) -> Seq<Seq<char>>
    decreases ms.len(),
{
    if ms.len() == 0 {
        Seq::empty()
    } else {
        let p = accounts_in(ms.drop_last());
        if p.contains(ms.last().0) {
            p
        } else {
            p.push(ms.last().0)
        }
    }
}

/// The activities of one account's rows, in row order.
pub open spec fn rows_of(ms: Seq<(Seq<char>, ActivityView)>, account: Seq<char>) -> Seq<ActivityView>
    decreases ms.len(),
{
    if ms.len() == 0 {
        Seq::empty()
    } else {
        let p = rows_of(ms.drop_last(), account);
        if ms.last().0 == account {
            p.push(ms.last().1)
        } else {
            p
        }
    }
}

/// Mapped rows grouped by local account.
pub open spec fn by_account(ms: Seq<(Seq<char>, ActivityView)>) -> Seq<(Seq<char>, Seq<ActivityView>)> {
    accounts_in(ms).map_values(|a: Seq<char>| (a, rows_of(ms, a)))
}

pub open spec fn groups_view(g: Seq<(String, Vec<NewActivity>)>) -> Seq<(Seq<char>, Seq<ActivityView>)> {
    g.map_values(|e: (String, Vec<NewActivity>)| (e.0@, e.1@.map_values(|a: NewActivity| a@)))
}

proof fn lemma_absent_account_has_no_rows(ms: Seq<(Seq<char>, ActivityView)>, account: Seq<char>)
    requires
        !accounts_in(ms).contains(account),
    ensures
        rows_of(ms, account) == Seq::<ActivityView>::empty(),
    decreases ms.len(),
{
    if ms.len() > 0 {
        let p = accounts_in(ms.drop_last());
        if p.contains(account) {
            let k = choose|k: int| 0 <= k < p.len() && p[k] == account;
            if !p.contains(ms.last().0) {
                assert(accounts_in(ms)[k] == account);
            } else {
                assert(accounts_in(ms)[k] == account);
            }
        }
        if ms.last().0 == account {
            if !p.contains(ms.last().0) {
                assert(accounts_in(ms)[p.len() as int] == account);
            }
        }
        lemma_absent_account_has_no_rows(ms.drop_last(), account);
    }
}

/// Each account gets exactly one group.
pub proof fn lemma_accounts_distinct(ms: Seq<(Seq<char>, ActivityView)>)
    ensures
        forall|a: int, b: int| 0 <= a < b < accounts_in(ms).len() ==> accounts_in(ms)[a] != accounts_in(ms)[b],
    decreases ms.len(),
{
    if ms.len() > 0 {
        lemma_accounts_distinct(ms.drop_last());
        let p = accounts_in(ms.drop_last());
        if !p.contains(ms.last().0) {
            assert forall|a: int, b: int| 0 <= a < b < accounts_in(ms).len() implies accounts_in(ms)[a]
                != accounts_in(ms)[b] by {
                if b == p.len() {
                    assert(accounts_in(ms)[a] == p[a]);
                }
            }
        }
    }
}

/// Every row's account has a group.
pub proof fn lemma_every_row_grouped(ms: Seq<(Seq<char>, ActivityView)>)
    ensures
        forall|i: int| 0 <= i < ms.len() ==> accounts_in(ms).contains(#[trigger] ms[i].0),
    decreases ms.len(),
{
    if ms.len() > 0 {
        let p = ms.drop_last();
        lemma_every_row_grouped(p);
        let acc = accounts_in(ms);
        assert forall|i: int| 0 <= i < ms.len() implies acc.contains(#[trigger] ms[i].0) by {
            if i < ms.len() - 1 {
                assert(ms[i] == p[i]);
                assert(accounts_in(p).contains(p[i].0));
                let k = choose|k: int| 0 <= k < accounts_in(p).len() && accounts_in(p)[k] == p[i].0;
                assert(acc[k] == p[i].0);
            } else if !accounts_in(p).contains(ms.last().0) {
                assert(acc[acc.len() - 1] == ms.last().0);
            }
        }
    }
}

/// Groups mapped rows by their local account (see [`by_account`]): one
/// group per account, in order of its first row, holding that account's
/// activities in row order.
pub fn group_by_account(mapped: Vec<MappedPlaidActivity>) -> (r: Vec<(String, Vec<NewActivity>)>)
    ensures
        groups_view(r@) == by_account(mapped_views(mapped@)),
{
    let ghost all = mapped_views(mapped@);
    let mut rest = mapped;
    let mut groups: Vec<(String, Vec<NewActivity>)> = Vec::new();
    let ghost mut i: int = 0;
    assert(all.take(0) =~= Seq::<(Seq<char>, ActivityView)>::empty());
    assert(groups_view(groups@) =~= by_account(all.take(0)));
    while rest.len() > 0
        invariant
            0 <= i <= all.len(),
            mapped_views(rest@) == all.skip(i),
            groups_view(groups@) == by_account(all.take(i)),
        decreases rest.len(),
    {
        assert(mapped_views(rest@).len() == rest@.len());
        assert(i < all.len());
        let ghost old_rest = rest@;
        let m = rest.remove(0);
        let ghost cur = all.take(i);
        let ghost next = all.take(i + 1);
        assert(mapped_views(old_rest)[0] == all.skip(i)[0]);
        assert(all.skip(i)[0] == all[i]);
        assert((m.local_account_id@, m.activity@) == all[i]);
        assert(next.drop_last() =~= cur);
        assert(next.last() == all[i]);
        assert(rest@ =~= old_rest.subrange(1, old_rest.len() as int));
        assert forall|j: int| 0 <= j < rest@.len() implies #[trigger] mapped_views(rest@)[j] == all.skip(i + 1)[j] by {
            assert(rest@[j] == old_rest[j + 1]);
            assert(mapped_views(old_rest)[j + 1] == all.skip(i)[j + 1]);
        }
        assert(mapped_views(rest@) =~= all.skip(i + 1));
        let ghost keys = accounts_in(cur);
        assert(groups_view(groups@).len() == groups@.len());
        assert(by_account(cur).len() == keys.len());
        let mut k: usize = 0;
        let mut found = false;
        while k < groups.len() && !found
            invariant
                groups_view(groups@) == by_account(cur),
                keys == accounts_in(cur),
                keys.len() == groups@.len(),
                k <= groups.len(),
                found ==> k < groups.len() && keys[k as int] == m.local_account_id@,
                !found ==> forall|j: int| 0 <= j < k ==> keys[j] != m.local_account_id@,
            decreases groups.len() - k + if found { 0int } else { 1int },
        {
            assert(groups_view(groups@)[k as int].0 == groups@[k as int].0@);
            assert(groups_view(groups@)[k as int].0 == keys[k as int]);
            if str_eq(groups[k].0.as_str(), m.local_account_id.as_str()) {
                found = true;
            } else {
                k = k + 1;
            }
        }
        let ghost before = groups_view(groups@);
        if found {
            let ghost acct = m.local_account_id@;
            assert(keys[k as int] == acct);
            assert(keys.contains(acct));
            let ghost old_groups = groups@;
            proof {
                lemma_accounts_distinct(cur);
            }
            let (name, mut list) = groups.remove(k);
            assert(before[k as int] == (name@, list@.map_values(|a: NewActivity| a@)));
            let ghost old_list = list@.map_values(|a: NewActivity| a@);
            let ghost view = m.activity@;
            list.push(m.activity);
            assert(list@.map_values(|a: NewActivity| a@) =~= old_list.push(view));
            let ghost entry = (name, list);
            groups.insert(k, (name, list));
            assert(groups@ =~= old_groups.update(k as int, entry));
            assert(accounts_in(next) == keys);
            assert forall|j: int| 0 <= j < keys.len() implies #[trigger] groups_view(groups@)[j] == (
            keys[j], rows_of(next, keys[j])) by {
                if j != k {
                    assert(groups@[j] == old_groups[j]);
                    assert(groups_view(groups@)[j] == before[j]);
                    assert(keys[j] != keys[k as int]);
                } else {
                    assert(groups@[j] == entry);
                }
            }
            assert(groups_view(groups@) =~= by_account(next));
        } else {
            let ghost acct = m.local_account_id@;
            assert(!keys.contains(acct)) by {
                if keys.contains(acct) {
                    let j = choose|j: int| 0 <= j < keys.len() && keys[j] == acct;
                    assert(groups_view(groups@)[j].0 == keys[j]);
                }
            }
            proof {
                lemma_absent_account_has_no_rows(cur, acct);
            }
            let mut list: Vec<NewActivity> = Vec::new();
            let ghost view = m.activity@;
            list.push(m.activity);
            assert(list@.map_values(|a: NewActivity| a@) =~= seq![view]);
            let name = m.local_account_id;
            groups.push((name, list));
            assert(accounts_in(next) == keys.push(acct));
            assert forall|j: int| 0 <= j < keys.len() + 1 implies #[trigger] groups_view(groups@)[j] == (
            accounts_in(next)[j], rows_of(next, accounts_in(next)[j])) by {
                if j < keys.len() {
                    assert(groups_view(groups@)[j] == before[j]);
                    assert(keys[j] != acct);
                }
            }
            assert(groups_view(groups@) =~= by_account(next));
        }
        proof {
            i = i + 1;
        }
    }
    assert(i == all.len());
    assert(all.take(i) =~= all);
    groups
}

/// The id an activity is upserted under: its own, or `plaid-<account>-<n>`
/// where `n` counts the upserts gathered before it.
pub open spec fn upsert_id_of(id: Option<Seq<char>>, account_id: Seq<char>, n: nat) -> Seq<char> {
    match id {
        Some(x) => x,
        None => "plaid-"@ + account_id + "-"@ + decimal(n),
    }
}

pub fn plaid_upsert_id(id: &Option<String>, account_id: &str, n: usize) -> (r: String)
    ensures
        r@ == upsert_id_of(opt_chars(*id), account_id@, n as nat),
{
    match id {
        Some(x) => owned(x.as_str()),
        None => {
            let mut s = owned("plaid-");
            push_str(&mut s, account_id);
            push_str(&mut s, "-");
            let digits = decimal_string(n);
            push_str(&mut s, digits.as_str());
            s
        },
    }
}
/// One prepared activity: the activity with the asset id the preparation
/// resolved for it, if any.
pub struct PreparedActivity {
    pub activity: NewActivity,
    pub resolved_asset_id: Option<String>,
}

/// What preparing one account's activities gave back: the prepared
/// activities, in order, and how many asset rows had to be created.
pub struct PreparedBatch {
    pub prepared: Vec<PreparedActivity>,
    pub assets_created: u32,
}

/// One row of the bulk upsert.
pub struct ActivityUpsert {
    pub id: String,
    pub account_id: String,
    pub asset_id: Option<String>,
    pub activity_type: String,
    pub activity_date: String,
    pub quantity: Option<DecimalValue>,
    pub unit_price: Option<DecimalValue>,
    pub currency: String,
    pub fee: Option<DecimalValue>,
    pub amount: Option<DecimalValue>,
    pub status: Option<ActivityStatus>,
    pub notes: Option<String>,
    pub needs_review: Option<bool>,
    pub source_system: Option<String>,
    pub source_record_id: Option<String>,
    pub source_group_id: Option<String>,
    pub import_run_id: Option<String>,
}

pub ghost struct UpsertView {
    pub id: Seq<char>,
    pub account_id: Seq<char>,
    pub asset_id: Option<Seq<char>>,
    pub activity_type: Seq<char>,
    pub activity_date: Seq<char>,
    pub quantity: Option<DecimalValue>,
    pub unit_price: Option<DecimalValue>,
    pub currency: Seq<char>,
    pub fee: Option<DecimalValue>,
    pub amount: Option<DecimalValue>,
    pub status: Option<ActivityStatus>,
    pub notes: Option<Seq<char>>,
    pub needs_review: Option<bool>,
    pub source_system: Option<Seq<char>>,
    pub source_record_id: Option<Seq<char>>,
    pub source_group_id: Option<Seq<char>>,
    pub import_run_id: Option<Seq<char>>,
}

impl ActivityUpsert {
    pub open spec fn view(&self) -> UpsertView {
        UpsertView {
            id: self.id@,
            account_id: self.account_id@,
            asset_id: opt_chars(self.asset_id),
            activity_type: self.activity_type@,
            activity_date: self.activity_date@,
            quantity: self.quantity,
            unit_price: self.unit_price,
            currency: self.currency@,
            fee: self.fee,
            amount: self.amount,
            status: self.status,
            notes: opt_chars(self.notes),
            needs_review: self.needs_review,
            source_system: opt_chars(self.source_system),
            source_record_id: opt_chars(self.source_record_id),
            source_group_id: opt_chars(self.source_group_id),
            import_run_id: opt_chars(self.import_run_id),
        }
    }
}

/// The upsert row for a prepared activity of `account_id`, gathered after
/// `n` other rows: the activity's fields, the resolved asset id, the id
/// from [`upsert_id_of`], and no import run.
pub open spec fn upsert_row(a: ActivityView, asset_id: Option<Seq<char>>, account_id: Seq<char>, n: nat) -> UpsertView {
    UpsertView {
        id: upsert_id_of(a.id, account_id, n),
        account_id: a.account_id,
        asset_id: asset_id,
        activity_type: a.activity_type,
        activity_date: a.activity_date,
        quantity: a.quantity,
        unit_price: a.unit_price,
        currency: a.currency,
        fee: a.fee,
        amount: a.amount,
        status: a.status,
        notes: a.notes,
        needs_review: a.needs_review,
        source_system: a.source_system,
        source_record_id: a.source_record_id,
        source_group_id: a.source_group_id,
        import_run_id: None,
    }
}

/// The upsert rows a prepared batch of `account_id` adds behind `n`
/// rows already gathered.
pub open spec fn batch_rows(b: Seq<PreparedActivity>, account_id: Seq<char>, n: nat) -> Seq<UpsertView> {
    Seq::new(b.len(), |j: int| upsert_row(b[j].activity@, opt_chars(b[j].resolved_asset_id), account_id, (n + j) as nat))
}

pub open spec fn strings_view(v: Seq<String>) -> Seq<Seq<char>> {
    v.map_values(|x: String| x@)
}

pub open spec fn pairs_view(v: Seq<(String, String)>) -> Seq<(Seq<char>, Seq<char>)> {
    v.map_values(|x: (String, String)| (x.0@, x.1@))
}

pub open spec fn upsert_views(v: Seq<ActivityUpsert>) -> Seq<UpsertView> {
    v.map_values(|u: ActivityUpsert| u@)
}

/// A summary before any account was ingested: the mapping counts, and
/// nothing written, touched, created or failed.
pub fn ingest_summary(mapping: PlaidMappingSummary) -> (r: PlaidIngestSummary)
    ensures
        r.mapping == mapping,
        r.created == 0,
        r.updated == 0,
        r.skipped == 0,
        r.accounts_touched@.len() == 0,
        r.assets_created == 0,
        r.per_account_errors@.len() == 0,
{
    PlaidIngestSummary {
        mapping,
        created: 0,
        updated: 0,
        skipped: 0,
        accounts_touched: Vec::new(),
        assets_created: 0,
        per_account_errors: Vec::new(),
    }
}

fn upsert_of(p: PreparedActivity, account_id: &str, n: usize) -> (r: ActivityUpsert)
    ensures
        r@ == upsert_row(p.activity@, opt_chars(p.resolved_asset_id), account_id@, n as nat),
{
    let act = p.activity;
    let id = plaid_upsert_id(&act.id, account_id, n);
    ActivityUpsert {
        id,
        account_id: act.account_id,
        asset_id: p.resolved_asset_id,
        activity_type: act.activity_type,
        activity_date: act.activity_date,
        quantity: act.quantity,
        unit_price: act.unit_price,
        currency: act.currency,
        fee: act.fee,
        amount: act.amount,
        status: act.status,
        notes: act.notes,
        needs_review: act.needs_review,
        source_system: act.source_system,
        source_record_id: act.source_record_id,
        source_group_id: act.source_group_id,
        import_run_id: None,
    }
}

/// One account's turn in an ingest. An account that is no longer there, or
/// whose preparation failed, is recorded in `per_account_errors` with its
/// reason and adds no upsert row; the other accounts go on. A prepared
/// batch adds its asset count, marks the account touched, and appends one
/// upsert row per prepared activity, in order (see [`batch_rows`]).
pub fn ingest_account_step(
    summary: &mut PlaidIngestSummary,
    upserts: &mut Vec<ActivityUpsert>,
    account_id: &str,
    account_found: bool,
    prepared: Option<Result<PreparedBatch, String>>,
)
    requires
        account_found <==> prepared is Some,
        prepared matches Some(Ok(b)) ==> old(summary).assets_created + b.assets_created <= u32::MAX,
        prepared matches Some(Ok(b)) ==> old(upserts)@.len() + b.prepared@.len() <= usize::MAX,
    ensures
        final(summary).mapping == old(summary).mapping,
        final(summary).created == old(summary).created,
        final(summary).updated == old(summary).updated,
        final(summary).skipped == old(summary).skipped,
        !account_found ==> pairs_view(final(summary).per_account_errors@) == pairs_view(
            old(summary).per_account_errors@,
        ).push((account_id@, "Account not found"@)),
        prepared matches Some(Err(e)) ==> pairs_view(final(summary).per_account_errors@) == pairs_view(
            old(summary).per_account_errors@,
        ).push((account_id@, e@)),
        !(prepared matches Some(Ok(_))) ==> {
            &&& upsert_views(final(upserts)@) == upsert_views(old(upserts)@)
            &&& final(summary).assets_created == old(summary).assets_created
            &&& strings_view(final(summary).accounts_touched@) == strings_view(old(summary).accounts_touched@)
        },
        prepared matches Some(Ok(b)) ==> {
            &&& final(summary).assets_created == old(summary).assets_created + b.assets_created
            &&& strings_view(final(summary).accounts_touched@) == strings_view(
                old(summary).accounts_touched@,
            ).push(account_id@)
            &&& pairs_view(final(summary).per_account_errors@) == pairs_view(old(summary).per_account_errors@)
            &&& upsert_views(final(upserts)@) == upsert_views(old(upserts)@) + batch_rows(
                b.prepared@,
                account_id@,
                old(upserts)@.len(),
            )
        },
{
    match prepared {
        None => {
            let ghost before = summary.per_account_errors@;
            summary.per_account_errors.push((owned(account_id), owned("Account not found")));
            proof {
                reveal_strlit("Account not found");
            }
            assert(pairs_view(summary.per_account_errors@) =~= pairs_view(before).push(
                (account_id@, "Account not found"@),
            ));
        },
        Some(Err(e)) => {
            let ghost before = summary.per_account_errors@;
            let ghost ev = e@;
            summary.per_account_errors.push((owned(account_id), e));
            assert(pairs_view(summary.per_account_errors@) =~= pairs_view(before).push((account_id@, ev)));
        },
        Some(Ok(b)) => {
            let ghost touched = summary.accounts_touched@;
            let ghost start = upserts@;
            let ghost items = b.prepared@;
            let n0 = upserts.len();
            summary.assets_created = summary.assets_created + b.assets_created;
            summary.accounts_touched.push(owned(account_id));
            assert(strings_view(summary.accounts_touched@) =~= strings_view(touched).push(account_id@));
            let mut rest = b.prepared;
            let ghost mut j: int = 0;
            assert(upsert_views(upserts@) =~= upsert_views(start) + batch_rows(items, account_id@, n0 as nat).take(0));
            while rest.len() > 0
                invariant
                    0 <= j <= items.len(),
                    rest@ == items.skip(j),
                    upserts@.len() == start.len() + j,
                    n0 == start.len(),
                    start.len() + items.len() <= usize::MAX,
                    upsert_views(upserts@) == upsert_views(start) + batch_rows(items, account_id@, n0 as nat).take(j),
                decreases rest.len(),
            {
                let ghost old_rest = rest@;
                let ghost old_ups = upserts@;
                let p = rest.remove(0);
                assert(p == items[j]) by {
                    assert(old_rest[0] == items.skip(j)[0]);
                }
                assert(rest@ =~= items.skip(j + 1)) by {
                    assert forall|k: int| 0 <= k < rest@.len() implies rest@[k] == items.skip(j + 1)[k] by {
                        assert(rest@[k] == old_rest[k + 1]);
                    }
                }
                let n = upserts.len();
                let u = upsert_of(p, account_id, n);
                upserts.push(u);
                let ghost rows = batch_rows(items, account_id@, n0 as nat);
                assert(rows[j] == upsert_row(items[j].activity@, opt_chars(items[j].resolved_asset_id), account_id@, (n0 + j) as nat));
                assert(upsert_views(upserts@) =~= upsert_views(old_ups).push(u@));
                assert(rows.take(j + 1) =~= rows.take(j).push(rows[j]));
                assert(upsert_views(upserts@) =~= upsert_views(start) + rows.take(j + 1));
                proof {
                    j = j + 1;
                }
            }
            assert(j == items.len());
            assert(batch_rows(items, account_id@, n0 as nat).take(j) =~= batch_rows(items, account_id@, n0 as nat));
        },
    }
}

/// Records what the bulk upsert reported: rows created, updated and
/// skipped. Nothing else in the summary changes.
pub fn record_bulk_result(summary: &mut PlaidIngestSummary, created: usize, updated: usize, skipped: usize)
    ensures
        final(summary).created == created,
        final(summary).updated == updated,
        final(summary).skipped == skipped,
        final(summary).mapping == old(summary).mapping,
        final(summary).accounts_touched@ == old(summary).accounts_touched@,
        final(summary).assets_created == old(summary).assets_created,
        final(summary).per_account_errors@ == old(summary).per_account_errors@,
{
    summary.created = created;
    summary.updated = updated;
    summary.skipped = skipped;
}

} // verus!
