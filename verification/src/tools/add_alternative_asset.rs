//! Add Alternative Asset: the kind vocabulary and the option table of the
//! draft that proposes a property, vehicle, collectible, precious metal or
//! other asset.
use vstd::prelude::*;

use std::sync::Arc;

use crate::dates::parses_as_date;
use crate::text::{opt_chars, owned, push_str, str_eq, to_lowercase, to_uppercase, trim, trimmed, unicode_lowercase, unicode_uppercase};
use crate::tools::common::{available_currencies, currency_choices, strings_view};
use crate::tools::create_account::{draft_currency, trimmed_opt, trimmed_option};
use crate::tools::create_goal::iso_date;
use crate::tools::env::AiEnvironment;

verus! {

/// One entry of the kind dropdown.
#[derive(Debug, Clone)]
pub struct KindOption {
    pub value: String,
    pub label: String,
}

/// The option table offered next to the draft: (value, label) pairs.
pub open spec fn kind_options_table() -> Seq<(Seq<char>, Seq<char>)> {
    seq![("property"@, "Property"@), ("vehicle"@, "Vehicle"@), ("collectible"@, "Collectible"@), ("precious"@, "Precious metal"@), ("other"@, "Other"@)]
}

/// The kinds offered, in display order.
pub fn kind_options() -> (r: Vec<KindOption>)
    ensures
        r@.len() == kind_options_table().len(),
        forall|i: int| 0 <= i < r@.len() ==> (#[trigger] r@[i]).value@ == kind_options_table()[i].0
            && r@[i].label@ == kind_options_table()[i].1,
{
    let mut out: Vec<KindOption> = Vec::new();
    out.push(KindOption { value: owned("property"), label: owned("Property") });
    out.push(KindOption { value: owned("vehicle"), label: owned("Vehicle") });
    out.push(KindOption { value: owned("collectible"), label: owned("Collectible") });
    out.push(KindOption { value: owned("precious"), label: owned("Precious metal") });
    out.push(KindOption { value: owned("other"), label: owned("Other") });
    out
}

/// The kind a trimmed, lower-cased free-form kind names.
pub open spec fn kind_for(key: Seq<char>) -> Seq<char> {
    if key == "property"@ || key == "real_estate"@ || key == "real-estate"@ || key == "house"@ || key == "home"@ || key == "land"@ || key == "apartment"@ || key == "condo"@ || key == "rental"@ || key == "building"@ {
        "property"@
    } else if key == "vehicle"@ || key == "car"@ || key == "auto"@ || key == "motorcycle"@ || key == "bike"@ || key == "boat"@ || key == "rv"@ || key == "truck"@ {
        "vehicle"@
    } else if key == "collectible"@ || key == "art"@ || key == "watch"@ || key == "watches"@ || key == "wine"@ || key == "jewelry"@ || key == "memorabilia"@ {
        "collectible"@
    } else if key == "precious"@ || key == "precious_metal"@ || key == "precious-metal"@ || key == "gold"@ || key == "silver"@ || key == "platinum"@ || key == "metals"@ {
        "precious"@
    } else {
        "other"@
    }
}

fn kind_for_exec(key: &str) -> (r: String)
    ensures
        r@ == kind_for(key@),
{
    if str_eq(key, "property") || str_eq(key, "real_estate") || str_eq(key, "real-estate") || str_eq(key, "house") || str_eq(key, "home") || str_eq(key, "land") || str_eq(key, "apartment") || str_eq(key, "condo") || str_eq(key, "rental") || str_eq(key, "building") {
        owned("property")
    } else if str_eq(key, "vehicle") || str_eq(key, "car") || str_eq(key, "auto") || str_eq(key, "motorcycle") || str_eq(key, "bike") || str_eq(key, "boat") || str_eq(key, "rv") || str_eq(key, "truck") {
        owned("vehicle")
    } else if str_eq(key, "collectible") || str_eq(key, "art") || str_eq(key, "watch") || str_eq(key, "watches") || str_eq(key, "wine") || str_eq(key, "jewelry") || str_eq(key, "memorabilia") {
        owned("collectible")
    } else if str_eq(key, "precious") || str_eq(key, "precious_metal") || str_eq(key, "precious-metal") || str_eq(key, "gold") || str_eq(key, "silver") || str_eq(key, "platinum") || str_eq(key, "metals") {
        owned("precious")
    } else {
        owned("other")
    }
}

/// Maps a free-form kind (trimmed, lower-cased) to one of the five kinds; anything unrecognised is `other`.
pub fn normalize_kind(raw: &str) -> (r: String)
    ensures
        r@ == kind_for(unicode_lowercase(trimmed(raw@))),
{
    let t = trim(raw);
    let k = to_lowercase(t.as_str());
    kind_for_exec(k.as_str())
}

/// Proposes a new alternative asset; never writes.
pub struct AddAlternativeAssetTool<E: AiEnvironment> {
    env: Arc<E>,
}

impl<E: AiEnvironment> AddAlternativeAssetTool<E> {
    pub fn new(env: Arc<E>) -> (r: Self)
        ensures
            r.env() == env,
    {
        AddAlternativeAssetTool { env }
    }

    pub closed spec fn env(&self) -> Arc<E> {
        self.env
    }
}

/// What the assistant passes; the amounts (current value, purchase
/// price) are floating-point figures the host keeps, and only whether the
/// current value is above zero is read here.
pub struct AddAlternativeAssetArgs {
    pub kind: String,
    pub name: String,
    pub currency: Option<String>,
    /// YYYY-MM-DD.
    pub purchase_date: Option<String>,
    /// YYYY-MM-DD; today when omitted or unreadable.
    pub value_date: Option<String>,
    /// Kind-specific fields, each key once.
    pub metadata: Option<Vec<(String, String)>>,
    pub notes: Option<String>,
}

/// The asset the user is asked to confirm (amounts attached by the host).
pub struct AlternativeAssetDraft {
    pub kind: String,
    pub name: String,
    pub currency: String,
    pub purchase_date: Option<String>,
    pub value_date: String,
    /// The given fields, then any defaults the kind adds.
    pub metadata: Vec<(String, String)>,
    pub notes: Option<String>,
}

pub struct ValidationResult {
    pub is_valid: bool,
    pub missing_fields: Vec<String>,
    pub warnings: Vec<String>,
}

pub struct AddAlternativeAssetOutput {
    pub draft: AlternativeAssetDraft,
    pub validation: ValidationResult,
    pub available_kinds: Vec<KindOption>,
    pub available_currencies: Vec<String>,
}

pub type Fields = Seq<(Seq<char>, Seq<char>)>;

pub open spec fn fields_view(m: Seq<(String, String)>) -> Fields {
    m.map_values(|e: (String, String)| (e.0@, e.1@))
}

pub open spec fn given_fields(m: Option<Vec<(String, String)>>) -> Fields {
    match m {
        Some(v) => fields_view(v@),
        None => Seq::empty(),
    }
}

pub open spec fn has_field(m: Fields, key: Seq<char>) -> bool {
    exists|i: int| 0 <= i < m.len() && (#[trigger] m[i]).0 == key
}

/// The defaults a kind adds: a sub-type for property and vehicles, a unit
/// for precious metals, each only when the field is absent.
pub open spec fn with_defaults(kind: Seq<char>, m: Fields) -> Fields {
    if kind == "property"@ && !has_field(m, "sub_type"@) {
        m.push(("sub_type"@, "residence"@))
    } else if kind == "vehicle"@ && !has_field(m, "sub_type"@) {
        m.push(("sub_type"@, "car"@))
    } else if kind == "precious"@ && !has_field(m, "unit"@) {
        m.push(("unit"@, "oz"@))
    } else {
        m
    }
}

pub open spec fn missing_asset_fields(args: AddAlternativeAssetArgs, value_positive: bool) -> Seq<Seq<char>> {
    let a = if trimmed(args.name@).len() == 0 {
        seq!["name"@]
    } else {
        Seq::empty()
    };
    let b = if trimmed(args.kind@).len() == 0 {
        a.push("kind"@)
    } else {
        a
    };
    if !value_positive {
        b.push("currentValue"@)
    } else {
        b
    }
}

pub open spec fn bad_given_date(d: Option<Seq<char>>) -> bool {
    match d {
        Some(s) => trimmed(s).len() > 0 && !iso_date(s),
        None => false,
    }
}

pub open spec fn asset_warnings(args: AddAlternativeAssetArgs) -> Seq<Seq<char>> {
    let kind = kind_for(unicode_lowercase(trimmed(args.kind@)));
    let a = if bad_given_date(opt_chars(args.value_date)) {
        seq!["Could not parse valueDate \""@ + opt_chars(args.value_date)->0 + "\" — using today instead."@]
    } else {
        Seq::empty()
    };
    let b = if bad_given_date(opt_chars(args.purchase_date)) {
        a.push("Could not parse purchaseDate \""@ + opt_chars(args.purchase_date)->0 + "\" — expecting YYYY-MM-DD."@)
    } else {
        a
    };
    if kind == "precious"@ && !has_field(given_fields(args.metadata), "metal_type"@) {
        b.push("Specify metal_type (gold | silver | platinum) in metadata for precious metals."@)
    } else {
        b
    }
}

pub open spec fn asset_output(r: AddAlternativeAssetOutput, args: AddAlternativeAssetArgs, value_positive: bool, today: Seq<char>, base: Seq<char>) -> bool {
    let kind = kind_for(unicode_lowercase(trimmed(args.kind@)));
    &&& r.draft.kind@ == kind
    &&& r.draft.name@ == trimmed(args.name@)
    &&& r.draft.currency@ == draft_currency(opt_chars(args.currency), base)
    &&& opt_chars(r.draft.purchase_date) == match opt_chars(args.purchase_date) {
        Some(s) => if trimmed(s).len() > 0 && iso_date(s) {
            Some(trimmed(s))
        } else {
            None
        },
        None => None,
    }
    &&& r.draft.value_date@ == match opt_chars(args.value_date) {
        Some(s) => if trimmed(s).len() > 0 && iso_date(s) {
            trimmed(s)
        } else {
            today
        },
        None => today,
    }
    &&& fields_view(r.draft.metadata@) == with_defaults(kind, given_fields(args.metadata))
    &&& opt_chars(r.draft.notes) == trimmed_opt(opt_chars(args.notes))
    &&& strings_view(r.validation.missing_fields@) == missing_asset_fields(args, value_positive)
    &&& r.validation.is_valid == (r.validation.missing_fields@.len() == 0)
    &&& strings_view(r.validation.warnings@) == asset_warnings(args)
    &&& r.available_kinds@.len() == kind_options_table().len()
    &&& forall|i: int| 0 <= i < r.available_kinds@.len() ==> (#[trigger] r.available_kinds@[i]).value@
        == kind_options_table()[i].0 && r.available_kinds@[i].label@ == kind_options_table()[i].1
    &&& strings_view(r.available_currencies@) == currency_choices(base, Some(r.draft.currency@))
}

fn has_field_exec(m: &Vec<(String, String)>, key: &str) -> (r: bool)
    ensures
        r == has_field(fields_view(m@), key@),
{
    let mut i: usize = 0;
    while i < m.len()
        invariant
            i <= m.len(),
            forall|k: int| 0 <= k < i ==> (#[trigger] fields_view(m@)[k]).0 != key@,
        decreases m.len() - i,
    {
        if str_eq(m[i].0.as_str(), key) {
            assert(fields_view(m@)[i as int].0 == key@);
            return true;
        }
        i = i + 1;
    }
    false
}

fn copy_fields(m: &Option<Vec<(String, String)>>) -> (r: Vec<(String, String)>)
    ensures
        fields_view(r@) == given_fields(*m),
{
    let mut out: Vec<(String, String)> = Vec::new();
    match m {
        Some(v) => {
            let mut i: usize = 0;
            while i < v.len()
                invariant
                    *m == Some(*v),
                    i <= v.len(),
                    fields_view(out@) == fields_view(v@.take(i as int)),
                decreases v.len() - i,
            {
                let ghost prior = fields_view(out@);
                out.push((owned(v[i].0.as_str()), owned(v[i].1.as_str())));
                assert(fields_view(out@) =~= prior.push((v@[i as int].0@, v@[i as int].1@)));
                assert(fields_view(v@.take(i + 1)) =~= fields_view(v@.take(i as int)).push((v@[i as int].0@, v@[i as int].1@)));
                i = i + 1;
            }
            assert(v@.take(v.len() as int) =~= v@);
        },
        None => {},
    }
    out
}

fn push_field(m: &mut Vec<(String, String)>, key: &str, value: &str)
    ensures
        fields_view(final(m)@) == fields_view(old(m)@).push((key@, value@)),
{
    let ghost prior = fields_view(m@);
    m.push((owned(key), owned(value)));
    assert(fields_view(m@) =~= prior.push((key@, value@)));
}

fn date_field(d: &Option<String>) -> (r: (Option<String>, bool))
    ensures
        opt_chars(r.0) == match opt_chars(*d) {
            Some(s) => if trimmed(s).len() > 0 && iso_date(s) {
                Some(trimmed(s))
            } else {
                None
            },
            None => None,
        },
        r.1 == bad_given_date(opt_chars(*d)),
{
    match d {
        Some(s) => {
            let t = trim(s.as_str());
            if t.as_str().is_empty() {
                (None, false)
            } else if parses_as_date(t.as_str(), "%Y-%m-%d") {
                (Some(t), false)
            } else {
                (None, true)
            }
        },
        None => (None, false),
    }
}

/// Builds the asset draft for `args`: `value_positive` says the current
/// value is above zero, `today` is today's date (YYYY-MM-DD).
pub fn draft_asset(args: AddAlternativeAssetArgs, value_positive: bool, today: &str, base_currency: &str) -> (r: AddAlternativeAssetOutput)
    ensures
        asset_output(r, args, value_positive, today@, base_currency@),
{
    let kind = normalize_kind(args.kind.as_str());
    let name = trim(args.name.as_str());
    let currency = match &args.currency {
        Some(c) => {
            let t = trim(c.as_str());
            if t.as_str().is_empty() {
                owned(base_currency)
            } else {
                to_uppercase(t.as_str())
            }
        },
        None => owned(base_currency),
    };
    let mut missing_fields: Vec<String> = Vec::new();
    if name.as_str().is_empty() {
        missing_fields.push(owned("name"));
    }
    let raw = trim(args.kind.as_str());
    if raw.as_str().is_empty() {
        missing_fields.push(owned("kind"));
    }
    if !value_positive {
        missing_fields.push(owned("currentValue"));
    }
    proof {
        reveal_strlit("name");
        reveal_strlit("kind");
        reveal_strlit("currentValue");
        assert(strings_view(missing_fields@) =~= missing_asset_fields(args, value_positive));
    }
    let mut warnings: Vec<String> = Vec::new();
    let (value_date, bad_value) = date_field(&args.value_date);
    if bad_value {
        let mut w = owned("Could not parse valueDate \"");
        match &args.value_date {
            Some(s) => push_str(&mut w, s.as_str()),
            None => {},
        }
        push_str(&mut w, "\" — using today instead.");
        warnings.push(w);
    }
    let value_date = match value_date {
        Some(v) => v,
        None => owned(today),
    };
    let ghost w1 = strings_view(warnings@);
    let (purchase_date, bad_purchase) = date_field(&args.purchase_date);
    if bad_purchase {
        let mut w = owned("Could not parse purchaseDate \"");
        match &args.purchase_date {
            Some(s) => push_str(&mut w, s.as_str()),
            None => {},
        }
        push_str(&mut w, "\" — expecting YYYY-MM-DD.");
        let ghost wv = w@;
        warnings.push(w);
        assert(strings_view(warnings@) =~= w1.push(wv));
    }
    let ghost w2 = strings_view(warnings@);
    let mut metadata = copy_fields(&args.metadata);
    let ghost given = fields_view(metadata@);
    if str_eq(kind.as_str(), "precious") && !has_field_exec(&metadata, "metal_type") {
        warnings.push(owned("Specify metal_type (gold | silver | platinum) in metadata for precious metals."));
        assert(strings_view(warnings@) =~= w2.push("Specify metal_type (gold | silver | platinum) in metadata for precious metals."@));
    }
    assert(strings_view(warnings@) =~= asset_warnings(args));
    if str_eq(kind.as_str(), "property") {
        if !has_field_exec(&metadata, "sub_type") {
            push_field(&mut metadata, "sub_type", "residence");
        }
    } else if str_eq(kind.as_str(), "vehicle") {
        if !has_field_exec(&metadata, "sub_type") {
            push_field(&mut metadata, "sub_type", "car");
        }
    } else if str_eq(kind.as_str(), "precious") {
        if !has_field_exec(&metadata, "unit") {
            push_field(&mut metadata, "unit", "oz");
        }
    }
    proof {
        reveal_strlit("property");
        reveal_strlit("vehicle");
        reveal_strlit("precious");
        assert("property"@ != "vehicle"@) by {
            assert("property"@[0] != "vehicle"@[0]);
        }
        assert("property"@ != "precious"@) by {
            assert("property"@[2] != "precious"@[2]);
        }
        assert("vehicle"@ != "precious"@) by {
            assert("vehicle"@[0] != "precious"@[0]);
        }
        assert(fields_view(metadata@) == with_defaults(kind@, given));
    }
    let available = available_currencies(base_currency, Some(currency.as_str()));
    let is_valid = missing_fields.len() == 0;
    AddAlternativeAssetOutput {
        draft: AlternativeAssetDraft {
            kind,
            name,
            currency,
            purchase_date,
            value_date,
            metadata,
            notes: trimmed_option(&args.notes),
        },
        validation: ValidationResult { is_valid, missing_fields, warnings },
        available_kinds: kind_options(),
        available_currencies: available,
    }
}

impl<E: AiEnvironment> AddAlternativeAssetTool<E> {
    /// The draft for `args` against the environment's base currency.
    pub fn build_output(&self, args: AddAlternativeAssetArgs, value_positive: bool, today: &str) -> (r: AddAlternativeAssetOutput)
        ensures
            exists|base: Seq<char>| asset_output(r, args, value_positive, today@, base),
    {
        let base = self.env.base_currency();
        let r = draft_asset(args, value_positive, today, base.as_str());
        assert(asset_output(r, args, value_positive, today@, base@));
        r
    }
}

} // verus!
