//! Helpers the draft-building tools share: the views of string lists, and
//! the currency choices offered next to a draft.
use vstd::prelude::*;

use crate::text::{str_eq, to_uppercase, trim, trimmed, unicode_uppercase};

verus! {

/// The characters of each string of a list.
pub open spec fn strings_view(v: Seq<String>) -> Seq<Seq<char>> {
    v.map_values(|s: String| s@)
}

/// `s` trimmed and upper-cased, as `code.trim().to_uppercase()` computes it.
pub open spec fn upper_trimmed(s: Seq<char>) -> Seq<char> {
    unicode_uppercase(trimmed(s))
}

/// `out` with `code` (trimmed, upper-cased) appended, unless it is empty or
/// already listed.
pub open spec fn push_code(out: Seq<Seq<char>>, code: Seq<char>) -> Seq<Seq<char>> {
    let c = upper_trimmed(code);
    if c.len() == 0 || out.contains(c) {
        out
    } else {
        out.push(c)
    }
}

pub open spec fn push_codes(out: Seq<Seq<char>>, codes: Seq<Seq<char>>) -> Seq<Seq<char>>
    decreases codes.len(),
{
    if codes.len() == 0 {
        out
    } else {
        push_codes(push_code(out, codes[0]), codes.drop_first())
    }
}

/// The common currencies offered after the base and the hint.
pub open spec fn common_codes() -> Seq<Seq<char>> {
    seq!["USD"@, "EUR"@, "GBP"@, "CAD"@, "INR"@, "AED"@, "SGD"@, "AUD"@, "JPY"@]
}

/// Base currency first, then the hint, then the common currencies; each
/// trimmed and upper-cased, empty codes and repeats skipped.
pub open spec fn currency_choices(base: Seq<char>, hint: Option<Seq<char>>) -> Seq<Seq<char>> {
    let with_base = push_code(Seq::empty(), base);
    let with_hint = match hint {
        Some(h) => push_code(with_base, h),
        None => with_base,
    };
    push_codes(with_hint, common_codes())
}

pub(crate) fn contains_str(v: &Vec<String>, s: &str) -> (r: bool)
    ensures
        r == strings_view(v@).contains(s@),
{
    let mut i: usize = 0;
    while i < v.len()
        invariant
            i <= v.len(),
            forall|k: int| 0 <= k < i ==> (#[trigger] v@[k])@ != s@,
        decreases v.len() - i,
    {
        if str_eq(v[i].as_str(), s) {
            assert(strings_view(v@)[i as int] == s@);
            return true;
        }
        i = i + 1;
    }
    assert forall|k: int| 0 <= k < strings_view(v@).len() implies strings_view(v@)[k] != s@ by {
        assert(strings_view(v@)[k] == v@[k]@);
    }
    false
}

fn push_unique(out: &mut Vec<String>, code: &str)
    ensures
        strings_view(final(out)@) == push_code(strings_view(old(out)@), code@),
{
    let t = trim(code);
    let c = to_uppercase(t.as_str());
    if !c.as_str().is_empty() && !contains_str(out, c.as_str()) {
        out.push(c);
        assert(strings_view(out@) =~= strings_view(old(out)@).push(c@));
    }
}

/// The currencies a draft offers: base first, then the hint, then the
/// common currencies, without repeats.
pub fn available_currencies(base: &str, hint: Option<&str>) -> (r: Vec<String>)
    ensures
        strings_view(r@) == currency_choices(
            base@,
            match hint {
                Some(h) => Some(h@),
                None => None,
            },
        ),
{
    let mut out: Vec<String> = Vec::new();
    assert(strings_view(out@) =~= Seq::<Seq<char>>::empty());
    push_unique(&mut out, base);
    match hint {
        Some(h) => push_unique(&mut out, h),
        None => {},
    }
    let ghost start = strings_view(out@);
    let codes = ["USD", "EUR", "GBP", "CAD", "INR", "AED", "SGD", "AUD", "JPY"];
    let ghost codes_view = common_codes();
    proof {
        reveal_strlit("USD");
        reveal_strlit("EUR");
        reveal_strlit("GBP");
        reveal_strlit("CAD");
        reveal_strlit("INR");
        reveal_strlit("AED");
        reveal_strlit("SGD");
        reveal_strlit("AUD");
        reveal_strlit("JPY");
        assert(codes@.map_values(|s: &str| s@) =~= codes_view);
    }
    let mut i: usize = 0;
    assert(codes_view.skip(0) =~= codes_view);
    while i < 9
        invariant
            i <= 9,
            codes@.map_values(|s: &str| s@) == codes_view,
            codes_view == common_codes(),
            push_codes(start, codes_view) == push_codes(
                strings_view(out@),
                codes_view.skip(i as int),
            ),
        decreases 9 - i,
    {
        assert(codes_view.skip(i as int)[0] == codes@[i as int]@);
        assert(codes_view.skip(i as int).drop_first() =~= codes_view.skip(i + 1));
        push_unique(&mut out, codes[i]);
        i = i + 1;
    }
    assert(codes_view.skip(9) =~= Seq::<Seq<char>>::empty());
    out
}

} // verus!
