//! Character-level helpers for the string handling the library does.
use vstd::prelude::*;

verus! {

/// The characters of `s`, in order.
pub fn chars_of(s: &str) -> (r: Vec<char>)
    ensures
        r@ == s@,
{
    let mut v: Vec<char> = Vec::new();
    for c in it: s.chars()
        invariant
            it.seq() == s@,
            v@ == s@.take(it.index()),
    {
        v.push(c);
        assert(s@.take(it.index() + 1) == s@.take(it.index()).push(c));
    }
    assert(s@.take(s@.len() as int) == s@);
    v
}


/// Appends one character: `String::push`.
#[verifier::external_body]
pub fn push_char(s: &mut String, c: char)
    ensures
        final(s)@ == old(s)@.push(c),
{
    s.push(c);
}

/// Appends a string slice: `String::push_str`.
#[verifier::external_body]
pub fn push_str(s: &mut String, t: &str)
    ensures
        final(s)@ == old(s)@ + t@,
{
    s.push_str(t);
}

/// A fresh `String` holding the characters of `s`.
pub fn owned(s: &str) -> (r: String)
    ensures
        r@ == s@,
{
    let mut out = String::new();
    push_str(&mut out, s);
    proof {
        assert(Seq::<char>::empty() + s@ == s@);
    }
    out
}

/// A `String` made of the given characters.
pub fn from_chars(v: &Vec<char>) -> (r: String)
    ensures
        r@ == v@,
{
    let mut out = String::new();
    let mut i: usize = 0;
    while i < v.len()
        invariant
            i <= v.len(),
            out@ == v@.take(i as int),
        decreases v.len() - i,
    {
        push_char(&mut out, v[i]);
        assert(v@.take(i + 1) == v@.take(i as int).push(v@[i as int]));
        i = i + 1;
    }
    assert(v@.take(v.len() as int) == v@);
    out
}

/// Whether two character sequences are equal.
pub fn chars_eq(a: &Vec<char>, b: &Vec<char>) -> (r: bool)
    ensures
        r == (a@ == b@),
{
    if a.len() != b.len() {
        return false;
    }
    let mut i: usize = 0;
    while i < a.len()
        invariant
            a.len() == b.len(),
            i <= a.len(),
            forall|k: int| 0 <= k < i ==> a@[k] == b@[k],
        decreases a.len() - i,
    {
        if a[i] != b[i] {
            return false;
        }
        i = i + 1;
    }
    assert(a@ =~= b@);
    true
}

/// Whether two strings hold the same characters.
pub fn str_eq(a: &str, b: &str) -> (r: bool)
    ensures
        r == (a@ == b@),
{
    let ca = chars_of(a);
    let cb = chars_of(b);
    chars_eq(&ca, &cb)
}

/// `needle` occurs in `hay` as a contiguous run (what `str::contains` tests).
pub open spec fn is_infix(needle: Seq<char>, hay: Seq<char>) -> bool {
    exists|k: int| 0 <= k && k + needle.len() <= hay.len() && #[trigger] hay.subrange(k, k + needle.len()) == needle
}

/// Whether `needle` occurs in `hay`.
pub fn str_contains(hay: &str, needle: &str) -> (r: bool)
    ensures
        r == is_infix(needle@, hay@),
{
    let h = chars_of(hay);
    let n = chars_of(needle);
    if n.len() > h.len() {
        return false;
    }
    let last: usize = h.len() - n.len();
    let mut k: usize = 0;
    while k <= last
        invariant
            h@ == hay@,
            n@ == needle@,
            n.len() <= h.len(),
            last == h.len() - n.len(),
            k <= last + 1,
            forall|j: int| 0 <= j < k ==> #[trigger] hay@.subrange(j, j + needle@.len()) != needle@,
        decreases last + 1 - k,
    {
        let mut i: usize = 0;
        let mut same = true;
        while i < n.len()
            invariant
                h@ == hay@,
                n@ == needle@,
                k <= last,
                last == h.len() - n.len(),
                i <= n.len(),
                same == (forall|t: int| 0 <= t < i ==> h@[k + t] == n@[t]),
            decreases n.len() - i,
        {
            if h[k + i] != n[i] {
                same = false;
            }
            i = i + 1;
        }
        if same {
            assert(hay@.subrange(k as int, k + needle@.len()) =~= needle@);
            return true;
        }
        assert(hay@.subrange(k as int, k + needle@.len()) != needle@) by {
            let t = choose|t: int| 0 <= t < n.len() && h@[k + t] != n@[t];
            assert(hay@.subrange(k as int, k + needle@.len())[t] == h@[k + t]);
        }
        k = k + 1;
    }
    assert forall|j: int| 0 <= j && j + needle@.len() <= hay@.len() implies #[trigger] hay@.subrange(j, j + needle@.len()) != needle@ by {
        assert(j < k);
    }
    false
}

/// The decimal digit character for `d` (0 to 9).
/// The characters of an optional string.
pub open spec fn opt_chars(o: Option<String>) -> Option<Seq<char>> {
    match o {
        Some(s) => Some(s@),
        None => None,
    }
}

pub open spec fn digit_char(d: int) -> char {
    (d + 48) as char
}

/// `n` written in decimal, as `{}` formats an unsigned integer.
pub open spec fn decimal(n: nat) -> Seq<char>
    decreases n,
{
    if n < 10 {
        seq![digit_char(n as int)]
    } else {
        decimal(n / 10).push(digit_char((n % 10) as int))
    }
}

/// `n` in decimal.
pub fn decimal_string(n: usize) -> (r: String)
    ensures
        r@ == decimal(n as nat),
    decreases n,
{
    let d: u8 = (n % 10) as u8;
    let c: char = (d + 48u8) as char;
    assert(c == digit_char((n % 10) as int));
    if n < 10 {
        let mut s = String::new();
        push_char(&mut s, c);
        assert(s@ =~= seq![c]);
        s
    } else {
        let mut s = decimal_string(n / 10);
        push_char(&mut s, c);
        s
    }
}

/// `i` written in decimal, with a leading minus when negative.
pub open spec fn signed_decimal(i: int) -> Seq<char> {
    if i < 0 {
        "-"@ + decimal((-i) as nat)
    } else {
        decimal(i as nat)
    }
}

/// `i` in decimal.
pub fn i32_string(i: i32) -> (r: String)
    ensures
        r@ == signed_decimal(i as int),
{
    if i < 0 {
        let m: i64 = -(i as i64);
        let mut s = owned("-");
        let d = decimal_string(m as usize);
        push_str(&mut s, d.as_str());
        proof {
            reveal_strlit("-");
        }
        s
    } else {
        decimal_string(i as usize)
    }
}

/// Unicode `White_Space`, the set `char::is_whitespace` tests.
pub open spec fn is_space(c: char) -> bool {
    let u = c as u32;
    (0x09 <= u <= 0x0D) || u == 0x20 || u == 0x85 || u == 0xA0 || u == 0x1680
        || (0x2000 <= u <= 0x200A) || u == 0x2028 || u == 0x2029 || u == 0x202F
        || u == 0x205F || u == 0x3000
}

pub fn is_space_char(c: char) -> (r: bool)
    ensures
        r == is_space(c),
{
    let u = c as u32;
    (0x09 <= u && u <= 0x0D) || u == 0x20 || u == 0x85 || u == 0xA0 || u == 0x1680
        || (0x2000 <= u && u <= 0x200A) || u == 0x2028 || u == 0x2029 || u == 0x202F
        || u == 0x205F || u == 0x3000
}

/// Number of leading white-space characters of `s`.
pub open spec fn lead_spaces(s: Seq<char>) -> nat
    decreases s.len(),
{
    if s.len() > 0 && is_space(s[0]) {
        1 + lead_spaces(s.drop_first())
    } else {
        0
    }
}

/// Number of trailing white-space characters of `s`.
pub open spec fn trail_spaces(s: Seq<char>) -> nat
    decreases s.len(),
{
    if s.len() > 0 && is_space(s.last()) {
        1 + trail_spaces(s.drop_last())
    } else {
        0
    }
}

/// `s` without leading and trailing white space (`str::trim`).
pub open spec fn trimmed(s: Seq<char>) -> Seq<char> {
    let a = lead_spaces(s) as int;
    let rest = s.subrange(a, s.len() as int);
    rest.subrange(0, rest.len() - trail_spaces(rest) as int)
}

proof fn lemma_lead_spaces(s: Seq<char>, i: int)
    requires
        0 <= i <= s.len(),
        forall|k: int| 0 <= k < i ==> is_space(#[trigger] s[k]),
    ensures
        lead_spaces(s) >= i,
        i < s.len() && !is_space(s[i]) ==> lead_spaces(s) == i,
        lead_spaces(s) <= s.len(),
    decreases i,
{
    if i > 0 {
        assert forall|k: int| 0 <= k < i - 1 implies is_space(#[trigger] s.drop_first()[k]) by {
            assert(s.drop_first()[k] == s[k + 1]);
        }
        lemma_lead_spaces(s.drop_first(), i - 1);
    } else {
        lemma_lead_spaces_le(s);
    }
}

proof fn lemma_lead_spaces_le(s: Seq<char>)
    ensures
        lead_spaces(s) <= s.len(),
    decreases s.len(),
{
    if s.len() > 0 && is_space(s[0]) {
        lemma_lead_spaces_le(s.drop_first());
    }
}

proof fn lemma_trail_spaces(s: Seq<char>, i: int)
    requires
        0 <= i <= s.len(),
        forall|k: int| s.len() - i <= k < s.len() ==> is_space(#[trigger] s[k]),
    ensures
        trail_spaces(s) >= i,
        i < s.len() && !is_space(s[s.len() - 1 - i]) ==> trail_spaces(s) == i,
        trail_spaces(s) <= s.len(),
    decreases i,
{
    if i > 0 {
        assert forall|k: int| s.drop_last().len() - (i - 1) <= k < s.drop_last().len()
            implies is_space(#[trigger] s.drop_last()[k]) by {
            assert(s.drop_last()[k] == s[k]);
        }
        lemma_trail_spaces(s.drop_last(), i - 1);
    } else {
        lemma_trail_spaces_le(s);
    }
}

proof fn lemma_trail_spaces_le(s: Seq<char>)
    ensures
        trail_spaces(s) <= s.len(),
    decreases s.len(),
{
    if s.len() > 0 && is_space(s.last()) {
        lemma_trail_spaces_le(s.drop_last());
    }
}

/// `s` without leading and trailing white space.
pub fn trim(s: &str) -> (r: String)
    ensures
        r@ == trimmed(s@),
{
    let v = chars_of(s);
    let n = v.len();
    let mut a: usize = 0;
    while a < n && is_space_char(v[a])
        invariant
            v@ == s@,
            n == v.len(),
            a <= n,
            forall|k: int| 0 <= k < a ==> is_space(#[trigger] v@[k]),
        decreases n - a,
    {
        a = a + 1;
    }
    proof {
        lemma_lead_spaces(s@, a as int);
    }
    let ghost rest = s@.subrange(a as int, n as int);
    let mut b: usize = n;
    while b > a && is_space_char(v[b - 1])
        invariant
            v@ == s@,
            n == v.len(),
            a <= b <= n,
            rest == s@.subrange(a as int, n as int),
            forall|k: int| b <= k < n ==> is_space(#[trigger] v@[k]),
        decreases b,
    {
        b = b - 1;
    }
    proof {
        assert forall|k: int| rest.len() - (n - b) <= k < rest.len() implies is_space(#[trigger] rest[k]) by {
            assert(rest[k] == s@[a + k]);
        }
        if b > a {
            assert(rest[rest.len() - 1 - (n - b)] == s@[b - 1]);
        }
        lemma_trail_spaces(rest, (n - b) as int);
    }
    let mut out = String::new();
    let mut i: usize = a;
    while i < b
        invariant
            v@ == s@,
            a <= i <= b <= n,
            n == v.len(),
            out@ == s@.subrange(a as int, i as int),
        decreases b - i,
    {
        push_char(&mut out, v[i]);
        assert(s@.subrange(a as int, i + 1) == s@.subrange(a as int, i as int).push(v@[i as int]));
        i = i + 1;
    }
    assert(out@ == trimmed(s@));
    out
}

/// Lower-case form of `c` under ASCII rules (`char::to_ascii_lowercase`).
pub open spec fn ascii_lower(c: char) -> char {
    if 'A' <= c <= 'Z' { (((c as u32) + 32) as u8) as char } else { c }
}

/// Lower-case form of `s` under ASCII rules (`str::to_ascii_lowercase`).
pub open spec fn ascii_lowered(s: Seq<char>) -> Seq<char> {
    s.map_values(|c: char| ascii_lower(c))
}

/// Upper-case form of `c` under ASCII rules (`char::to_ascii_uppercase`).
pub open spec fn ascii_upper(c: char) -> char {
    if 'a' <= c <= 'z' { (((c as u32) - 32) as u8) as char } else { c }
}

/// Upper-case form of `s` under ASCII rules (`str::to_ascii_uppercase`).
pub open spec fn ascii_uppered(s: Seq<char>) -> Seq<char> {
    s.map_values(|c: char| ascii_upper(c))
}

/// Every character of `s` is ASCII.
pub open spec fn all_ascii(s: Seq<char>) -> bool {
    forall|i: int| 0 <= i < s.len() ==> (#[trigger] s[i] as u32) < 128
}

pub fn to_ascii_lowercase(s: &str) -> (r: String)
    ensures
        r@ == ascii_lowered(s@),
{
    let v = chars_of(s);
    let mut out = String::new();
    let mut i: usize = 0;
    while i < v.len()
        invariant
            v@ == s@,
            i <= v.len(),
            out@ == ascii_lowered(s@.take(i as int)),
        decreases v.len() - i,
    {
        let c = v[i];
        let l = if 'A' <= c && c <= 'Z' { (((c as u32) + 32) as u8) as char } else { c };
        push_char(&mut out, l);
        assert(ascii_lowered(s@.take(i + 1)) == ascii_lowered(s@.take(i as int)).push(l));
        i = i + 1;
    }
    assert(s@.take(v.len() as int) == s@);
    out
}

/// The result of `str::to_lowercase` on a string of these characters.
pub uninterp spec fn unicode_lowercase(s: Seq<char>) -> Seq<char>;

/// The result of `str::to_uppercase` on a string of these characters.
pub uninterp spec fn unicode_uppercase(s: Seq<char>) -> Seq<char>;

/// `str::to_lowercase`: the lower-case form under Unicode's case mapping.
/// Trusted to depend on the characters of `s` alone, and, on ASCII text, to
/// lower the letters `A`..`Z` and keep every other character (Unicode maps
/// ASCII letters to their ASCII case partners and other ASCII characters to
/// themselves). Beyond ASCII the mapping is not stated.
#[verifier::external_body]
pub fn to_lowercase(s: &str) -> (r: String)
    ensures
        r@ == unicode_lowercase(s@),
        all_ascii(s@) ==> r@ == ascii_lowered(s@),
{
    s.to_lowercase()
}

/// `str::to_uppercase`: the upper-case form under Unicode's case mapping.
/// Trusted to depend on the characters of `s` alone, and, on ASCII text, to
/// raise the letters `a`..`z` and keep every other character. Beyond ASCII
/// the mapping is not stated.
#[verifier::external_body]
pub fn to_uppercase(s: &str) -> (r: String)
    ensures
        r@ == unicode_uppercase(s@),
        all_ascii(s@) ==> r@ == ascii_uppered(s@),
{
    s.to_uppercase()
}

} // verus!
