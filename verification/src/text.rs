//! Small string helpers shared by the other modules.

use vstd::prelude::*;

verus! {

/// The characters of `s`, in order.
pub fn chars_of(s: &str) -> (r: Vec<char>)
    ensures
        r@ == s@,
{
    let mut r: Vec<char> = Vec::new();
    let n = s.unicode_len();
    let mut i: usize = 0;
    while i < n
        invariant
            n == s@.len(),
            i <= n,
            r@ == s@.subrange(0, i as int),
        decreases n - i,
    {
        let c = s.get_char(i);
        r.push(c);
        i = i + 1;
    }
    r
}

/// `true` exactly when `s` and `lit` hold the same characters.
pub fn str_eq(s: &str, lit: &str) -> (r: bool)
    ensures
        r == (s@ == lit@),
{
    let n = s.unicode_len();
    let m = lit.unicode_len();
    if n != m {
        return false;
    }
    let mut i: usize = 0;
    while i < n
        invariant
            n == s@.len(),
            m == lit@.len(),
            n == m,
            i <= n,
            forall|j: int| 0 <= j < i ==> s@[j] == lit@[j],
        decreases n - i,
    {
        if s.get_char(i) != lit.get_char(i) {
            return false;
        }
        i = i + 1;
    }
    assert(s@ =~= lit@);
    true
}

/// The view of an optional string.
pub open spec fn opt_view(o: Option<String>) -> Option<Seq<char>> {
    match o {
        Some(s) => Some(s@),
        None => None,
    }
}

/// What `str::to_lowercase` makes of a sequence of characters (full Unicode
/// case mapping, as the standard library implements it).
pub uninterp spec fn lowercase_of(s: Seq<char>) -> Seq<char>;

/// Whether every character of `s` is ASCII.
pub open spec fn is_ascii_text(s: Seq<char>) -> bool {
    forall|i: int| 0 <= i < s.len() ==> (#[trigger] s[i] as u32) < 128
}

/// Calls `str::to_lowercase`, which maps every character to its Unicode
/// lowercase form. The result is a function of the characters alone; on
/// ASCII text that mapping lowers `A`..`Z` to `a`..`z` and keeps every other
/// character, one for one.
#[verifier::external_body]
pub(crate) fn to_lowercase(s: &str) -> (r: String)
    ensures
        r@ == lowercase_of(s@),
        is_ascii_text(s@) ==> ascii_lower_is(s@, r@),
{
    s.to_lowercase()
}

/// The character of a decimal digit.
pub open spec fn digit_char(d: nat) -> char {
    (48 + d) as char
}

/// The decimal representation of `n`, without leading zeros.
pub open spec fn decimal_of(n: nat) -> Seq<char>
    decreases n,
{
    if n < 10 {
        seq![digit_char(n)]
    } else {
        decimal_of(n / 10).push(digit_char(n % 10))
    }
}

/// Calls `String::push`, which appends one character.
#[verifier::external_body]
pub(crate) fn push_char(s: &mut String, c: char)
    ensures
        final(s)@ == old(s)@.push(c),
{
    s.push(c);
}

/// Append the decimal representation of `n` to `s`.
pub fn push_decimal(s: &mut String, n: usize)
    ensures
        final(s)@ == old(s)@ + decimal_of(n as nat),
    decreases n,
{
    if n >= 10 {
        push_decimal(s, n / 10);
    }
    let d: u8 = (n % 10) as u8;
    let c: char = (48u8 + d) as char;
    push_char(s, c);
    proof {
        assert(c == digit_char((n % 10) as nat));
        if n >= 10 {
            assert(decimal_of(n as nat) == decimal_of((n / 10) as nat).push(digit_char((n % 10) as nat)));
        }
    }
    assert(s@ =~= old(s)@ + decimal_of(n as nat));
}

/// The code of `c` with ASCII capitals lowered, as
/// `char::to_ascii_lowercase` gives it.
pub open spec fn ascii_lower_code(c: char) -> u32 {
    if 65 <= (c as u32) <= 90 {
        ((c as u32) + 32) as u32
    } else {
        c as u32
    }
}

/// Lowering in ASCII gives one text only.
pub proof fn lemma_ascii_lower_is_unique(s: Seq<char>, a: Seq<char>, b: Seq<char>)
    requires
        ascii_lower_is(s, a),
        ascii_lower_is(s, b),
    ensures
        a == b,
{
    assert forall|i: int| 0 <= i < s.len() implies #[trigger] a[i] == b[i] by {
        assert(ascii_lower_code(s[i]) == a[i] as u32);
        assert(ascii_lower_code(s[i]) == b[i] as u32);
        vstd::utf8::char_u32_cast(a[i], a[i] as u32);
        vstd::utf8::char_u32_cast(b[i], b[i] as u32);
    }
    assert(a =~= b);
}

/// `lower` is `s` with ASCII capitals lowered, character for character.
pub open spec fn ascii_lower_is(s: Seq<char>, lower: Seq<char>) -> bool {
    s.len() == lower.len() && forall|i: int| 0 <= i < s.len() ==> ascii_lower_code(#[trigger] s[i]) == lower[i] as u32
}

/// Whether `s` lowered in ASCII equals the lowercase ASCII text `lower`.
pub fn eq_ascii_lowercase(s: &str, lower: &str) -> (r: bool)
    ensures
        r == ascii_lower_is(s@, lower@),
{
    let n = s.unicode_len();
    if n != lower.unicode_len() {
        return false;
    }
    let mut i: usize = 0;
    while i < n
        invariant
            n == s@.len(),
            n == lower@.len(),
            i <= n,
            forall|j: int| 0 <= j < i ==> ascii_lower_code(#[trigger] s@[j]) == lower@[j] as u32,
        decreases n - i,
    {
        let c = s.get_char(i) as u32;
        let code = if 65 <= c && c <= 90 { c + 32 } else { c };
        if code != lower.get_char(i) as u32 {
            return false;
        }
        i = i + 1;
    }
    true
}

} // verus!
