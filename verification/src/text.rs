//! Character-level building blocks shared by the electron-configuration
//! notation and the name/category normalization: decimal digits, Unicode
//! superscript digits, ASCII case folding, and substring containment.

use vstd::arithmetic::div_mod::lemma_fundamental_div_mod;
use vstd::prelude::*;

verus! {

/// True for the ten ASCII decimal digit characters.
pub open spec fn is_dec_digit(c: char) -> bool {
    '0' <= c && c <= '9'
}

/// Numeric value of an ASCII decimal digit character (meaningful only when
/// `is_dec_digit` holds).
pub open spec fn digit_val(c: char) -> int {
    if c == '0' { 0 } else if c == '1' { 1 } else if c == '2' { 2 }
    else if c == '3' { 3 } else if c == '4' { 4 } else if c == '5' { 5 }
    else if c == '6' { 6 } else if c == '7' { 7 } else if c == '8' { 8 }
    else if c == '9' { 9 } else { 10 }
}

/// ASCII decimal digit character for a value (meaningful only for 0..=9).
pub open spec fn digit_char(d: int) -> char {
    if d == 0 { '0' } else if d == 1 { '1' } else if d == 2 { '2' }
    else if d == 3 { '3' } else if d == 4 { '4' } else if d == 5 { '5' }
    else if d == 6 { '6' } else if d == 7 { '7' } else if d == 8 { '8' }
    else { '9' }
}

/// Unicode superscript digit character for a value (meaningful only for 0..=9).
pub open spec fn sup_char(d: int) -> char {
    if d == 0 { '⁰' } else if d == 1 { '¹' } else if d == 2 { '²' }
    else if d == 3 { '³' } else if d == 4 { '⁴' } else if d == 5 { '⁵' }
    else if d == 6 { '⁶' } else if d == 7 { '⁷' } else if d == 8 { '⁸' }
    else { '⁹' }
}

/// Decimal rendering of `n` in the range 0..=999: up to three digits, with
/// leading zero digits suppressed (6 renders as "6", not "006").
pub open spec fn dec_digits(n: int) -> Seq<char> {
    if n < 10 {
        seq![digit_char(n)]
    } else if n < 100 {
        seq![digit_char(n / 10), digit_char(n % 10)]
    } else {
        seq![digit_char(n / 100), digit_char((n / 10) % 10), digit_char(n % 10)]
    }
}

/// Superscript rendering of `n` in the range 0..=999, with the same digit
/// decomposition and leading-zero suppression as `dec_digits`.
pub open spec fn sup_digits(n: int) -> Seq<char> {
    if n < 10 {
        seq![sup_char(n)]
    } else if n < 100 {
        seq![sup_char(n / 10), sup_char(n % 10)]
    } else {
        seq![sup_char(n / 100), sup_char((n / 10) % 10), sup_char(n % 10)]
    }
}

/// True when every character of `s` is an ASCII decimal digit.
pub open spec fn all_dec_digits(s: Seq<char>) -> bool {
    forall|i: int| 0 <= i < s.len() ==> is_dec_digit(#[trigger] s[i])
}

/// Value of a big-endian sequence of decimal digit characters; the empty
/// sequence has value 0.
pub open spec fn digits_val(s: Seq<char>) -> int
    decreases s.len(),
{
    if s.len() == 0 {
        0
    } else {
        digits_val(s.drop_last()) * 10 + digit_val(s.last())
    }
}

/// ASCII lowercase image of one character: 'A'..='Z' fold to 'a'..='z',
/// every other character is unchanged.
pub open spec fn lower_char(c: char) -> char {
    if c == 'A' { 'a' } else if c == 'B' { 'b' } else if c == 'C' { 'c' }
    else if c == 'D' { 'd' } else if c == 'E' { 'e' } else if c == 'F' { 'f' }
    else if c == 'G' { 'g' } else if c == 'H' { 'h' } else if c == 'I' { 'i' }
    else if c == 'J' { 'j' } else if c == 'K' { 'k' } else if c == 'L' { 'l' }
    else if c == 'M' { 'm' } else if c == 'N' { 'n' } else if c == 'O' { 'o' }
    else if c == 'P' { 'p' } else if c == 'Q' { 'q' } else if c == 'R' { 'r' }
    else if c == 'S' { 's' } else if c == 'T' { 't' } else if c == 'U' { 'u' }
    else if c == 'V' { 'v' } else if c == 'W' { 'w' } else if c == 'X' { 'x' }
    else if c == 'Y' { 'y' } else if c == 'Z' { 'z' } else { c }
}

/// ASCII-lowercase image of a character sequence.
pub open spec fn lower_seq(s: Seq<char>) -> Seq<char> {
    s.map_values(|c: char| lower_char(c))
}

/// ASCII lowercase of one character, as `lower_char` describes.
pub fn to_lower(c: char) -> (r: char)
    ensures
        r == lower_char(c),
{
    match c {
        'A' => 'a', 'B' => 'b', 'C' => 'c', 'D' => 'd', 'E' => 'e',
        'F' => 'f', 'G' => 'g', 'H' => 'h', 'I' => 'i', 'J' => 'j',
        'K' => 'k', 'L' => 'l', 'M' => 'm', 'N' => 'n', 'O' => 'o',
        'P' => 'p', 'Q' => 'q', 'R' => 'r', 'S' => 's', 'T' => 't',
        'U' => 'u', 'V' => 'v', 'W' => 'w', 'X' => 'x', 'Y' => 'y',
        'Z' => 'z', _ => c,
    }
}

/// One-character string for a decimal digit value.
pub fn digit_str(d: u8) -> (r: &'static str)
    requires
        d < 10,
    ensures
        r@ == seq![digit_char(d as int)],
{
    proof {
        reveal_strlit("0");
        reveal_strlit("1");
        reveal_strlit("2");
        reveal_strlit("3");
        reveal_strlit("4");
        reveal_strlit("5");
        reveal_strlit("6");
        reveal_strlit("7");
        reveal_strlit("8");
        reveal_strlit("9");
    }
    let r = match d {
        0 => "0",
        1 => "1",
        2 => "2",
        3 => "3",
        4 => "4",
        5 => "5",
        6 => "6",
        7 => "7",
        8 => "8",
        _ => "9",
    };
    proof {
        assert(r@ =~= seq![digit_char(d as int)]);
    }
    r
}

/// One-character string for a superscript digit value.
pub fn superscript_digit_str(d: u8) -> (r: &'static str)
    requires
        d < 10,
    ensures
        r@ == seq![sup_char(d as int)],
{
    proof {
        reveal_strlit("⁰");
        reveal_strlit("¹");
        reveal_strlit("²");
        reveal_strlit("³");
        reveal_strlit("⁴");
        reveal_strlit("⁵");
        reveal_strlit("⁶");
        reveal_strlit("⁷");
        reveal_strlit("⁸");
        reveal_strlit("⁹");
    }
    let r = match d {
        0 => "⁰",
        1 => "¹",
        2 => "²",
        3 => "³",
        4 => "⁴",
        5 => "⁵",
        6 => "⁶",
        7 => "⁷",
        8 => "⁸",
        _ => "⁹",
    };
    proof {
        assert(r@ =~= seq![sup_char(d as int)]);
    }
    r
}

/// Appends the decimal rendering of `n` to `s`.
pub fn push_dec(s: &mut String, n: u8)
    ensures
        final(s)@ == old(s)@ + dec_digits(n as int),
{
    let h = n / 100;
    let t = (n / 10) % 10;
    let u = n % 10;
    if h > 0 {
        s.append(digit_str(h));
    }
    if h > 0 || t > 0 {
        s.append(digit_str(t));
    }
    s.append(digit_str(u));
    proof {
        assert(s@ =~= old(s)@ + dec_digits(n as int));
    }
}

/// Appends the superscript rendering of `n` to `s`.
pub fn push_sup(s: &mut String, n: u8)
    ensures
        final(s)@ == old(s)@ + sup_digits(n as int),
{
    let h = n / 100;
    let t = (n / 10) % 10;
    let u = n % 10;
    if h > 0 {
        s.append(superscript_digit_str(h));
    }
    if h > 0 || t > 0 {
        s.append(superscript_digit_str(t));
    }
    s.append(superscript_digit_str(u));
    proof {
        assert(s@ =~= old(s)@ + sup_digits(n as int));
    }
}

/// Character-for-character string equality.
#[verifier::loop_isolation(false)]
pub fn str_eq(a: &str, b: &str) -> (r: bool)
    ensures
        r == (a@ == b@),
{
    let na = a.unicode_len();
    let nb = b.unicode_len();
    if na != nb {
        proof {
            assert(a@ != b@);
        }
        return false;
    }
    let mut i: usize = 0;
    while i < na
        invariant
            i <= na,
            forall|k: int| 0 <= k < i ==> a@[k] == b@[k],
        decreases na - i,
    {
        if a.get_char(i) != b.get_char(i) {
            return false;
        }
        i = i + 1;
    }
    proof {
        assert(a@ =~= b@);
    }
    true
}

/// `needle` occurs contiguously somewhere in `hay`.
pub open spec fn spec_contains(hay: Seq<char>, needle: Seq<char>) -> bool {
    exists|i: int|
        0 <= i <= hay.len() - needle.len() && #[trigger] hay.subrange(i, i + needle.len())
            == needle
}

/// `s` begins with `prefix`.
pub open spec fn spec_starts_with(s: Seq<char>, prefix: Seq<char>) -> bool {
    s.len() >= prefix.len() && s.subrange(0, prefix.len() as int) == prefix
}

/// Whether the lowercased characters of `hay` starting at position `i` read
/// exactly as `needle`.
#[verifier::loop_isolation(false)]
fn lower_match_at(hay: &str, needle: &str, i: usize) -> (r: bool)
    requires
        i + needle@.len() <= hay@.len(),
    ensures
        r == (lower_seq(hay@).subrange(i as int, i + needle@.len()) == needle@),
{
    let nh = hay.unicode_len();
    let nn = needle.unicode_len();
    let ghost sub = lower_seq(hay@).subrange(i as int, i + needle@.len());
    let mut j: usize = 0;
    while j < nn
        invariant
            j <= nn,
            nh == hay@.len(),
            forall|m: int| 0 <= m < j ==> lower_char(hay@[i + m]) == needle@[m],
        decreases nn - j,
    {
        if to_lower(hay.get_char(i + j)) != needle.get_char(j) {
            proof {
                assert(sub[j as int] == lower_char(hay@[i + j]));
            }
            return false;
        }
        j = j + 1;
    }
    proof {
        assert(sub =~= needle@);
    }
    true
}

/// Whether the ASCII-lowercased `hay` contains `needle` as a contiguous
/// substring; `needle` is taken as written (so a lowercase needle makes the
/// search case-insensitive in `hay`).
#[verifier::loop_isolation(false)]
pub fn contains_lower(hay: &str, needle: &str) -> (r: bool)
    ensures
        r == spec_contains(lower_seq(hay@), needle@),
{
    let nh = hay.unicode_len();
    let nn = needle.unicode_len();
    if nn > nh {
        return false;
    }
    let mut i: usize = 0;
    loop
        invariant
            i <= nh - nn,
            forall|k: int|
                0 <= k < i ==> #[trigger] lower_seq(hay@).subrange(k, k + needle@.len())
                    != needle@,
        decreases nh - nn - i,
    {
        if lower_match_at(hay, needle, i) {
            return true;
        }
        if i == nh - nn {
            return false;
        }
        i = i + 1;
    }
}

/// Whether the ASCII-lowercased `hay` begins with `prefix` (taken as
/// written).
#[verifier::loop_isolation(false)]
pub fn starts_with_lower(hay: &str, prefix: &str) -> (r: bool)
    ensures
        r == spec_starts_with(lower_seq(hay@), prefix@),
{
    let nh = hay.unicode_len();
    let np = prefix.unicode_len();
    if np > nh {
        return false;
    }
    lower_match_at(hay, prefix, 0)
}

/// Whether the ASCII-lowercased `a` reads exactly as `b` (taken as
/// written).
#[verifier::loop_isolation(false)]
pub fn eq_lower(a: &str, b: &str) -> (r: bool)
    ensures
        r == (lower_seq(a@) == b@),
{
    let na = a.unicode_len();
    let nb = b.unicode_len();
    if na != nb {
        return false;
    }
    let r = lower_match_at(a, b, 0);
    proof {
        assert(lower_seq(a@).subrange(0, b@.len() as int) =~= lower_seq(a@));
    }
    r
}

/// Whether `a` and `b` read the same after ASCII case folding of both.
#[verifier::loop_isolation(false)]
pub fn eq_fold(a: &str, b: &str) -> (r: bool)
    ensures
        r == (lower_seq(a@) == lower_seq(b@)),
{
    let na = a.unicode_len();
    let nb = b.unicode_len();
    if na != nb {
        proof {
            assert(lower_seq(a@).len() == a@.len());
            assert(lower_seq(b@).len() == b@.len());
        }
        return false;
    }
    let mut i: usize = 0;
    while i < na
        invariant
            i <= na,
            forall|k: int| 0 <= k < i ==> lower_char(a@[k]) == lower_char(b@[k]),
        decreases na - i,
    {
        if to_lower(a.get_char(i)) != to_lower(b.get_char(i)) {
            proof {
                assert(lower_seq(a@)[i as int] != lower_seq(b@)[i as int]);
            }
            return false;
        }
        i = i + 1;
    }
    proof {
        assert(lower_seq(a@) =~= lower_seq(b@));
    }
    true
}

/// A digit-sequence value is never negative (digit values are 0..=10).
pub proof fn lemma_digits_val_nonneg(s: Seq<char>)
    ensures
        digits_val(s) >= 0,
    decreases s.len(),
{
    if s.len() > 0 {
        lemma_digits_val_nonneg(s.drop_last());
    }
}

/// Extending a digit sequence on the right never shrinks its value: the
/// value of any prefix is a lower bound for the value of the whole.
pub proof fn lemma_digits_val_prefix_mono(s: Seq<char>, k: int)
    requires
        0 <= k <= s.len(),
    ensures
        digits_val(s) >= digits_val(s.subrange(0, k)),
    decreases s.len() - k,
{
    if k == s.len() {
        assert(s.subrange(0, k) =~= s);
    } else {
        let p = s.subrange(0, k);
        let q = s.subrange(0, k + 1);
        assert(q.drop_last() =~= p);
        lemma_digits_val_nonneg(p);
        assert(digits_val(q) == digits_val(p) * 10 + digit_val(q.last()));
        assert(digits_val(q) >= digits_val(p));
        lemma_digits_val_prefix_mono(s, k + 1);
    }
}

/// The decimal rendering of a value in 0..=999 is made of digit characters
/// and reads back as that value.
pub proof fn lemma_dec_digits_val(n: int)
    requires
        0 <= n <= 999,
    ensures
        all_dec_digits(dec_digits(n)),
        digits_val(dec_digits(n)) == n,
        1 <= dec_digits(n).len() <= 3,
{
    lemma_fundamental_div_mod(n, 10);
    lemma_fundamental_div_mod(n / 10, 10);
    assert(digits_val(Seq::<char>::empty()) == 0);
    if n < 10 {
        let s = seq![digit_char(n)];
        assert(s.drop_last() =~= Seq::<char>::empty());
        assert(digits_val(s) == digits_val(s.drop_last()) * 10 + digit_val(s.last()));
    } else if n < 100 {
        let s = seq![digit_char(n / 10), digit_char(n % 10)];
        let s1 = seq![digit_char(n / 10)];
        assert(s.drop_last() =~= s1);
        assert(s1.drop_last() =~= Seq::<char>::empty());
        assert(digits_val(s1) == digits_val(s1.drop_last()) * 10 + digit_val(s1.last()));
        assert(digits_val(s) == digits_val(s.drop_last()) * 10 + digit_val(s.last()));
    } else {
        let s = seq![digit_char(n / 100), digit_char((n / 10) % 10), digit_char(n % 10)];
        let s2 = seq![digit_char(n / 100), digit_char((n / 10) % 10)];
        let s1 = seq![digit_char(n / 100)];
        assert(s.drop_last() =~= s2);
        assert(s2.drop_last() =~= s1);
        assert(s1.drop_last() =~= Seq::<char>::empty());
        assert(digits_val(s1) == digits_val(s1.drop_last()) * 10 + digit_val(s1.last()));
        assert(digits_val(s2) == digits_val(s2.drop_last()) * 10 + digit_val(s2.last()));
        assert(digits_val(s) == digits_val(s.drop_last()) * 10 + digit_val(s.last()));
        assert(n / 100 <= 9);
        assert(n / 10 == (n / 100) * 10 + (n / 10) % 10) by {
            lemma_fundamental_div_mod(n / 10, 10);
            vstd::arithmetic::div_mod::lemma_div_denominator(n, 10, 10);
        }
        assert(digits_val(s) == ((n / 100) * 10 + (n / 10) % 10) * 10 + n % 10);
    }
}

} // verus!
