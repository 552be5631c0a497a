//! Predicates on characters and strings shared by the tokenizer and the
//! registry.

use vstd::prelude::*;
use vstd::string::*;

verus! {

/// A letter of the basic Latin alphabet, in either case.
pub open spec fn is_letter(c: char) -> bool {
    ('a' <= c && c <= 'z') || ('A' <= c && c <= 'Z')
}

/// Every character of `s` is a letter.
pub open spec fn all_letters(s: Seq<char>) -> bool {
    forall|i: int| 0 <= i < s.len() ==> is_letter(#[trigger] s[i])
}

/// `s` begins with a dash.
pub open spec fn has_dash_prefix(s: Seq<char>) -> bool {
    s.len() > 0 && s[0] == '-'
}

pub fn is_alpha(c: char) -> (r: bool)
    ensures
        r == is_letter(c),
{
    (c >= 'a' && c <= 'z') || (c >= 'A' && c <= 'Z')
}

pub fn is_alphabetic(s: &str) -> (r: bool)
    ensures
        r == all_letters(s@),
{
    let n = s.unicode_len();
    let mut i: usize = 0;
    while i < n
        invariant
            n == s@.len(),
            i <= n,
            forall|j: int| 0 <= j < i ==> is_letter(#[trigger] s@[j]),
        decreases n - i,
    {
        if !is_alpha(s.get_char(i)) {
            return false;
        }
        i += 1;
    }
    true
}

pub fn starts_with_dash(s: &str) -> (r: bool)
    ensures
        r == has_dash_prefix(s@),
{
    s.unicode_len() > 0 && s.get_char(0) == '-'
}

/// The character for a digit.
pub open spec fn digit(d: nat) -> char {
    if d == 0 {
        '0'
    } else if d == 1 {
        '1'
    } else if d == 2 {
        '2'
    } else if d == 3 {
        '3'
    } else if d == 4 {
        '4'
    } else if d == 5 {
        '5'
    } else if d == 6 {
        '6'
    } else if d == 7 {
        '7'
    } else if d == 8 {
        '8'
    } else {
        '9'
    }
}

/// A number written in decimal digits, without leading zeros.
pub open spec fn decimal(n: nat) -> Seq<char>
    decreases n,
{
    if n < 10 {
        seq![digit(n)]
    } else {
        decimal(n / 10).push(digit(n % 10))
    }
}

/// The text of a digit.
pub fn digit_str(d: usize) -> (s: &'static str)
    requires
        d < 10,
    ensures
        s@ == seq![digit(d as nat)],
{
    proof {
        reveal_strlit("0");
        reveal_strlit("1");
        reveal_strlit("2");
        reveal_strlit("3");
        reveal_strlit("4");
        reveal_strlit("5");
        reveal_strlit("6");
        reveal_strlit("7");
        reveal_strlit("8");
        reveal_strlit("9");
    }
    let s = if d == 0 {
        "0"
    } else if d == 1 {
        "1"
    } else if d == 2 {
        "2"
    } else if d == 3 {
        "3"
    } else if d == 4 {
        "4"
    } else if d == 5 {
        "5"
    } else if d == 6 {
        "6"
    } else if d == 7 {
        "7"
    } else if d == 8 {
        "8"
    } else {
        "9"
    };
    assert(s@ =~= seq![digit(d as nat)]);
    s
}

/// Writes a number in decimal digits.
pub fn to_decimal(n: usize) -> (s: String)
    ensures
        s@ == decimal(n as nat),
{
    let mut s = digit_str(n % 10).to_owned();
    let mut rest: usize = n / 10;
    assert(n >= 10 ==> decimal(n as nat) =~= decimal(rest as nat) + s@);
    while rest > 0
        invariant
            rest > 0 ==> decimal(n as nat) == decimal(rest as nat) + s@,
            rest == 0 ==> decimal(n as nat) == s@,
        decreases rest,
    {
        let ghost tail = s@;
        s = digit_str(rest % 10).to_owned().concat(s.as_str());
        assert(s@ =~= seq![digit((rest % 10) as nat)] + tail);
        proof {
            if rest >= 10 {
                assert(decimal(rest as nat) + tail =~= decimal((rest / 10) as nat) + s@);
            } else {
                assert(decimal(rest as nat) + tail =~= s@);
            }
        }
        rest = rest / 10;
    }
    s
}

/// The lower-case form that `str::to_lowercase` gives for a text.
pub uninterp spec fn lowercase_of(text: Seq<char>) -> Seq<char>;

/// The upper-case form that `str::to_uppercase` gives for a text.
pub uninterp spec fn uppercase_of(text: Seq<char>) -> Seq<char>;

/// The lower-case form of a text.
///
/// This calls `str::to_lowercase` of the standard library, which maps each
/// character by the rules of Unicode, some to more than one character. What
/// it gives depends on the text alone; nothing more is claimed of it here.
#[verifier::external_body]
pub(crate) fn lowercase(text: &str) -> (folded: String)
    ensures
        folded@ == lowercase_of(text@),
{
    text.to_lowercase()
}

/// The upper-case form of a text.
///
/// This calls `str::to_uppercase` of the standard library, which maps each
/// character by the rules of Unicode, some to more than one character. What
/// it gives depends on the text alone; nothing more is claimed of it here.
#[verifier::external_body]
pub(crate) fn uppercase(text: &str) -> (folded: String)
    ensures
        folded@ == uppercase_of(text@),
{
    text.to_uppercase()
}

} // verus!
