//! Numbers written in decimal.

use crate::strings::{
    ascii_lowercase, ascii_lowered, chars_of, cut, cut_text, decimal, digit, law_lower_case, lemma_cut,
    lemma_cut_at, same, slice,
};
use vstd::prelude::*;

verus! {

/// `c` is a decimal digit.
pub open spec fn is_digit(c: char) -> bool {
    '0' <= c <= '9'
}

/// All of `s` are decimal digits.
pub open spec fn all_digits(s: Seq<char>) -> bool {
    forall|i: int| 0 <= i < s.len() ==> is_digit(#[trigger] s[i])
}

/// The number that the digits of `s` write.
pub open spec fn value(s: Seq<char>) -> nat
    decreases s.len(),
{
    if s.len() == 0 {
        0
    } else {
        10 * value(s.drop_last()) + (s.last() as u32 - '0' as u32) as nat
    }
}

/// `s` without the plus sign that it may begin with.
pub open spec fn behind_plus(s: Seq<char>) -> Seq<char> {
    if s.len() > 0 && s[0] == '+' {
        s.skip(1)
    } else {
        s
    }
}

/// The number up to `max` that `s` writes: digits, behind a plus sign or not.
pub open spec fn uint_in(s: Seq<char>, max: nat) -> Option<nat> {
    let digits = behind_plus(s);
    if digits.len() > 0 && all_digits(digits) && value(digits) <= max {
        Some(value(digits))
    } else {
        None
    }
}

/// More digits do not make a number smaller.
proof fn lemma_value_grows(s: Seq<char>, k: int)
    requires
        0 <= k <= s.len(),
        all_digits(s),
    ensures
        value(s.take(k)) <= value(s),
    decreases s.len() - k,
{
    if k == s.len() {
        assert(s.take(k) =~= s);
    } else {
        lemma_value_grows(s, k + 1);
        assert(s.take(k + 1).drop_last() =~= s.take(k));
        assert(is_digit(s[k]));
    }
}

/// Reads a number up to `max`.
pub fn parse_uint(s: &str, max: u64) -> (r: Option<u64>)
    ensures
        match r {
            Some(n) => uint_in(s@, max as nat) == Some(n as nat),
            None => uint_in(s@, max as nat) is None,
        },
{
    let text = chars_of(s);
    let start: usize = if text.len() > 0 && text[0] == '+' {
        1
    } else {
        0
    };
    let ghost digits = behind_plus(s@);
    assert(digits =~= s@.skip(start as int));
    if start == text.len() {
        return None;
    }
    let mut n: u64 = 0;
    let mut i: usize = start;
    assert(digits.take(0) =~= Seq::empty());
    while i < text.len()
        invariant
            start <= i <= text@.len(),
            text@ == s@,
            digits == behind_plus(s@),
            digits == s@.skip(start as int),
            all_digits(digits.take(i - start)),
            n == value(digits.take(i - start)),
            n <= max,
        decreases text@.len() - i,
    {
        let c = text[i];
        let ghost k = i - start;
        assert(c == digits[k]);
        if !('0' <= c && c <= '9') {
            assert(!all_digits(digits));
            return None;
        }
        let d: u64 = (c as u32 - '0' as u32) as u64;
        assert(digits.take(k + 1).drop_last() =~= digits.take(k));
        assert forall|j: int| 0 <= j < k + 1 implies is_digit(
            #[trigger] digits.take(k + 1)[j],
        ) by {
            if j < k {
                assert(is_digit(digits.take(k)[j]));
            }
        }
        if n > max / 10 || d > max - 10 * n {
            proof {
                if all_digits(digits) {
                    lemma_value_grows(digits, k + 1);
                }
            }
            return None;
        }
        n = 10 * n + d;
        i += 1;
    }
    assert(digits.take(i - start) =~= digits);
    Some(n)
}

/// `s` without the sign that it may begin with.
pub open spec fn behind_sign(s: Seq<char>) -> Seq<char> {
    if s.len() > 0 && (s[0] == '+' || s[0] == '-') {
        s.skip(1)
    } else {
        s
    }
}

/// `s` is the part of a decimal number before the exponent: digits with or without a point among
/// them.
pub open spec fn is_mantissa(s: Seq<char>) -> bool {
    match cut(s, "."@) {
        None => s.len() > 0 && all_digits(s),
        Some((whole, part)) => whole.len() + part.len() > 0 && all_digits(whole) && all_digits(
            part,
        ),
    }
}

/// `s`, in lower case, is a decimal number, infinity or not a number, as a text that Rust reads as a
/// floating-point number is.
pub open spec fn is_decimal(s: Seq<char>) -> bool {
    let body = behind_sign(ascii_lowered(s));
    ||| body == "inf"@ || body == "infinity"@ || body == "nan"@
    ||| match cut(body, "e"@) {
        None => is_mantissa(body),
        Some((mantissa, exponent)) => {
            &&& is_mantissa(mantissa)
            &&& behind_sign(exponent).len() > 0
            &&& all_digits(behind_sign(exponent))
        },
    }
}

/// `s` without the sign that it may begin with.
fn strip_sign(s: &str) -> (r: String)
    ensures
        r@ == behind_sign(s@),
{
    let total: usize = s.unicode_len();
    if total == 0 {
        return s.to_owned();
    }
    let c = s.get_char(0);
    if c == '+' || c == '-' {
        slice(s, 1, total)
    } else {
        s.to_owned()
    }
}

/// Whether all of `s` are decimal digits.
fn has_digits_only(s: &str) -> (r: bool)
    ensures
        r == all_digits(s@),
{
    let text = chars_of(s);
    let mut i: usize = 0;
    while i < text.len()
        invariant
            text@ == s@,
            i <= text@.len(),
            forall|j: int| 0 <= j < i ==> is_digit(#[trigger] s@[j]),
        decreases text@.len() - i,
    {
        let c = text[i];
        if !('0' <= c && c <= '9') {
            assert(!is_digit(s@[i as int]));
            return false;
        }
        i += 1;
    }
    true
}

/// Whether `s` is the part of a decimal number before the exponent.
fn mantissa_like(s: &str) -> (r: bool)
    ensures
        r == is_mantissa(s@),
{
    match cut_text(s, ".") {
        None => !s.is_empty() && has_digits_only(s),
        Some((whole, part)) => (!whole.as_str().is_empty() || !part.as_str().is_empty())
            && has_digits_only(whole.as_str()) && has_digits_only(part.as_str()),
    }
}

/// Whether Rust reads `s` as a floating-point number.
pub fn is_decimal_text(s: &str) -> (r: bool)
    ensures
        r == is_decimal(s@),
{
    let lower = ascii_lowercase(s);
    let body = strip_sign(lower.as_str());
    if same(body.as_str(), "inf") || same(body.as_str(), "infinity") || same(body.as_str(), "nan") {
        return true;
    }
    match cut_text(body.as_str(), "e") {
        None => mantissa_like(body.as_str()),
        Some((mantissa, exponent)) => {
            let digits = strip_sign(exponent.as_str());
            mantissa_like(mantissa.as_str()) && !digits.as_str().is_empty() && has_digits_only(
                digits.as_str(),
            )
        },
    }
}

/// The digits of a number write that number.
pub proof fn law_written_numbers_are_read(n: nat, max: nat)
    ensures
        all_digits(decimal(n)),
        decimal(n).len() > 0,
        value(decimal(n)) == n,
        uint_in(decimal(n), max) == (if n <= max {
            Some(n)
        } else {
            None
        }),
        uint_in(seq!['+'] + decimal(n), max) == uint_in(decimal(n), max),
    decreases n,
{
    lemma_digit(n % 10);
    let last = digit(n % 10);
    reveal_with_fuel(value, 2);
    if n >= 10 {
        law_written_numbers_are_read(n / 10, max);
        let front = decimal(n / 10);
        let whole = decimal(n);
        assert(whole.drop_last() =~= front);
        assert(whole.last() == last[0]);
        assert forall|i: int| 0 <= i < whole.len() implies is_digit(#[trigger] whole[i]) by {
            if i < front.len() {
                assert(is_digit(front[i]));
            }
        }
    } else {
        assert(last.drop_last() =~= Seq::empty());
    }
    assert(is_digit(decimal(n)[0]));
    assert((seq!['+'] + decimal(n)).skip(1) =~= decimal(n));
}

/// A digit is one character, and writes its own number.
proof fn lemma_digit(d: nat)
    requires
        d < 10,
    ensures
        digit(d).len() == 1,
        is_digit(digit(d)[0]),
        digit(d)[0] as u32 - '0' as u32 == d,
{
    reveal_strlit("0");
    reveal_strlit("1");
    reveal_strlit("2");
    reveal_strlit("3");
    reveal_strlit("4");
    reveal_strlit("5");
    reveal_strlit("6");
    reveal_strlit("7");
    reveal_strlit("8");
    reveal_strlit("9");
}

/// What holds anything but digits, behind a plus sign or not, is no number, and neither is what holds
/// nothing or a number that is too large.
pub proof fn law_other_texts_are_no_numbers(s: Seq<char>, max: nat, i: int)
    ensures
        0 < i < s.len() && !is_digit(s[i]) ==> uint_in(s, max) is None,
        s.len() > 0 && !is_digit(s[0]) && s[0] != '+' ==> uint_in(s, max) is None,
        s.len() == 0 ==> uint_in(s, max) is None,
        s == seq!['+'] ==> uint_in(s, max) is None,
        uint_in(s, max) matches Some(n) ==> n <= max,
{
    if 0 < i < s.len() && !is_digit(s[i]) {
        if s[0] == '+' {
            assert(s.skip(1)[i - 1] == s[i]);
        }
    }
}

/// Digits are a decimal number, and so are digits around a point, as long as there are any.
pub proof fn law_decimals(whole: Seq<char>, part: Seq<char>)
    requires
        all_digits(whole),
        all_digits(part),
    ensures
        whole.len() > 0 ==> is_decimal(whole) && is_decimal(seq!['-'] + whole),
        whole.len() + part.len() > 0 ==> is_decimal(whole + "."@ + part),
        !is_decimal(Seq::empty()),
        !is_decimal("."@),
{
    reveal_strlit(".");
    reveal_strlit("e");
    reveal_strlit("inf");
    reveal_strlit("infinity");
    reveal_strlit("nan");
    assert("inf"@.len() == 3 && "infinity"@.len() == 8 && "nan"@.len() == 3);
    lemma_digits_alone(whole);
    let dotted = whole + "."@ + part;
    assert(ascii_lowered(dotted) =~= dotted) by {
        assert forall|i: int| 0 <= i < dotted.len() implies ascii_lowered(dotted)[i] == dotted[i] by {
            if i < whole.len() {
                assert(is_digit(whole[i]));
            } else if i > whole.len() {
                assert(is_digit(part[i - whole.len() - 1]));
            }
        }
    }
    if whole.len() > 0 {
        assert(is_digit(whole[0]));
        assert(dotted[0] == whole[0]);
    } else {
        assert(dotted[0] == '.');
    }
    assert(!dotted.contains('e')) by {
        assert forall|i: int| 0 <= i < dotted.len() implies dotted[i] != 'e' by {
            if i < whole.len() {
                assert(is_digit(whole[i]));
            } else if i > whole.len() {
                assert(is_digit(part[i - whole.len() - 1]));
            }
        }
    }
    lemma_cut_without(dotted, "e"@);
    assert(!whole.contains('.')) by {
        assert forall|i: int| 0 <= i < whole.len() implies whole[i] != '.' by {
            assert(is_digit(whole[i]));
        }
    }
    lemma_cut_at(whole, "."@, part);
    let signed = seq!['-'] + whole;
    assert(ascii_lowered(signed).skip(1) =~= ascii_lowered(whole));
    let none = Seq::<char>::empty();
    assert(ascii_lowered(none) =~= none);
    lemma_cut_without(none, "e"@);
    lemma_cut_without(none, "."@);
    assert(ascii_lowered("."@) =~= "."@);
    assert(!"."@.contains('e'));
    lemma_cut_without("."@, "e"@);
    lemma_cut_at(none, "."@, none);
    assert(none + "."@ + none =~= "."@);
}

/// Digits alone are a decimal number.
proof fn lemma_digits_alone(whole: Seq<char>)
    requires
        all_digits(whole),
    ensures
        ascii_lowered(whole) == whole,
        whole.len() > 0 ==> behind_sign(whole) == whole,
        cut(whole, "e"@) is None,
        cut(whole, "."@) is None,
        whole.len() > 0 ==> is_mantissa(whole),
{
    reveal_strlit(".");
    reveal_strlit("e");
    assert forall|i: int| 0 <= i < whole.len() implies whole[i] != '.' && whole[i] != 'e'
        && ascii_lowered(whole)[i] == whole[i] by {
        assert(is_digit(whole[i]));
    }
    assert(ascii_lowered(whole) =~= whole);
    assert(!whole.contains('e') && !whole.contains('.'));
    lemma_cut_without(whole, "e"@);
    lemma_cut_without(whole, "."@);
    if whole.len() > 0 {
        assert(is_digit(whole[0]));
    }
}

/// A text without a character is not cut at it.
proof fn lemma_cut_without(s: Seq<char>, pat: Seq<char>)
    requires
        pat.len() == 1,
        !s.contains(pat[0]),
    ensures
        cut(s, pat) is None,
{
    lemma_cut(s, pat);
    if let Some((before, after)) = cut(s, pat) {
        assert(s[before.len() as int] == pat[0]);
    }
}

/// A number may have an exponent, with or without a sign, behind an `e` in either case; without digits
/// it is none.
pub proof fn law_exponents(whole: Seq<char>, digits: Seq<char>)
    requires
        whole.len() > 0,
        all_digits(whole),
        all_digits(digits),
    ensures
        is_decimal(whole + "e"@ + digits) <==> digits.len() > 0,
        digits.len() > 0 ==> is_decimal(whole + "e"@ + (seq!['-'] + digits)) && is_decimal(
            whole + "e"@ + (seq!['+'] + digits),
        ),
{
    reveal_strlit("e");
    lemma_with_exponent(whole, digits);
    lemma_with_exponent(whole, seq!['-'] + digits);
    lemma_with_exponent(whole, seq!['+'] + digits);
    if digits.len() > 0 {
        assert(is_digit(digits[0]));
    }
    assert(behind_sign(seq!['-'] + digits) =~= digits);
    assert(behind_sign(seq!['+'] + digits) =~= digits);
}

/// Digits with something behind an `e` are a number where that is an exponent.
proof fn lemma_with_exponent(whole: Seq<char>, exponent: Seq<char>)
    requires
        whole.len() > 0,
        all_digits(whole),
        forall|i: int|
            0 <= i < exponent.len() ==> is_digit(#[trigger] exponent[i]) || exponent[i] == '-'
                || exponent[i] == '+',
    ensures
        is_decimal(whole + "e"@ + exponent) <==> behind_sign(exponent).len() > 0 && all_digits(
            behind_sign(exponent),
        ),
{
    reveal_strlit("e");
    reveal_strlit("inf");
    reveal_strlit("infinity");
    reveal_strlit("nan");
    let s = whole + "e"@ + exponent;
    lemma_digits_alone(whole);
    assert(is_digit(whole[0]));
    assert(s[0] == whole[0]);
    assert(ascii_lowered(s) =~= s) by {
        assert forall|i: int| 0 <= i < s.len() implies ascii_lowered(s)[i] == s[i] by {
            if i < whole.len() {
                assert(is_digit(whole[i]));
            } else if i > whole.len() {
                let c = exponent[i - whole.len() - 1];
                assert(is_digit(c) || c == '-' || c == '+');
            }
        }
    }
    assert(!whole.contains('e')) by {
        assert forall|i: int| 0 <= i < whole.len() implies whole[i] != 'e' by {
            assert(is_digit(whole[i]));
        }
    }
    lemma_cut_at(whole, "e"@, exponent);
    assert("inf"@[0] == 'i' && "infinity"@[0] == 'i' && "nan"@[0] == 'n');
}

/// The case of the letters in a number makes no difference, and a sign before one makes none either.
pub proof fn law_case_and_sign_do_not_count(s: Seq<char>, other: Seq<char>)
    ensures
        ascii_lowered(s) == ascii_lowered(other) ==> is_decimal(s) == is_decimal(other),
        s.len() > 0 && s[0] != '+' && s[0] != '-' ==> is_decimal(seq!['-'] + s) == is_decimal(s)
            && is_decimal(seq!['+'] + s) == is_decimal(s),
        ascii_lowered(s) == seq!['i', 'n', 'f'] || ascii_lowered(s) == seq!['n', 'a', 'n']
            ==> is_decimal(s),
{
    reveal_strlit("inf");
    reveal_strlit("nan");
    assert("inf"@ =~= seq!['i', 'n', 'f']);
    assert("nan"@ =~= seq!['n', 'a', 'n']);
    let minus = seq!['-'] + s;
    let plus = seq!['+'] + s;
    assert(ascii_lowered(minus)[0] == '-');
    assert(ascii_lowered(plus)[0] == '+');
    assert(ascii_lowered(minus).skip(1) =~= ascii_lowered(s));
    assert(ascii_lowered(plus).skip(1) =~= ascii_lowered(s));
    if s.len() > 0 {
        law_lower_case(s, 0);
        assert(ascii_lowered(s)[0] == '+' ==> s[0] == '+');
        assert(ascii_lowered(s)[0] == '-' ==> s[0] == '-');
    }
}

/// A number holds digits, a point, signs and an `e`, and nothing else, unless it is infinite or no
/// number.
pub proof fn law_numbers_hold_nothing_else(s: Seq<char>, i: int)
    requires
        is_decimal(s),
        0 <= i < s.len(),
    ensures
        ({
            let c = ascii_lowered(s)[i];
            let body = behind_sign(ascii_lowered(s));
            ||| is_digit(c) || c == '.' || c == 'e' || c == '+' || c == '-'
            ||| body == "inf"@ || body == "infinity"@ || body == "nan"@
        }),
{
    reveal_strlit("e");
    let low = ascii_lowered(s);
    let body = behind_sign(low);
    let d = low.len() - body.len();
    if body != "inf"@ && body != "infinity"@ && body != "nan"@ && i >= d {
        let k = i - d;
        assert(body[k] == low[i]);
        lemma_cut(body, "e"@);
        match cut(body, "e"@) {
            None => {
                lemma_mantissa_characters(body, k);
            },
            Some((mantissa, exponent)) => {
                let n = mantissa.len() as int;
                if k < n {
                    lemma_mantissa_characters(mantissa, k);
                    assert(body[k] == mantissa[k]);
                } else if k > n {
                    let digits = behind_sign(exponent);
                    let e = exponent.len() - digits.len();
                    assert(body[k] == exponent[k - n - 1]);
                    if k - n - 1 >= e {
                        assert(digits[k - n - 1 - e] == exponent[k - n - 1]);
                        assert(is_digit(digits[k - n - 1 - e]));
                    }
                }
            },
        }
    }
}

/// What stands before the exponent holds digits and a point.
proof fn lemma_mantissa_characters(s: Seq<char>, i: int)
    requires
        is_mantissa(s),
        0 <= i < s.len(),
    ensures
        is_digit(s[i]) || s[i] == '.',
{
    reveal_strlit(".");
    lemma_cut(s, "."@);
    if let Some((whole, part)) = cut(s, "."@) {
        if i < whole.len() {
            assert(s[i] == whole[i]);
        } else if i > whole.len() {
            assert(s[i] == part[i - whole.len() - 1]);
        }
    }
}

} // verus!
