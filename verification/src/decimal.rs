//! Decimal numbers in text: reading a year given on the command line and
//! writing integers back out.

use vstd::prelude::*;
use crate::text::push_char;

verus! {

/// An ASCII decimal digit.
pub open spec fn is_digit(c: char) -> bool {
    48 <= (c as int) <= 57
}

/// The value of a digit character.
pub open spec fn digit_value(c: char) -> int {
    (c as int) - 48
}

/// Every character is a decimal digit.
pub open spec fn all_digits(s: Seq<char>) -> bool {
    forall|i: int| 0 <= i < s.len() ==> is_digit(#[trigger] s[i])
}

/// The number that a string of digits denotes, most significant first.
pub open spec fn digits_value(s: Seq<char>) -> int
    decreases s.len(),
{
    if s.len() == 0 {
        0
    } else {
        digits_value(s.drop_last()) * 10 + digit_value(s.last())
    }
}

/// What `str::parse::<i32>` yields: an optional `+` or `-`, then at least one
/// decimal digit and nothing else, denoting a value in the range of `i32`.
pub open spec fn spec_parse_i32(s: Seq<char>) -> Option<i32> {
    let signed = s.len() > 0 && (s[0] == '-' || s[0] == '+');
    let negative = s.len() > 0 && s[0] == '-';
    let body = if signed {
        s.drop_first()
    } else {
        s
    };
    if body.len() == 0 || !all_digits(body) {
        None
    } else {
        let v = if negative {
            -digits_value(body)
        } else {
            digits_value(body)
        };
        if i32::MIN <= v <= i32::MAX {
            Some(v as i32)
        } else {
            None
        }
    }
}

/// The character of a digit value `0..=9`.
pub open spec fn digit_char(d: int) -> char {
    (d + 48) as char
}

/// The shortest decimal text of a natural number.
pub open spec fn decimal_digits(n: nat) -> Seq<char>
    decreases n,
{
    if n < 10 {
        seq![digit_char(n as int)]
    } else {
        decimal_digits(n / 10).push(digit_char((n % 10) as int))
    }
}

/// The text that `Display` gives an integer: a `-` for negative values, then
/// the decimal digits of its magnitude.
pub open spec fn int_text(n: int) -> Seq<char> {
    if n < 0 {
        seq!['-'] + decimal_digits((-n) as nat)
    } else {
        decimal_digits(n as nat)
    }
}

/// The decimal text of a natural number is a non-empty run of digits that
/// denotes that number.
pub proof fn lemma_decimal_digits(n: nat)
    ensures
        decimal_digits(n).len() > 0,
        all_digits(decimal_digits(n)),
        digits_value(decimal_digits(n)) == n,
    decreases n,
{
    let c = digit_char((n % 10) as int);
    assert(c as int == (n % 10) + 48);
    if n < 10 {
        assert(decimal_digits(n) =~= seq![c]);
        assert(seq![c].drop_last() =~= Seq::<char>::empty());
        assert(n % 10 == n);
        assert(digits_value(seq![c]) == digits_value(Seq::<char>::empty()) * 10 + digit_value(c));
    }
    if n >= 10 {
        lemma_decimal_digits(n / 10);
        let s = decimal_digits(n);
        assert(s.drop_last() =~= decimal_digits(n / 10));
        assert(s.last() == c);
        assert(digits_value(s) == digits_value(s.drop_last()) * 10 + digit_value(c));
        assert(digit_value(c) == n % 10);
        assert((n / 10) * 10 + n % 10 == n);
        assert forall|i: int| 0 <= i < s.len() implies is_digit(#[trigger] s[i]) by {
            if i < s.len() - 1 {
                assert(s[i] == decimal_digits(n / 10)[i]);
            }
        }
    }
}

/// A prefix of a digit string never denotes more than the whole string.
proof fn lemma_prefix_value_le(s: Seq<char>, k: int)
    requires
        all_digits(s),
        0 <= k <= s.len(),
    ensures
        digits_value(s.take(k)) <= digits_value(s),
    decreases s.len(),
{
    if k < s.len() {
        assert(s.drop_last().take(k) =~= s.take(k));
        lemma_prefix_value_le(s.drop_last(), k);
        assert(digits_value(s.drop_last()) >= 0) by {
            lemma_value_nonneg(s.drop_last());
        }
    } else {
        assert(s.take(k) =~= s);
    }
}

proof fn lemma_value_nonneg(s: Seq<char>)
    requires
        all_digits(s),
    ensures
        digits_value(s) >= 0,
    decreases s.len(),
{
    if s.len() > 0 {
        lemma_value_nonneg(s.drop_last());
    }
}

/// Reads an `i32` written in decimal, as `str::parse::<i32>` does; `None`
/// where that parse fails.
pub fn parse_year(s: &str) -> (r: Option<i32>)
    ensures
        r == spec_parse_i32(s@),
{
    let n = s.unicode_len();
    if n == 0 {
        return None;
    }
    let first = s.get_char(0);
    let negative = first == '-';
    let start: usize = if first == '-' || first == '+' {
        1
    } else {
        0
    };
    let ghost body = if start == 1 {
        s@.drop_first()
    } else {
        s@
    };
    assert(body =~= s@.skip(start as int));
    assert(first == s@[0]);
    assert(body == (if s@.len() > 0 && (s@[0] == '-' || s@[0] == '+') {
        s@.drop_first()
    } else {
        s@
    }));
    if start == n {
        return None;
    }
    let mut acc: u64 = 0;
    let mut i: usize = start;
    assert(body.take(0) =~= Seq::<char>::empty());
    while i < n
        invariant
            n == s@.len(),
            start <= i <= n,
            start <= 1,
            body =~= s@.skip(start as int),
            body == (if s@.len() > 0 && (s@[0] == '-' || s@[0] == '+') {
                s@.drop_first()
            } else {
                s@
            }),
            body.len() > 0,
            all_digits(body.take(i - start)),
            acc as int == digits_value(body.take(i - start)),
            acc <= 2147483648,
        decreases n - i,
    {
        let c = s.get_char(i);
        let code = c as u32;
        let ghost k: int = i - start;
        assert(body[k] == c);
        if code < 48 || code > 57 {
            assert(!is_digit(body[k]));
            assert(!all_digits(body));
            assert(spec_parse_i32(s@) is None);
            return None;
        }
        assert(body.take(k + 1).drop_last() =~= body.take(k));
        assert(body.take(k + 1).last() == c);
        acc = acc * 10 + (code - 48) as u64;
        i = i + 1;
        assert(all_digits(body.take(i - start))) by {
            assert forall|j: int| 0 <= j < body.take(i - start).len() implies is_digit(
                #[trigger] body.take(i - start)[j],
            ) by {
                if j < k {
                    assert(body.take(i - start)[j] == body.take(k)[j]);
                }
            }
        }
        if acc > 2147483648 {
            proof {
                if all_digits(body) {
                    lemma_prefix_value_le(body, i - start);
                }
            }
            return None;
        }
    }
    assert(body.take(n - start) =~= body);
    if negative {
        let v: i64 = 0i64 - (acc as i64);
        Some(v as i32)
    } else if acc <= 2147483647 {
        Some(acc as i32)
    } else {
        None
    }
}

/// The decimal digits of a natural number.
fn magnitude_text(m: u64) -> (r: String)
    ensures
        r@ == decimal_digits(m as nat),
{
    let mut rest: u64 = m;
    let mut low_first: Vec<char> = Vec::new();
    while rest >= 10
        invariant
            decimal_digits(m as nat) =~= decimal_digits(rest as nat) + low_first@.reverse(),
        decreases rest,
    {
        let d = rest % 10;
        let c = ((48 + d) as u8) as char;
        assert(c == digit_char(d as int));
        assert(decimal_digits(rest as nat) == decimal_digits((rest / 10) as nat).push(
            digit_char((rest % 10) as int),
        ));
        assert(low_first@.push(c).reverse() =~= seq![c] + low_first@.reverse());
        low_first.push(c);
        rest = rest / 10;
    }
    let mut out = String::new();
    let lead = ((48 + rest) as u8) as char;
    assert(lead == digit_char(rest as int));
    push_char(&mut out, lead);
    let len = low_first.len();
    let mut j: usize = len;
    assert(out@ =~= decimal_digits(rest as nat));
    while j > 0
        invariant
            j <= len,
            len == low_first@.len(),
            decimal_digits(m as nat) =~= decimal_digits(rest as nat) + low_first@.reverse(),
            out@ =~= decimal_digits(rest as nat) + low_first@.reverse().take(len - j),
        decreases j,
    {
        j = j - 1;
        let c = low_first[j];
        assert(low_first@.reverse()[len - j - 1] == c);
        assert(low_first@.reverse().take(len - j) =~= low_first@.reverse().take(
            len - j - 1,
        ).push(c));
        push_char(&mut out, c);
    }
    assert(low_first@.reverse().take(len as int) =~= low_first@.reverse());
    out
}

/// Writes an `i32` as `Display` does, such as a year in a message.
pub fn year_text(y: i32) -> (r: String)
    ensures
        r@ == int_text(y as int),
{
    if y < 0 {
        let m: i64 = 0i64 - (y as i64);
        let digits = magnitude_text(m as u64);
        let mut out = String::new();
        push_char(&mut out, '-');
        out.append(digits.as_str());
        assert(out@ =~= seq!['-'] + decimal_digits((-(y as int)) as nat));
        out
    } else {
        magnitude_text(y as u64)
    }
}

/// Writes a `u16` as `Display` does.
pub fn count_text(n: u16) -> (r: String)
    ensures
        r@ == int_text(n as int),
{
    magnitude_text(n as u64)
}

/// Reading back the text of any year gives that year.
pub proof fn lemma_year_text_round_trip(y: i32)
    ensures
        spec_parse_i32(int_text(y as int)) == Some(y),
{
    let s = int_text(y as int);
    if y < 0 {
        let d = decimal_digits((-(y as int)) as nat);
        lemma_decimal_digits((-(y as int)) as nat);
        assert(s.drop_first() =~= d);
    } else {
        let d = decimal_digits(y as nat);
        lemma_decimal_digits(y as nat);
        assert(is_digit(d[0]));
    }
}

} // verus!
