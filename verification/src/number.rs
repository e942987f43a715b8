//! Decimal numerals: reading them out of text and writing them.
use vstd::prelude::*;
use crate::text::to_chars;

verus! {

// -- Reading -----------------------------------------------------------------

/// Whether `c` is one of `0` to `9`.
pub open spec fn is_digit(c: char) -> bool {
    '0' <= c && c <= '9'
}

/// Whether every character of `s` is a decimal digit.
pub open spec fn all_digits(s: Seq<char>) -> bool {
    forall|i: int| 0 <= i < s.len() ==> is_digit(#[trigger] s[i])
}

/// The number that the digits `s` write out, most significant first.
pub open spec fn digits_value(s: Seq<char>) -> nat
    decreases s.len(),
{
    if s.len() == 0 {
        0
    } else {
        digits_value(s.drop_last()) * 10 + (s.last() as nat - '0' as nat) as nat
    }
}

/// What an unsigned numeral holds: one or more decimal digits, which a single
/// `+` may precede.
pub open spec fn numeral_value(s: Seq<char>) -> Option<nat> {
    let body = if s.len() > 0 && s[0] == '+' {
        s.drop_first()
    } else {
        s
    };
    if body.len() > 0 && all_digits(body) {
        Some(digits_value(body))
    } else {
        None
    }
}

/// The value of `s` as an unsigned numeral no larger than `max`.
pub open spec fn bounded_numeral(s: Seq<char>, max: nat) -> Option<nat> {
    match numeral_value(s) {
        Some(n) => if n <= max {
            Some(n)
        } else {
            None
        },
        None => None,
    }
}

proof fn lemma_prefix_value(s: Seq<char>, k: int)
    requires
        0 <= k <= s.len(),
        all_digits(s),
    ensures
        digits_value(s.take(k)) <= digits_value(s),
    decreases s.len(),
{
    if k < s.len() {
        lemma_prefix_value(s.drop_last(), k);
        assert(s.drop_last().take(k) == s.take(k));
    } else {
        assert(s.take(k) == s);
    }
}

fn digit_of(c: char) -> (d: u64)
    requires
        is_digit(c),
    ensures
        d == c as nat - '0' as nat,
        d < 10,
{
    (c as u32 - '0' as u32) as u64
}

/// Reads an unsigned numeral no larger than `max`.
pub fn parse_bounded(chars: &[char], max: u64) -> (out: Option<u64>)
    ensures
        out is Some <==> bounded_numeral(chars@, max as nat) is Some,
        out matches Some(n) ==> bounded_numeral(chars@, max as nat) == Some(n as nat),
{
    let n: usize = chars.len();
    let start: usize = if n > 0 && chars[0] == '+' {
        1
    } else {
        0
    };
    let ghost body = chars@.subrange(start as int, n as int);
    assert(body == (if chars@.len() > 0 && chars@[0] == '+' {
        chars@.drop_first()
    } else {
        chars@
    }));
    if start == n {
        return None;
    }
    let mut acc: u64 = 0;
    let mut i: usize = start;
    while i < n
        invariant
            start <= i <= n,
            n == chars@.len(),
            start < n,
            body == chars@.subrange(start as int, n as int),
            body == (if chars@.len() > 0 && chars@[0] == '+' {
                chars@.drop_first()
            } else {
                chars@
            }),
            forall|j: int| start <= j < i ==> is_digit(#[trigger] chars@[j]),
            acc == digits_value(body.take(i - start)),
            acc <= max,
        decreases n - i,
    {
        let c = chars[i];
        if !('0' <= c && c <= '9') {
            assert(!is_digit(body[i - start]));
            return None;
        }
        let d: u64 = digit_of(c);
        let next: u128 = (acc as u128) * 10 + (d as u128);
        let ghost k = i - start;
        assert(body.take(k + 1).drop_last() == body.take(k));
        assert(body.take(k + 1).last() == c);
        assert(next == digits_value(body.take(k + 1)));
        if next > max as u128 {
            proof {
                if all_digits(body) {
                    lemma_prefix_value(body, k + 1);
                }
            }
            return None;
        }
        acc = next as u64;
        i = i + 1;
    }
    assert(body.take(n - start) == body);
    assert forall|j: int| 0 <= j < body.len() implies is_digit(#[trigger] body[j]) by {
        assert(is_digit(chars@[j + start]));
    }
    Some(acc)
}

/// Reads a `u32`, as `str::parse::<u32>` does.
pub fn parse_u32(s: &str) -> (out: Option<u32>)
    ensures
        out is Some <==> bounded_numeral(s@, u32::MAX as nat) is Some,
        out matches Some(n) ==> bounded_numeral(s@, u32::MAX as nat) == Some(n as nat),
{
    let chars = to_chars(s);
    match parse_bounded(chars.as_slice(), u32::MAX as u64) {
        Some(n) => Some(n as u32),
        None => None,
    }
}

/// Reads a `u64`, as `str::parse::<u64>` does.
pub fn parse_u64(s: &str) -> (out: Option<u64>)
    ensures
        out is Some <==> bounded_numeral(s@, u64::MAX as nat) is Some,
        out matches Some(n) ==> bounded_numeral(s@, u64::MAX as nat) == Some(n as nat),
{
    let chars = to_chars(s);
    parse_bounded(chars.as_slice(), u64::MAX)
}

// -- Writing -----------------------------------------------------------------

/// The digit character for `d`, for `d` below ten.
pub open spec fn digit_char(d: nat) -> char {
    (('0' as nat) + d) as char
}

/// The decimal numeral of `n`, without leading zeros.
pub open spec fn decimal(n: nat) -> Seq<char>
    decreases n,
{
    if n < 10 {
        seq![digit_char(n)]
    } else {
        decimal(n / 10).push(digit_char(n % 10))
    }
}

/// Appends the decimal numeral of `n`.
pub fn push_decimal(out: &mut String, n: u64)
    ensures
        final(out)@ == old(out)@ + decimal(n as nat),
    decreases n,
{
    if n >= 10 {
        push_decimal(out, n / 10);
    }
    let d: u8 = (n % 10) as u8;
    let c: char = (48u8 + d) as char;
    assert(c == digit_char((n % 10) as nat));
    out.push(c);
}

/// The decimal numeral of `n`.
pub fn to_decimal(n: u64) -> (out: String)
    ensures
        out@ == decimal(n as nat),
{
    let mut out = String::new();
    push_decimal(&mut out, n);
    out
}

/// Reading back a written numeral gives the number.
pub proof fn lemma_decimal_reads_back(n: nat)
    ensures
        decimal(n).len() > 0,
        all_digits(decimal(n)),
        digits_value(decimal(n)) == n,
        numeral_value(decimal(n)) == Some(n),
    decreases n,
{
    if n < 10 {
        assert(decimal(n).drop_last() == Seq::<char>::empty());
        assert(digits_value(Seq::<char>::empty()) == 0);
        assert(is_digit(digit_char(n)));
    } else {
        lemma_decimal_reads_back(n / 10);
        let s = decimal(n / 10);
        let d = digit_char(n % 10);
        assert(is_digit(d));
        assert(s.push(d).drop_last() == s);
        assert(all_digits(s.push(d)));
    }
    assert(is_digit(decimal(n)[0]));
}

/// A numeral is read digit by digit: one digit stands for itself, a further
/// digit counts the rest tenfold, one `+` in front changes nothing, and what
/// holds any other character, or no digit, is none.
pub proof fn law_numeral_is_read_digit_by_digit(s: Seq<char>, c: char)
    ensures
        numeral_value(Seq::empty()) is None,
        numeral_value(seq!['+']) is None,
        48 <= c as int <= 57 ==> numeral_value(seq![c]) == Some((c as int - 48) as nat),
        48 <= c as int <= 57 ==> (numeral_value(s) matches Some(n) ==> numeral_value(s.push(c))
            == Some((10 * n + (c as int - 48)) as nat)),
        !(48 <= c as int <= 57) && s.len() > 0 ==> numeral_value(s.push(c)) is None,
        s.len() > 0 && s[0] != '+' ==> numeral_value(seq!['+'] + s) == numeral_value(s),
        s.len() > 0 && s[0] == '+' ==> numeral_value(seq!['+'] + s) is None,
{
    let plus = seq!['+'];
    assert(plus.drop_first() =~= Seq::<char>::empty());
    let single = seq![c];
    assert(single.drop_last() =~= Seq::<char>::empty());
    assert(digits_value(single.drop_last()) == 0);
    if s.len() > 0 {
        let body = if s[0] == '+' {
            s.drop_first()
        } else {
            s
        };
        let longer = s.push(c);
        let longer_body = if longer[0] == '+' {
            longer.drop_first()
        } else {
            longer
        };
        assert(longer_body =~= body.push(c));
        assert(longer_body.drop_last() =~= body);
        assert(longer_body[body.len() as int] == c);
        if all_digits(body) && is_digit(c) {
            assert(all_digits(longer_body));
        }
    }
    assert((plus + s).drop_first() =~= s);
    if s.len() > 0 && s[0] == '+' {
        assert(!is_digit(s[0]));
    }
}

/// A numeral is written without a leading zero, and no numeral above the bound
/// is taken.
pub proof fn law_numeral_is_bounded_and_plain(s: Seq<char>, n: nat, max: nat)
    ensures
        decimal(n).len() > 1 ==> decimal(n)[0] != '0',
        bounded_numeral(s, max) == Some(n) <==> numeral_value(s) == Some(n) && n <= max,
        bounded_numeral(s, max) is None <==> numeral_value(s) is None || numeral_value(s)->0 > max,
    decreases n,
{
    if n >= 10 {
        law_numeral_is_bounded_and_plain(s, n / 10, max);
        if n < 100 {
            assert(decimal(n / 10) =~= seq![digit_char(n / 10)]);
        } else {
            assert(decimal(n / 10) == decimal(n / 10 / 10).push(digit_char(n / 10 % 10)));
            lemma_decimal_reads_back(n / 10 / 10);
        }
    }
}

} // verus!
