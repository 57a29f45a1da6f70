//! Decimal numerals: writing numbers as text and reading them back.

use vstd::prelude::*;

use crate::text::chars_of;

verus! {

/// The character of the digit `d`.
pub open spec fn digit_char(d: nat) -> char {
    (0x30 + d) as char
}

/// `c` is one of the characters 0 to 9.
pub open spec fn is_digit(c: char) -> bool {
    0x30 <= c as u32 <= 0x39
}

/// The number that the digit `c` stands for.
pub open spec fn digit_value(c: char) -> nat {
    (c as u32 - 0x30) as nat
}

/// The decimal numeral of `n`, without leading zeros.
pub open spec fn decimal_text(n: nat) -> Seq<char>
    decreases n,
{
    if n < 10 {
        seq![digit_char(n)]
    } else {
        decimal_text(n / 10).push(digit_char(n % 10))
    }
}

/// `s` is a non-empty run of digits.
pub open spec fn is_numeral(s: Seq<char>) -> bool {
    &&& s.len() > 0
    &&& forall|i: int| 0 <= i < s.len() ==> is_digit(#[trigger] s[i])
}

/// The number that a run of digits stands for.
pub open spec fn numeral_value(s: Seq<char>) -> nat
    decreases s.len(),
{
    if s.len() == 0 {
        0
    } else {
        numeral_value(s.drop_last()) * 10 + digit_value(s.last())
    }
}

/// `s` without the plus sign that it may begin with.
pub open spec fn unsigned_part(s: Seq<char>) -> Seq<char> {
    if s.len() > 0 && s[0] == '+' {
        s.skip(1)
    } else {
        s
    }
}

/// The number that `s` stands for: digits, after at most one plus sign, whose
/// value fits in 64 bits.
pub open spec fn parsed_u64(s: Seq<char>) -> Option<u64> {
    let digits = unsigned_part(s);
    if is_numeral(digits) && numeral_value(digits) <= u64::MAX {
        Some(numeral_value(digits) as u64)
    } else {
        None
    }
}

/// A run of digits stands for at least what its beginning stands for.
proof fn lemma_prefix_value(s: Seq<char>, k: int)
    requires
        0 <= k <= s.len(),
    ensures
        numeral_value(s.take(k)) <= numeral_value(s),
    decreases s.len() - k,
{
    if k < s.len() {
        lemma_prefix_value(s, k + 1);
        assert(s.take(k + 1).drop_last() == s.take(k));
    } else {
        assert(s.take(k) == s);
    }
}

/// Reading the numeral of a number gives the number back.
pub proof fn law_numeral_round_trip(n: nat)
    ensures
        is_numeral(decimal_text(n)),
        numeral_value(decimal_text(n)) == n,
        n <= u64::MAX ==> parsed_u64(decimal_text(n)) == Some(n as u64),
    decreases n,
{
    reveal_with_fuel(numeral_value, 2);
    if n < 10 {
        assert(decimal_text(n).drop_last() == Seq::<char>::empty());
    } else {
        law_numeral_round_trip(n / 10);
        let front = decimal_text(n / 10);
        let all = front.push(digit_char(n % 10));
        assert(all.drop_last() == front);
        assert forall|i: int| 0 <= i < all.len() implies is_digit(#[trigger] all[i]) by {
            if i < front.len() {
                assert(all[i] == front[i]);
            }
        }
    }
    assert(is_digit(decimal_text(n)[0]));
}

/// The digit `d` as text.
fn digit_text(d: u64) -> (r: &'static str)
    requires
        d < 10,
    ensures
        r@ == seq![digit_char(d as nat)],
{
    proof {
        reveal_strlit("0");
        reveal_strlit("1");
        reveal_strlit("2");
        reveal_strlit("3");
        reveal_strlit("4");
        reveal_strlit("5");
        reveal_strlit("6");
        reveal_strlit("7");
        reveal_strlit("8");
        reveal_strlit("9");
    }
    match d {
        0 => "0",
        1 => "1",
        2 => "2",
        3 => "3",
        4 => "4",
        5 => "5",
        6 => "6",
        7 => "7",
        8 => "8",
        _ => "9",
    }
}

/// The decimal numeral of `n`.
pub fn decimal(n: u64) -> (r: String)
    ensures
        r@ == decimal_text(n as nat),
    decreases n,
{
    if n < 10 {
        digit_text(n).to_string()
    } else {
        let mut out: String = decimal(n / 10);
        out.append(digit_text(n % 10));
        assert(out@ == decimal_text((n / 10) as nat).push(digit_char((n % 10) as nat)));
        out
    }
}

/// Reads `s` as a number of 64 bits.
pub fn parse_u64(s: &str) -> (r: Option<u64>)
    ensures
        r == parsed_u64(s@),
{
    let chars = chars_of(s);
    let n: usize = chars.len();
    let start: usize = if n > 0 && chars[0] == '+' {
        1
    } else {
        0
    };
    let ghost digits = unsigned_part(s@);
    assert(digits == s@.skip(start as int));
    if start == n {
        return None;
    }
    let mut i: usize = start;
    let mut value: u64 = 0;
    assert(digits.take(0) == Seq::<char>::empty());
    while i < n
        invariant
            start <= i <= n == chars.len(),
            start < n,
            chars@ == s@,
            digits == unsigned_part(s@),
            digits == s@.skip(start as int),
            forall|j: int| 0 <= j < i - start ==> is_digit(#[trigger] digits[j]),
            value == numeral_value(digits.take(i - start)),
        decreases n - i,
    {
        let c: char = chars[i];
        let code: u32 = c as u32;
        assert(digits[i - start] == c);
        if code < 0x30 || code > 0x39 {
            return None;
        }
        let d: u64 = (code - 0x30) as u64;
        proof {
            assert(digits.take(i - start + 1).drop_last() == digits.take(i - start));
            assert(numeral_value(digits.take(i - start + 1)) == value * 10 + d);
            lemma_prefix_value(digits, i - start + 1);
        }
        if value > (u64::MAX - d) / 10 {
            assert(value * 10 + d > u64::MAX);
            return None;
        }
        value = value * 10 + d;
        i = i + 1;
    }
    assert(digits.take(n - start) == digits);
    Some(value)
}

/// A numeral is written digit by digit: the numeral of ten times a number and a digit is
/// the numeral of the number with that digit behind it, and no numeral but that of zero
/// begins with a zero.
pub proof fn law_numeral_digits(n: nat, d: nat)
    requires
        d < 10,
    ensures
        decimal_text(d) == seq![(48 + d) as char],
        n > 0 ==> decimal_text(10 * n + d) == decimal_text(n).push((48 + d) as char),
        n > 0 ==> decimal_text(n)[0] != '0',
    decreases n,
{
    if n > 0 {
        assert((10 * n + d) / 10 == n && (10 * n + d) % 10 == d);
        if n >= 10 {
            law_numeral_digits(n / 10, n % 10);
            law_numeral_round_trip(n / 10);
            assert(decimal_text(n)[0] == decimal_text(n / 10)[0]);
        } else {
            assert(decimal_text(n)[0] == (48 + n) as char);
        }
    }
}

/// A run of digits that does not begin with a needless zero is the numeral of its value.
pub proof fn law_numeral_is_unique(s: Seq<char>)
    requires
        s.len() > 0,
        forall|i: int| 0 <= i < s.len() ==> '0' <= #[trigger] s[i] <= '9',
        s[0] == '0' ==> s.len() == 1,
    ensures
        decimal_text(numeral_value(s)) == s,
        s.len() > 1 ==> numeral_value(s) > 0,
    decreases s.len(),
{
    reveal_with_fuel(numeral_value, 2);
    let front = s.drop_last();
    let d = digit_value(s.last());
    assert('0' <= s[s.len() - 1] <= '9');
    assert(d < 10 && digit_char(d) == s.last());
    if front.len() == 0 {
        assert(numeral_value(s) == d);
        assert(s == seq![s.last()]);
    } else {
        assert(front[0] == s[0]);
        assert forall|i: int| 0 <= i < front.len() implies '0' <= #[trigger] front[i] <= '9' by {
            assert(front[i] == s[i]);
        }
        law_numeral_is_unique(front);
        let n = numeral_value(front);
        assert(n > 0) by {
            if front.len() == 1 {
                assert(front.drop_last() == Seq::<char>::empty());
                assert(n == digit_value(s[0]));
            }
        }
        law_numeral_digits(n, d);
        assert(s == front.push(s.last()));
    }
}

/// A plus sign in front of digits does not matter, and neither do zeros.
pub proof fn law_number_reading(s: Seq<char>)
    requires
        s.len() > 0,
        forall|i: int| 0 <= i < s.len() ==> '0' <= #[trigger] s[i] <= '9',
    ensures
        parsed_u64(seq!['+'] + s) == parsed_u64(s),
        parsed_u64(seq!['0'] + s) == parsed_u64(s),
        parsed_u64(s) is None <==> numeral_value(s) > u64::MAX,
        numeral_value(s) <= u64::MAX ==> parsed_u64(s) == Some(numeral_value(s) as u64),
{
    assert forall|i: int| 0 <= i < s.len() implies is_digit(#[trigger] s[i]) by {
        assert('0' <= s[i] <= '9');
    }
    assert((seq!['+'] + s).skip(1) == s);
    let z = seq!['0'] + s;
    assert forall|i: int| 0 <= i < z.len() implies is_digit(#[trigger] z[i]) by {
        if i > 0 {
            assert(z[i] == s[i - 1]);
        }
    }
    lemma_leading_zero(s);
    assert('0' <= s[0] <= '9');
    assert(s[0] != '+' && z[0] != '+');
}

/// A zero in front of digits does not change their value.
proof fn lemma_leading_zero(s: Seq<char>)
    ensures
        numeral_value(seq!['0'] + s) == numeral_value(s),
    decreases s.len(),
{
    let z = seq!['0'] + s;
    if s.len() == 0 {
        reveal_with_fuel(numeral_value, 2);
        assert(z.drop_last() == Seq::<char>::empty());
    } else {
        lemma_leading_zero(s.drop_last());
        assert(z.drop_last() == seq!['0'] + s.drop_last());
    }
}

/// A digit stands between 0 and 9.
pub proof fn lemma_digit(c: char)
    requires
        is_digit(c),
    ensures
        '0' <= c <= '9',
{
}

/// Only digits, after at most one plus sign, are read as a number.
pub proof fn law_only_digits_are_numbers(s: Seq<char>)
    ensures
        parsed_u64(s) is Some ==> s.len() > 0 && s != seq!['+'] && forall|i: int|
            0 <= i < s.len() ==> '0' <= #[trigger] s[i] <= '9' || (i == 0 && s[i] == '+'),
{
    if parsed_u64(s) is Some {
        let digits = unsigned_part(s);
        assert forall|i: int| 0 <= i < s.len() && !(i == 0 && s[0] == '+') implies '0'
            <= #[trigger] s[i] <= '9' by {
            let k = if s[0] == '+' {
                i - 1
            } else {
                i
            };
            assert(digits[k] == s[i]);
            lemma_digit(digits[k]);
        }
        if s == seq!['+'] {
            assert(digits.len() == 0);
        }
    }
}

/// A numeral means its last digit and ten times the digits before it.
pub proof fn law_numeral_value(s: Seq<char>, c: char)
    requires
        '0' <= c <= '9',
    ensures
        numeral_value(Seq::empty()) == 0,
        numeral_value(s.push(c)) == 10 * numeral_value(s) + (c as u32 - 48),
{
    assert(s.push(c).drop_last() == s);
}

} // verus!
