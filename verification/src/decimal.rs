//! Whole numbers as decimal text, written and read.
use vstd::prelude::*;

use crate::text::chars_of;

verus! {

/// The character of a decimal digit.
pub open spec fn digit(d: nat) -> char {
    (('0' as int) + d) as char
}

/// The decimal text of `n`, without leading zeros.
pub open spec fn decimal(n: nat) -> Seq<char>
    decreases n,
{
    if n < 10 {
        seq![digit(n)]
    } else {
        decimal(n / 10).push(digit(n % 10))
    }
}

/// Appends the decimal text of `n`.
pub fn push_decimal(out: &mut String, n: u64)
    ensures
        final(out)@ == old(out)@ + decimal(n as nat),
    decreases n,
{
    if n >= 10 {
        push_decimal(out, n / 10);
    }
    let d: u8 = (n % 10) as u8;
    out.push((48u8 + d) as char);
    assert(out@ =~= old(out)@ + decimal(n as nat));
}

/// Whether `c` is a decimal digit.
pub open spec fn is_digit(c: char) -> bool {
    '0' <= c <= '9'
}

/// The number that a run of digits stands for.
pub open spec fn digits_value(s: Seq<char>) -> nat
    decreases s.len(),
{
    if s.len() == 0 {
        0
    } else {
        digits_value(s.drop_last()) * 10 + (s.last() as int - '0' as int) as nat
    }
}

/// Whether `s` is one or more decimal digits.
pub open spec fn is_digits(s: Seq<char>) -> bool {
    s.len() > 0 && forall|i: int| 0 <= i < s.len() ==> is_digit(#[trigger] s[i])
}

/// `s` without one leading plus sign.
pub open spec fn without_plus(s: Seq<char>) -> Seq<char> {
    if s.len() > 0 && s[0] == '+' {
        s.subrange(1, s.len() as int)
    } else {
        s
    }
}

/// The whole number that `s` denotes: digits with an optional plus sign, at most `max`.
pub open spec fn unsigned_value(s: Seq<char>, max: nat) -> Option<nat> {
    let body = without_plus(s);
    if is_digits(body) && digits_value(body) <= max {
        Some(digits_value(body))
    } else {
        None
    }
}

/// The whole number that `s` denotes: digits with an optional sign, in the range of an `i64`.
pub open spec fn signed_value(s: Seq<char>) -> Option<int> {
    if s.len() > 0 && s[0] == '-' {
        let body = s.subrange(1, s.len() as int);
        if is_digits(body) && -digits_value(body) >= i64::MIN {
            Some(-digits_value(body))
        } else {
            None
        }
    } else {
        match unsigned_value(s, i64::MAX as nat) {
            Some(n) => Some(n as int),
            None => None,
        }
    }
}

proof fn lemma_digits_value_grows(s: Seq<char>, n: int)
    requires
        0 <= n <= s.len(),
        forall|i: int| 0 <= i < s.len() ==> is_digit(#[trigger] s[i]),
    ensures
        digits_value(s.subrange(0, n)) <= digits_value(s),
    decreases s.len(),
{
    if n == s.len() {
        assert(s.subrange(0, n) =~= s);
    } else {
        lemma_digits_value_grows(s.drop_last(), n);
        assert(s.drop_last().subrange(0, n) =~= s.subrange(0, n));
    }
}

/// The number that the digits from `from` on stand for, where it is at most `max`.
fn read_digits(v: &Vec<char>, from: usize, max: u64) -> (r: Option<u64>)
    requires
        from <= v@.len(),
    ensures
        ({
            let body = v@.subrange(from as int, v@.len() as int);
            match r {
                Some(n) => is_digits(body) && digits_value(body) == n && n <= max,
                None => !is_digits(body) || digits_value(body) > max,
            }
        }),
{
    let ghost body = v@.subrange(from as int, v@.len() as int);
    if from == v.len() {
        return None;
    }
    let mut n: u64 = 0;
    let mut i: usize = from;
    while i < v.len()
        invariant
            from <= i <= v@.len(),
            from < v@.len(),
            body == v@.subrange(from as int, v@.len() as int),
            n == digits_value(body.subrange(0, i - from)),
            n <= max,
            forall|k: int| 0 <= k < i - from ==> is_digit(#[trigger] body[k]),
        decreases v@.len() - i,
    {
        let c: char = v[i];
        if c < '0' || c > '9' {
            assert(!is_digit(body[i - from]));
            return None;
        }
        let d: u64 = (c as u32 - 48) as u64;
        let ghost next = body.subrange(0, i - from + 1);
        proof {
            assert(next.drop_last() =~= body.subrange(0, i - from));
            assert(digits_value(next) == n * 10 + d);
            if is_digits(body) {
                lemma_digits_value_grows(body, i - from + 1);
            }
        }
        if n > max / 10 || d > max - n * 10 {
            return None;
        }
        n = n * 10 + d;
        i = i + 1;
    }
    assert(body.subrange(0, i - from) =~= body);
    Some(n)
}

/// Reads a whole number of at most `max`.
pub fn parse_unsigned(s: &str, max: u64) -> (r: Option<u64>)
    ensures
        match r {
            Some(n) => unsigned_value(s@, max as nat) == Some(n as nat),
            None => unsigned_value(s@, max as nat) is None,
        },
{
    let v: Vec<char> = chars_of(s);
    let from: usize = if v.len() > 0 && v[0] == '+' { 1 } else { 0 };
    assert(v@.subrange(0, v@.len() as int) =~= v@);
    read_digits(&v, from, max)
}

/// Reads a signed whole number in the range of an `i64`.
pub fn parse_signed(s: &str) -> (r: Option<i64>)
    ensures
        match r {
            Some(n) => signed_value(s@) == Some(n as int),
            None => signed_value(s@) is None,
        },
{
    let v: Vec<char> = chars_of(s);
    if v.len() > 0 && v[0] == '-' {
        match read_digits(&v, 1, 0x8000_0000_0000_0000) {
            Some(n) => if n == 0x8000_0000_0000_0000 {
                Some(i64::MIN)
            } else {
                Some(-(n as i64))
            },
            None => None,
        }
    } else {
        match parse_unsigned(s, i64::MAX as u64) {
            Some(n) => Some(n as i64),
            None => None,
        }
    }
}

proof fn decimal_digits(n: nat)
    ensures
        is_digits(decimal(n)),
        digits_value(decimal(n)) == n,
    decreases n,
{
    if n < 10 {
        let s = decimal(n);
        assert(s.drop_last() =~= Seq::<char>::empty());
        assert(digits_value(s.drop_last()) == 0);
        assert(s.last() as int - '0' as int == n);
    } else {
        decimal_digits(n / 10);
        let s = decimal(n);
        assert(s.drop_last() =~= decimal(n / 10));
        assert(s.last() as int - '0' as int == n % 10);
        assert forall|i: int| 0 <= i < s.len() implies is_digit(#[trigger] s[i]) by {
            if i < s.len() - 1 {
                assert(s[i] == decimal(n / 10)[i]);
            }
        }
    }
}

/// A number that was written as text is read back as itself.
pub proof fn decimal_reads_back(n: nat, max: nat)
    requires
        n <= max,
    ensures
        unsigned_value(decimal(n), max) == Some(n),
{
    decimal_digits(n);
    assert(is_digit(decimal(n)[0]));
}

/// A number is written by its digits: one below ten by its own, and any other by those of its
/// tenth part and the digit that is left.
pub proof fn decimal_grows_by_a_digit(n: nat, d: nat)
    requires
        d < 10,
    ensures
        decimal(d).len() == 1,
        decimal(d)[0] as int == 48 + d,
        n > 0 ==> decimal(10 * n + d) == decimal(n) + decimal(d),
        is_digits(decimal(n)),
{
    decimal_digits(n);
    if n > 0 {
        assert((10 * n + d) / 10 == n);
        assert((10 * n + d) % 10 == d);
        assert(decimal(10 * n + d) =~= decimal(n) + decimal(d));
    }
}

/// Different numbers are written differently.
pub proof fn decimal_tells_numbers_apart(a: nat, b: nat)
    requires
        decimal(a) == decimal(b),
    ensures
        a == b,
{
    decimal_reads_back(a, a + b);
    decimal_reads_back(b, a + b);
}

/// A plus sign before a number is read over, and a minus sign makes it negative; a number out of
/// range is not read, and neither is a text with anything but digits behind the sign.
pub proof fn signs_are_read(n: nat, max: nat)
    ensures
        unsigned_value(seq!['+'] + decimal(n), max) == unsigned_value(decimal(n), max),
        n > max ==> unsigned_value(decimal(n), max) is None,
        n <= i64::MAX ==> signed_value(decimal(n)) == Some(n as int),
        n <= i64::MAX ==> signed_value(seq!['+'] + decimal(n)) == Some(n as int),
        n > i64::MAX ==> signed_value(decimal(n)) is None,
        -n >= i64::MIN ==> signed_value(seq!['-'] + decimal(n)) == Some(-n),
        -n < i64::MIN ==> signed_value(seq!['-'] + decimal(n)) is None,
{
    decimal_digits(n);
    assert(is_digit(decimal(n)[0]));
    let plus = seq!['+'] + decimal(n);
    let minus = seq!['-'] + decimal(n);
    assert(plus.subrange(1, plus.len() as int) =~= decimal(n));
    assert(minus.subrange(1, minus.len() as int) =~= decimal(n));
}

/// A text is read as a number only where it is digits behind at most one sign.
pub proof fn only_digits_are_read(s: Seq<char>, max: nat)
    ensures
        unsigned_value(s, max) is Some ==> {
            let body = if s[0] == '+' {
                s.subrange(1, s.len() as int)
            } else {
                s
            };
            &&& s.len() > 0
            &&& body.len() > 0
            &&& forall|i: int| 0 <= i < body.len() ==> '0' <= #[trigger] body[i] <= '9'
            &&& unsigned_value(s, max)->0 <= max
        },
{
    if unsigned_value(s, max) is Some {
        let body = without_plus(s);
        assert forall|i: int| 0 <= i < body.len() implies '0' <= #[trigger] body[i] <= '9' by {
            assert(is_digit(body[i]));
        }
    }
}

/// A digit behind a number that was read makes it ten times as much and the digit more; zeros
/// before a number do not count.
pub proof fn digits_are_read_by_their_place(s: Seq<char>, d: nat, max: nat)
    requires
        d < 10,
    ensures
        unsigned_value(s, max) matches Some(n) ==> 10 * n + d <= max ==> unsigned_value(
            s + decimal(d),
            max,
        ) == Some((10 * n + d) as nat),
        unsigned_value(decimal(d), max) == (if d <= max {
            Some(d)
        } else {
            None
        }),
        unsigned_value(Seq::<char>::empty(), max) is None,
        s.len() > 0 && s[0] != '+' && unsigned_value(s, max) is Some ==> unsigned_value(
            seq!['0'] + s,
            max,
        ) == unsigned_value(s, max),
{
    decimal_digits(d);
    if d <= max {
        decimal_reads_back(d, max);
    } else {
        signs_are_read(d, max);
    }
    if unsigned_value(s, max) is Some {
        let body = without_plus(s);
        let longer = s + decimal(d);
        assert(longer[0] == s[0]);
        let rest = without_plus(longer);
        assert(rest =~= body + decimal(d));
        assert(rest.drop_last() =~= body);
        assert(decimal(d)[0] as int == 48 + d);
        assert(rest.last() == decimal(d)[0]);
        assert forall|i: int| 0 <= i < rest.len() implies is_digit(#[trigger] rest[i]) by {
            if i < body.len() {
                assert(rest[i] == body[i]);
            } else {
                assert(is_digit(decimal(d)[0]));
            }
        }
        if s[0] != '+' {
            let zero = seq!['0'] + s;
            assert(zero[0] == '0');
            assert forall|i: int| 0 <= i < zero.len() implies is_digit(#[trigger] zero[i]) by {
                if i > 0 {
                    assert(zero[i] == s[i - 1]);
                }
            }
            lemma_leading_zero(s);
        }
    }
}

proof fn lemma_leading_zero(s: Seq<char>)
    ensures
        digits_value(seq!['0'] + s) == digits_value(s),
    decreases s.len(),
{
    let zero = seq!['0'] + s;
    if s.len() == 0 {
        assert(zero.drop_last() =~= Seq::<char>::empty());
        assert(zero.last() == '0');
        assert(digits_value(zero.drop_last()) == 0);
    } else {
        lemma_leading_zero(s.drop_last());
        assert(zero.drop_last() =~= seq!['0'] + s.drop_last());
    }
}

/// A text is read as a number with a sign only where it is digits behind at most one sign.
pub proof fn only_digits_are_read_behind_a_sign(s: Seq<char>)
    ensures
        signed_value(s) is Some ==> {
            let body = if s[0] == '+' || s[0] == '-' {
                s.subrange(1, s.len() as int)
            } else {
                s
            };
            &&& s.len() > 0
            &&& body.len() > 0
            &&& forall|i: int| 0 <= i < body.len() ==> '0' <= #[trigger] body[i] <= '9'
            &&& i64::MIN <= signed_value(s)->0 <= i64::MAX
            &&& s[0] == '-' ==> signed_value(s)->0 <= 0
            &&& s[0] != '-' ==> signed_value(s)->0 >= 0
        },
{
    if signed_value(s) is Some {
        let body = if s[0] == '-' {
            s.subrange(1, s.len() as int)
        } else {
            without_plus(s)
        };
        assert forall|i: int| 0 <= i < body.len() implies '0' <= #[trigger] body[i] <= '9' by {
            assert(is_digit(body[i]));
        }
    }
}

} // verus!
