//! Decimal numbers given on the command line, read the way Rust's `FromStr`
//! for integers reads them: an optional sign, then one or more ASCII digits.
use vstd::prelude::*;

verus! {

pub open spec fn is_digit(c: u8) -> bool {
    48 <= c <= 57
}

pub open spec fn all_digits(s: Seq<u8>) -> bool {
    forall|i: int| 0 <= i < s.len() ==> is_digit(#[trigger] s[i])
}

/// The number that a string of ASCII digits writes in base ten.
pub open spec fn digits_value(s: Seq<u8>) -> int
    decreases s.len(),
{
    if s.len() == 0 {
        0
    } else {
        digits_value(s.drop_last()) * 10 + (s.last() - 48)
    }
}

/// The digits of an unsigned number: the text with one leading `+` removed.
pub open spec fn unsigned_digits(s: Seq<u8>) -> Seq<u8> {
    if s.len() > 0 && s[0] == 43 {
        s.drop_first()
    } else {
        s
    }
}

/// What reading `s` as an unsigned number no larger than `max` gives.
pub open spec fn parse_unsigned_spec(s: Seq<u8>, max: int) -> Option<int> {
    let d = unsigned_digits(s);
    if d.len() > 0 && all_digits(d) && digits_value(d) <= max {
        Some(digits_value(d))
    } else {
        None
    }
}

/// What reading `s` as an `i64` gives: a leading `-` negates the digits
/// after it, anything else is read as an unsigned number.
pub open spec fn parse_i64_spec(s: Seq<u8>) -> Option<int> {
    if s.len() > 0 && s[0] == 45 {
        let d = s.drop_first();
        if d.len() > 0 && all_digits(d) && digits_value(d) <= 0x8000_0000_0000_0000 {
            Some(-digits_value(d))
        } else {
            None
        }
    } else {
        parse_unsigned_spec(s, i64::MAX as int)
    }
}

proof fn lemma_digits_value_nonneg(s: Seq<u8>)
    requires
        all_digits(s),
    ensures
        digits_value(s) >= 0,
    decreases s.len(),
{
    if s.len() > 0 {
        lemma_digits_value_nonneg(s.drop_last());
    }
}

/// Appending digits never makes the value smaller.
proof fn lemma_digits_value_grows(s: Seq<u8>, k: int)
    requires
        all_digits(s),
        0 <= k <= s.len(),
    ensures
        digits_value(s.take(k)) <= digits_value(s),
    decreases s.len() - k,
{
    if k < s.len() {
        lemma_digits_value_grows(s, k + 1);
        assert(s.take(k + 1).drop_last() =~= s.take(k));
        lemma_digits_value_nonneg(s.take(k));
    } else {
        assert(s.take(k) =~= s);
    }
}

/// Reads the ASCII digits `d[from..]` as a number no larger than `max`.
fn read_digits(d: &[u8], from: usize, max: u64) -> (value: Option<u64>)
    requires
        from <= d@.len(),
    ensures
        ({
            let s = d@.skip(from as int);
            &&& value is Some <==> (s.len() > 0 && all_digits(s) && digits_value(s) <= max)
            &&& value matches Some(v) ==> v == digits_value(s)
        }),
{
    let ghost s = d@.skip(from as int);
    if from == d.len() {
        return None;
    }
    let mut acc: u64 = 0;
    let mut i: usize = from;
    while i < d.len()
        invariant
            from <= i <= d@.len(),
            s == d@.skip(from as int),
            all_digits(s.take(i - from)),
            acc as int == digits_value(s.take(i - from)),
            acc <= max,
        decreases d@.len() - i,
    {
        let c = d[i];
        if c < 48 || c > 57 {
            assert(s[i - from] == c);
            return None;
        }
        let digit = (c - 48) as u64;
        assert(s.take(i + 1 - from).drop_last() =~= s.take(i - from));
        if digit > max || acc > (max - digit) / 10 {
            proof {
                assert(acc * 10 + digit > max) by (nonlinear_arith)
                    requires
                        digit > max || acc > (max - digit) / 10,
                        acc >= 0,
                {
                }
                if all_digits(s) {
                    lemma_digits_value_grows(s, i + 1 - from);
                }
            }
            return None;
        }
        assert(acc * 10 + digit <= max) by (nonlinear_arith)
            requires
                acc <= (max - digit) / 10,
                digit <= max,
        {
        }
        acc = acc * 10 + digit;
        i = i + 1;
    }
    assert(s.take(i - from) =~= s);
    Some(acc)
}

/// Reads a decimal number no larger than `max`; `None` where Rust's `parse`
/// of an unsigned integer type with that maximum fails.
pub fn parse_unsigned(text: &[u8], max: u64) -> (value: Option<u64>)
    ensures
        value is Some <==> parse_unsigned_spec(text@, max as int) is Some,
        value matches Some(v) ==> v == parse_unsigned_spec(text@, max as int)->0,
{
    let from: usize = if text.len() > 0 && text[0] == 43 { 1 } else { 0 };
    assert(unsigned_digits(text@) =~= text@.skip(from as int));
    read_digits(text, from, max)
}

/// Reads a decimal `u64`, as `str::parse::<u64>` does.
pub fn parse_u64(text: &[u8]) -> (value: Option<u64>)
    ensures
        value is Some <==> parse_unsigned_spec(text@, u64::MAX as int) is Some,
        value matches Some(v) ==> v == parse_unsigned_spec(text@, u64::MAX as int)->0,
{
    parse_unsigned(text, u64::MAX)
}

/// Reads a decimal `usize`, as `str::parse::<usize>` does.
pub fn parse_usize(text: &[u8]) -> (value: Option<usize>)
    ensures
        value is Some <==> parse_unsigned_spec(text@, usize::MAX as int) is Some,
        value matches Some(v) ==> v == parse_unsigned_spec(text@, usize::MAX as int)->0,
{
    match parse_unsigned(text, usize::MAX as u64) {
        Some(v) => {
            assert(v <= usize::MAX);
            Some(v as usize)
        },
        None => None,
    }
}

/// Reads a decimal `i64`, as `str::parse::<i64>` does.
pub fn parse_i64(text: &[u8]) -> (value: Option<i64>)
    ensures
        value is Some <==> parse_i64_spec(text@) is Some,
        value matches Some(v) ==> v == parse_i64_spec(text@)->0,
{
    if text.len() > 0 && text[0] == 45 {
        assert(text@.drop_first() =~= text@.skip(1));
        match read_digits(text, 1, 0x8000_0000_0000_0000u64) {
            Some(m) => {
                if m == 0x8000_0000_0000_0000u64 {
                    Some(i64::MIN)
                } else {
                    assert(m < 0x8000_0000_0000_0000u64);
                    let n = m as i64;
                    Some(-n)
                }
            },
            None => None,
        }
    } else {
        match parse_unsigned(text, i64::MAX as u64) {
            Some(v) => Some(v as i64),
            None => None,
        }
    }
}

/// The decimal digits of `n` in ASCII, with no leading zero.
pub open spec fn ascii_decimal(n: nat) -> Seq<u8>
    decreases n,
{
    if n < 10 {
        seq![(48 + n) as u8]
    } else {
        ascii_decimal(n / 10).push((48 + n % 10) as u8)
    }
}

proof fn lemma_ascii_decimal_digits(n: nat)
    ensures
        ascii_decimal(n).len() > 0,
        all_digits(ascii_decimal(n)),
        digits_value(ascii_decimal(n)) == n,
        ascii_decimal(n)[0] != 43 && ascii_decimal(n)[0] != 45,
    decreases n,
{
    if n >= 10 {
        lemma_ascii_decimal_digits(n / 10);
        let d = ascii_decimal(n);
        assert(d.drop_last() =~= ascii_decimal(n / 10));
        assert(d[0] == ascii_decimal(n / 10)[0]);
        assert(n == (n / 10) * 10 + n % 10) by (nonlinear_arith);
    } else {
        assert(ascii_decimal(n).drop_last() =~= Seq::<u8>::empty());
        assert(digits_value(ascii_decimal(n)) == digits_value(Seq::<u8>::empty()) * 10 + (ascii_decimal(n).last() - 48));
    }
}

/// A number written in decimal reads back as itself, whatever type it is
/// read as, as long as the type can hold it.
pub proof fn lemma_decimal_reads_back(n: nat, max: nat)
    requires
        n <= max,
    ensures
        parse_unsigned_spec(ascii_decimal(n), max as int) == Some(n as int),
        n <= i64::MAX ==> parse_i64_spec(ascii_decimal(n)) == Some(n as int),
{
    lemma_ascii_decimal_digits(n);
}

/// A number read as unsigned lies between zero and the maximum.
pub proof fn lemma_unsigned_in_range(s: Seq<u8>, max: int)
    ensures
        parse_unsigned_spec(s, max) matches Some(v) ==> 0 <= v <= max,
{
    let d = unsigned_digits(s);
    if d.len() > 0 && all_digits(d) {
        lemma_digits_value_nonneg(d);
    }
}

/// A number read as an `i64` lies in the range of `i64`.
pub proof fn lemma_signed_in_range(s: Seq<u8>)
    ensures
        parse_i64_spec(s) matches Some(v) ==> i64::MIN <= v <= i64::MAX,
{
    if s.len() > 0 && s[0] == 45 {
        let d = s.drop_first();
        if d.len() > 0 && all_digits(d) {
            lemma_digits_value_nonneg(d);
        }
    } else {
        lemma_unsigned_in_range(s, i64::MAX as int);
    }
}

/// Empty text, a lone sign, and text holding anything but digits after an
/// optional leading sign (`+`, or `-` for a signed number) read as nothing.
pub proof fn lemma_parse_rejects(s: Seq<u8>, max: int)
    ensures
        s.len() == 0 ==> parse_unsigned_spec(s, max) is None && parse_i64_spec(s) is None,
        (s =~= seq![43u8] || s =~= seq![45u8]) ==> parse_unsigned_spec(s, max) is None
            && parse_i64_spec(s) is None,
        (exists|i: int|
            0 <= i < s.len() && !(48 <= #[trigger] s[i] <= 57) && !(i == 0 && s[0] == 43))
            ==> parse_unsigned_spec(s, max) is None,
        (exists|i: int|
            0 <= i < s.len() && !(48 <= #[trigger] s[i] <= 57) && !(i == 0 && (s[0] == 43 || s[0]
                == 45))) ==> parse_i64_spec(s) is None,
{
    if exists|i: int| 0 <= i < s.len() && !(48 <= #[trigger] s[i] <= 57) && !(i == 0 && s[0] == 43) {
        let i = choose|i: int| 0 <= i < s.len() && !(48 <= #[trigger] s[i] <= 57) && !(i == 0 && s[0] == 43);
        let d = unsigned_digits(s);
        if s.len() > 0 && s[0] == 43 {
            assert(d[i - 1] == s[i]);
        } else {
            assert(d[i] == s[i]);
        }
    }
    if exists|i: int|
        0 <= i < s.len() && !(48 <= #[trigger] s[i] <= 57) && !(i == 0 && (s[0] == 43 || s[0] == 45)) {
        let i = choose|i: int|
            0 <= i < s.len() && !(48 <= #[trigger] s[i] <= 57) && !(i == 0 && (s[0] == 43 || s[0] == 45));
        if s.len() > 0 && s[0] == 45 {
            assert(s.drop_first()[i - 1] == s[i]);
        } else if s.len() > 0 && s[0] == 43 {
            assert(unsigned_digits(s)[i - 1] == s[i]);
        } else {
            assert(unsigned_digits(s)[i] == s[i]);
        }
    }
}

proof fn lemma_leading_zero_value(s: Seq<u8>)
    ensures
        digits_value(seq![48u8] + s) == digits_value(s),
    decreases s.len(),
{
    if s.len() > 0 {
        lemma_leading_zero_value(s.drop_last());
        let z = seq![48u8] + s;
        assert(z.drop_last() =~= seq![48u8] + s.drop_last());
        assert(z.last() == s.last());
        assert(digits_value(z) == digits_value(z.drop_last()) * 10 + (z.last() - 48));
    } else {
        let z = seq![48u8] + s;
        assert(z.drop_last() =~= Seq::<u8>::empty());
        assert(z.last() == 48u8);
        assert(digits_value(z) == digits_value(z.drop_last()) * 10 + (z.last() - 48));
    }
}

/// A leading zero changes nothing: digits read the same with or without it.
pub proof fn lemma_leading_zero(s: Seq<u8>, max: int)
    requires
        s.len() > 0,
        s[0] != 43,
    ensures
        parse_unsigned_spec(seq![48u8] + s, max) == parse_unsigned_spec(s, max),
{
    lemma_leading_zero_value(s);
    let z = seq![48u8] + s;
    assert(unsigned_digits(z) == z);
    assert(unsigned_digits(s) == s);
    assert(all_digits(z) <==> all_digits(s)) by {
        if all_digits(s) {
            assert forall|i: int| 0 <= i < z.len() implies is_digit(#[trigger] z[i]) by {
                if i > 0 {
                    assert(z[i] == s[i - 1]);
                }
            }
        }
        if all_digits(z) {
            assert forall|i: int| 0 <= i < s.len() implies is_digit(#[trigger] s[i]) by {
                assert(z[i + 1] == s[i]);
            }
        }
    }
}

} // verus!
