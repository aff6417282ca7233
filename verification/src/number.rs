//! Decimal text: reading integers and two-place prices, and writing them back.

use vstd::prelude::*;
use vstd::string::*;
use crate::text::begins_with;

verus! {

/// Whether `c` is one of `0` to `9`.
pub open spec fn is_digit(c: char) -> bool {
    '0' <= c && c <= '9'
}

/// The number a digit character stands for.
pub open spec fn digit_value(c: char) -> int {
    c as int - '0' as int
}

/// Whether `s` holds digits only.
pub open spec fn all_digits(s: Seq<char>) -> bool {
    forall|i: int| 0 <= i < s.len() ==> is_digit(#[trigger] s[i])
}

/// The number that a run of digits writes in base ten (zero for no digits).
pub open spec fn digits_value(s: Seq<char>) -> int
    decreases s.len(),
{
    if s.len() == 0 {
        0
    } else {
        digits_value(s.drop_last()) * 10 + digit_value(s.last())
    }
}

/// Whether `s` opens with a plus or minus sign.
pub open spec fn has_sign(s: Seq<char>) -> bool {
    s.len() > 0 && (s[0] == '-' || s[0] == '+')
}

/// `s` without its leading sign, if it has one.
pub open spec fn unsigned_part(s: Seq<char>) -> Seq<char> {
    if has_sign(s) {
        s.subrange(1, s.len() as int)
    } else {
        s
    }
}

/// The integer written by an optional sign and at least one digit; `None`
/// for any other text.
pub open spec fn signed_value(s: Seq<char>) -> Option<int> {
    let body = unsigned_part(s);
    if body.len() > 0 && all_digits(body) {
        if begins_with(s, '-') {
            Some(-digits_value(body))
        } else {
            Some(digits_value(body))
        }
    } else {
        None
    }
}

/// The value of integer text that fits in 32 bits.
pub open spec fn i32_text_value(s: Seq<char>) -> Option<i32> {
    match signed_value(s) {
        Some(v) => if i32::MIN <= v <= i32::MAX {
            Some(v as i32)
        } else {
            None
        },
        None => None,
    }
}

/// The character of a single digit `0 <= d <= 9`.
pub open spec fn digit_char(d: int) -> char {
    ((d + 48) as u8) as char
}

/// The decimal digits of a natural number, without leading zeros.
pub open spec fn nat_text(n: nat) -> Seq<char>
    decreases n,
{
    if n < 10 {
        seq![digit_char(n as int)]
    } else {
        nat_text(n / 10).push(digit_char((n % 10) as int))
    }
}

/// The decimal text of an integer: a minus sign for negative numbers, then
/// the digits of its magnitude.
pub open spec fn int_text(n: int) -> Seq<char> {
    if n < 0 {
        seq!['-'] + nat_text((-n) as nat)
    } else {
        nat_text(n as nat)
    }
}

/// A longer run of digits never writes a smaller number than its prefix.
pub proof fn lemma_digits_value_prefix(s: Seq<char>, k: int)
    requires
        all_digits(s),
        0 <= k <= s.len(),
    ensures
        0 <= digits_value(s.take(k)) <= digits_value(s),
    decreases s.len(),
{
    if k == s.len() {
        assert(s.take(k) =~= s);
        if s.len() > 0 {
            lemma_digits_value_prefix(s.drop_last(), k - 1);
            assert(s.drop_last().take(k - 1) =~= s.drop_last());
            assert(is_digit(s.last()));
        }
    } else {
        lemma_digits_value_prefix(s.drop_last(), k);
        assert(s.drop_last().take(k) =~= s.take(k));
        assert(is_digit(s.last()));
    }
}

/// Reads the digits `s[start..end]` as a number no greater than `limit`.
pub fn read_digits(s: &str, start: usize, end: usize, limit: u64) -> (r: Option<u64>)
    requires
        start <= end <= s@.len(),
        limit <= 1_000_000_000_000_000_000,
    ensures
        match r {
            Some(v) => all_digits(s@.subrange(start as int, end as int)) && v == digits_value(
                s@.subrange(start as int, end as int),
            ) && v <= limit,
            None => !all_digits(s@.subrange(start as int, end as int)) || digits_value(
                s@.subrange(start as int, end as int),
            ) > limit,
        },
{
    let ghost run = s@.subrange(start as int, end as int);
    let mut acc: u64 = 0;
    let mut i: usize = start;
    proof {
        assert(run.take(0) =~= Seq::<char>::empty());
    }
    while i < end
        invariant
            start <= i <= end <= s@.len(),
            run == s@.subrange(start as int, end as int),
            limit <= 1_000_000_000_000_000_000,
            all_digits(run.take(i - start)),
            acc == digits_value(run.take(i - start)),
            acc <= limit,
        decreases end - i,
    {
        let c = s.get_char(i);
        assert(c == run[i - start]);
        proof {
            assert(run.take(i - start + 1).drop_last() =~= run.take(i - start));
            assert(run.take(i - start + 1).last() == c);
        }
        if !('0' <= c && c <= '9') {
            assert(!all_digits(run));
            return None;
        }
        let d: u64 = (c as u64) - ('0' as u64);
        let next: u64 = acc * 10 + d;
        assert(next == digits_value(run.take(i - start + 1)));
        assert(all_digits(run.take(i - start + 1))) by {
            assert forall|j: int| 0 <= j < i - start + 1 implies is_digit(
                #[trigger] run.take(i - start + 1)[j],
            ) by {
                if j < i - start {
                    assert(run.take(i - start)[j] == run.take(i - start + 1)[j]);
                }
            }
        }
        if next > limit {
            proof {
                if all_digits(run) {
                    lemma_digits_value_prefix(run, i - start + 1);
                }
            }
            return None;
        }
        acc = next;
        i += 1;
    }
    proof {
        assert(run.take(end - start) =~= run);
    }
    Some(acc)
}

/// Reads integer text: an optional sign, then digits. Anything else, or a
/// number outside 32 bits, gives `None`.
pub fn parse_i32(s: &str) -> (r: Option<i32>)
    ensures
        r == i32_text_value(s@),
{
    let n = s.unicode_len();
    if n == 0 {
        return None;
    }
    let first = s.get_char(0);
    let start: usize = if first == '-' || first == '+' {
        1
    } else {
        0
    };
    assert(s@.subrange(start as int, n as int) =~= unsigned_part(s@));
    if start == n {
        return None;
    }
    let magnitude = read_digits(s, start, n, 2_147_483_648);
    match magnitude {
        None => None,
        Some(m) => {
            if first == '-' {
                Some((-(m as i64)) as i32)
            } else if m <= 2_147_483_647 {
                Some(m as i32)
            } else {
                None
            }
        },
    }
}

/// The text of one digit.
pub fn digit_str(d: u8) -> (r: &'static str)
    requires
        d <= 9,
    ensures
        r@ == seq![digit_char(d as int)],
{
    proof {
        reveal_strlit("0");
        reveal_strlit("1");
        reveal_strlit("2");
        reveal_strlit("3");
        reveal_strlit("4");
        reveal_strlit("5");
        reveal_strlit("6");
        reveal_strlit("7");
        reveal_strlit("8");
        reveal_strlit("9");
    }
    let r = if d == 0 {
        "0"
    } else if d == 1 {
        "1"
    } else if d == 2 {
        "2"
    } else if d == 3 {
        "3"
    } else if d == 4 {
        "4"
    } else if d == 5 {
        "5"
    } else if d == 6 {
        "6"
    } else if d == 7 {
        "7"
    } else if d == 8 {
        "8"
    } else {
        "9"
    };
    assert(r@ =~= seq![digit_char(d as int)]);
    r
}

/// Writes a natural number in decimal.
pub fn nat_to_string(n: u128) -> (r: String)
    ensures
        r@ == nat_text(n as nat),
    decreases n,
{
    if n < 10 {
        String::from_str(digit_str(n as u8))
    } else {
        let mut out = nat_to_string(n / 10);
        out.append(digit_str((n % 10) as u8));
        out
    }
}

/// Writes an integer in decimal, with a minus sign if it is negative.
pub fn int_to_string(n: i128) -> (r: String)
    ensures
        r@ == int_text(n as int),
{
    if n < 0 {
        let magnitude: u128 = ((-(n + 1)) as u128) + 1;
        proof {
            reveal_strlit("-");
        }
        let mut out = String::from_str("-");
        let digits = nat_to_string(magnitude);
        out.append(digits.as_str());
        assert("-"@ =~= seq!['-']);
        out
    } else {
        nat_to_string(n as u128)
    }
}

/// A unit price, held exactly as a whole number of hundredths of a yen.
#[derive(Clone, Copy, Debug)]
pub struct Decimal {
    pub hundredths: i64,
}

/// The hundredths written by one or two digits after the decimal point.
pub open spec fn fraction_value(f: Seq<char>) -> int {
    if f.len() == 1 {
        digit_value(f[0]) * 10
    } else {
        digit_value(f[0]) * 10 + digit_value(f[1])
    }
}

/// Where the decimal point of unsigned price text must stand, if it has
/// one: one or two places from the end. `None` means no fraction.
pub open spec fn point_index(body: Seq<char>) -> Option<int> {
    if body.len() >= 3 && body[body.len() - 3] == '.' {
        Some(body.len() - 3)
    } else if body.len() >= 2 && body[body.len() - 2] == '.' {
        Some(body.len() - 2)
    } else {
        None
    }
}

/// The hundredths written by unsigned price text: at least one digit,
/// optionally followed by a point and one or two more digits.
pub open spec fn decimal_magnitude(body: Seq<char>) -> Option<int> {
    match point_index(body) {
        Some(k) => {
            let whole = body.subrange(0, k);
            let fraction = body.subrange(k + 1, body.len() as int);
            if whole.len() > 0 && all_digits(whole) && all_digits(fraction) {
                Some(digits_value(whole) * 100 + fraction_value(fraction))
            } else {
                None
            }
        },
        None => if body.len() > 0 && all_digits(body) {
            Some(digits_value(body) * 100)
        } else {
            None
        },
    }
}

/// The hundredths written by price text with an optional sign, when they
/// fit in 64 bits; `None` for any other text.
pub open spec fn decimal_text_value(s: Seq<char>) -> Option<int> {
    match decimal_magnitude(unsigned_part(s)) {
        Some(m) => {
            let v = if begins_with(s, '-') {
                -m
            } else {
                m
            };
            if -i64::MAX <= v <= i64::MAX {
                Some(v)
            } else {
                None
            }
        },
        None => None,
    }
}

/// The text of a price: sign, whole yen, a point and exactly two places.
pub open spec fn decimal_text(hundredths: int) -> Seq<char> {
    let m = if hundredths < 0 {
        -hundredths
    } else {
        hundredths
    };
    let unsigned = nat_text((m / 100) as nat) + seq![
        '.',
        digit_char((m % 100) / 10),
        digit_char(m % 10),
    ];
    if hundredths < 0 {
        seq!['-'] + unsigned
    } else {
        unsigned
    }
}

/// Digits never write a negative number.
pub proof fn lemma_digits_value_nonnegative(s: Seq<char>)
    requires
        all_digits(s),
    ensures
        digits_value(s) >= 0,
{
    lemma_digits_value_prefix(s, 0);
}

/// Reads the one or two digits `s[start..end]` that follow a decimal point.
fn read_fraction(s: &str, start: usize, end: usize) -> (r: Option<u64>)
    requires
        start < end <= s@.len(),
        end - start <= 2,
    ensures
        match r {
            Some(f) => all_digits(s@.subrange(start as int, end as int)) && f == fraction_value(
                s@.subrange(start as int, end as int),
            ) && f <= 99,
            None => !all_digits(s@.subrange(start as int, end as int)),
        },
{
    let ghost run = s@.subrange(start as int, end as int);
    let a = s.get_char(start);
    assert(run[0] == a);
    if !('0' <= a && a <= '9') {
        return None;
    }
    let tens: u64 = ((a as u64) - ('0' as u64)) * 10;
    if end - start == 1 {
        return Some(tens);
    }
    let b = s.get_char(start + 1);
    assert(run[1] == b);
    if !('0' <= b && b <= '9') {
        return None;
    }
    Some(tens + ((b as u64) - ('0' as u64)))
}

/// Reads the unsigned price text `s[start..]`, giving its hundredths when
/// they are at most `i64::MAX`.
fn read_magnitude(s: &str, start: usize) -> (r: Option<u64>)
    requires
        start <= s@.len(),
    ensures
        match r {
            Some(m) => decimal_magnitude(s@.subrange(start as int, s@.len() as int)) == Some(
                m as int,
            ) && m <= i64::MAX,
            None => match decimal_magnitude(s@.subrange(start as int, s@.len() as int)) {
                Some(m) => m > i64::MAX,
                None => true,
            },
        },
{
    let n = s.unicode_len();
    let ghost body = s@.subrange(start as int, n as int);
    let len = n - start;
    let mut whole_end: usize = n;
    if len >= 3 && s.get_char(n - 3) == '.' {
        whole_end = n - 3;
    } else if len >= 2 && s.get_char(n - 2) == '.' {
        whole_end = n - 2;
    }
    assert(whole_end == n ==> point_index(body) is None);
    assert(whole_end < n ==> point_index(body) == Some(whole_end - start));
    assert(s@.subrange(start as int, whole_end as int) =~= body.subrange(0, whole_end - start));
    if whole_end == start {
        return None;
    }
    let mut fraction: u64 = 0;
    if whole_end < n {
        assert(s@.subrange(whole_end + 1, n as int) =~= body.subrange(
            whole_end - start + 1,
            body.len() as int,
        ));
        match read_fraction(s, whole_end + 1, n) {
            Some(f) => {
                fraction = f;
            },
            None => {
                return None;
            },
        }
    }
    match read_digits(s, start, whole_end, 92_233_720_368_547_758) {
        Some(whole) => {
            let magnitude: u64 = whole * 100 + fraction;
            if magnitude > 9_223_372_036_854_775_807 {
                None
            } else {
                Some(magnitude)
            }
        },
        None => None,
    }
}

/// Reads price text: an optional sign, digits, and optionally a point with
/// one or two further digits. Anything else, or a value whose hundredths do
/// not fit in 64 bits, gives `None`.
pub fn parse_decimal(s: &str) -> (r: Option<Decimal>)
    ensures
        match r {
            Some(d) => decimal_text_value(s@) == Some(d.hundredths as int),
            None => decimal_text_value(s@) is None,
        },
{
    let n = s.unicode_len();
    if n == 0 {
        assert(unsigned_part(s@) =~= s@);
        return None;
    }
    let first = s.get_char(0);
    let start: usize = if first == '-' || first == '+' {
        1
    } else {
        0
    };
    assert(s@.subrange(start as int, n as int) =~= unsigned_part(s@));
    match read_magnitude(s, start) {
        Some(m) => {
            if first == '-' {
                Some(Decimal { hundredths: -(m as i64) })
            } else {
                Some(Decimal { hundredths: m as i64 })
            }
        },
        None => None,
    }
}

/// Writes a price with exactly two decimal places.
pub fn decimal_to_string(d: Decimal) -> (r: String)
    ensures
        r@ == decimal_text(d.hundredths as int),
{
    let negative = d.hundredths < 0;
    let magnitude: u128 = if negative {
        ((-(d.hundredths + 1)) as u128) + 1
    } else {
        d.hundredths as u128
    };
    proof {
        reveal_strlit("-");
        reveal_strlit(".");
        reveal_strlit("");
    }
    let mut out = if negative {
        String::from_str("-")
    } else {
        String::from_str("")
    };
    let whole = nat_to_string(magnitude / 100);
    out.append(whole.as_str());
    out.append(".");
    out.append(digit_str(((magnitude % 100) / 10) as u8));
    out.append(digit_str((magnitude % 10) as u8));
    assert(out@ =~= decimal_text(d.hundredths as int));
    out
}

/// Whether digits are written without a needless leading zero.
pub open spec fn is_plain_digits(s: Seq<char>) -> bool {
    s.len() == 1 || (s.len() > 1 && s[0] != '0')
}

/// Whether integer text is written the way [`int_text`] writes: no plus
/// sign, no needless leading zero, no minus sign before a zero.
pub open spec fn is_plain_int(s: Seq<char>) -> bool {
    &&& !begins_with(s, '+')
    &&& is_plain_digits(unsigned_part(s))
    &&& !(begins_with(s, '-') && digits_value(unsigned_part(s)) == 0)
}

/// Whether price text is written the way [`decimal_text`] writes: no plus
/// sign, a whole part without a needless leading zero, exactly two places,
/// no minus sign before a zero.
pub open spec fn is_plain_decimal(s: Seq<char>) -> bool {
    &&& !begins_with(s, '+')
    &&& point_index(unsigned_part(s)) == Some(unsigned_part(s).len() - 3)
    &&& is_plain_digits(unsigned_part(s).subrange(0, unsigned_part(s).len() - 3))
    &&& !(begins_with(s, '-') && decimal_magnitude(unsigned_part(s)) == Some(0int))
}

/// A digit and its character stand for each other.
pub proof fn lemma_digit_char(c: char, d: int)
    ensures
        is_digit(c) ==> 0 <= digit_value(c) <= 9 && digit_char(digit_value(c)) == c,
        0 <= d <= 9 ==> is_digit(digit_char(d)) && digit_value(digit_char(d)) == d,
{
}

/// The digits of a natural number are digits, write that number, and have
/// no needless leading zero.
pub proof fn lemma_nat_text_value(n: nat)
    ensures
        all_digits(nat_text(n)),
        digits_value(nat_text(n)) == n,
        is_plain_digits(nat_text(n)),
        n >= 10 ==> nat_text(n).len() > 1,
    decreases n,
{
    if n < 10 {
        lemma_digit_char('0', n as int);
        assert(nat_text(n).drop_last() =~= Seq::<char>::empty());
        assert(digits_value(nat_text(n).drop_last()) == 0);
    } else {
        lemma_nat_text_value(n / 10);
        lemma_digit_char('0', (n % 10) as int);
        let t = nat_text(n / 10);
        let c = digit_char((n % 10) as int);
        assert(t.push(c).drop_last() =~= t);
        assert(t.push(c)[0] == t[0]);
        assert(t[0] != '0') by {
            if t[0] == '0' {
                assert(t.len() == 1);
                assert(t.drop_last() =~= Seq::<char>::empty());
                assert(digits_value(t.drop_last()) == 0);
                assert(digits_value(t) == 0);
            }
        }
        assert forall|i: int| 0 <= i < t.push(c).len() implies is_digit(
            #[trigger] t.push(c)[i],
        ) by {
            if i < t.len() {
                assert(t.push(c)[i] == t[i]);
            }
        }
    }
}

/// Digits that do not begin with a zero write a number that is not zero.
proof fn lemma_plain_digits_positive(s: Seq<char>)
    requires
        all_digits(s),
        s.len() > 0,
        s[0] != '0',
    ensures
        digits_value(s) >= 1,
    decreases s.len(),
{
    assert(is_digit(s.last()));
    if s.len() == 1 {
        assert(s.drop_last() =~= Seq::<char>::empty());
        assert(digits_value(s.drop_last()) == 0);
        assert(is_digit(s[0]));
    } else {
        assert(s.drop_last()[0] == s[0]);
        lemma_plain_digits_positive(s.drop_last());
    }
}

/// Digits without a needless leading zero are the digits of the number
/// that they write.
pub proof fn lemma_plain_digits_text(s: Seq<char>)
    requires
        all_digits(s),
        is_plain_digits(s),
    ensures
        digits_value(s) >= 0,
        nat_text(digits_value(s) as nat) == s,
    decreases s.len(),
{
    let c = s.last();
    assert(is_digit(c));
    lemma_digit_char(c, 0);
    lemma_digits_value_nonnegative(s);
    if s.len() == 1 {
        assert(s.drop_last() =~= Seq::<char>::empty());
        assert(digits_value(s.drop_last()) == 0);
        assert(nat_text(digits_value(s) as nat) =~= s);
    } else {
        let t = s.drop_last();
        assert(t[0] == s[0]);
        assert forall|i: int| 0 <= i < t.len() implies is_digit(#[trigger] t[i]) by {
            assert(t[i] == s[i]);
        }
        lemma_plain_digits_text(t);
        lemma_plain_digits_positive(t);
        assert(t.push(c) =~= s);
    }
}

/// Writing an integer and reading the text back gives the integer.
pub proof fn lemma_int_text_parses(n: int)
    ensures
        signed_value(int_text(n)) == Some(n),
        is_plain_int(int_text(n)),
{
    if n < 0 {
        lemma_nat_text_value((-n) as nat);
        let body = nat_text((-n) as nat);
        assert(unsigned_part(int_text(n)) =~= body);
    } else {
        lemma_nat_text_value(n as nat);
        let body = nat_text(n as nat);
        assert(is_digit(body[0]));
        assert(unsigned_part(int_text(n)) =~= body);
    }
}

/// Reading integer text and writing the value back gives the same text
/// exactly when the text is plain: `+5`, `007` and `-0` are read, and come
/// back as `5`, `7` and `0`.
pub proof fn lemma_int_round_trip(s: Seq<char>)
    requires
        signed_value(s) is Some,
    ensures
        int_text(signed_value(s)->0) == s <==> is_plain_int(s),
{
    let body = unsigned_part(s);
    let n = signed_value(s)->0;
    lemma_digits_value_nonnegative(body);
    if is_plain_int(s) {
        lemma_plain_digits_text(body);
        if begins_with(s, '-') {
            assert(seq!['-'] + body =~= s);
        } else {
            assert(is_digit(body[0]));
            assert(body =~= s);
        }
    }
    if int_text(n) == s {
        lemma_int_text_parses(n);
    }
}

/// Writing a price and reading the text back gives the price.
pub proof fn lemma_decimal_text_parses(hundredths: int)
    requires
        -i64::MAX <= hundredths <= i64::MAX,
    ensures
        decimal_text_value(decimal_text(hundredths)) == Some(hundredths),
        is_plain_decimal(decimal_text(hundredths)),
{
    let m = if hundredths < 0 {
        -hundredths
    } else {
        hundredths
    };
    let whole = nat_text((m / 100) as nat);
    let body = whole + seq!['.', digit_char((m % 100) / 10), digit_char(m % 10)];
    lemma_nat_text_value((m / 100) as nat);
    lemma_digit_char('0', (m % 100) / 10);
    lemma_digit_char('0', m % 10);
    assert(is_digit(whole[0]));
    assert(body[0] == whole[0]);
    assert(unsigned_part(decimal_text(hundredths)) =~= body);
    assert(body[body.len() - 3] == '.');
    assert(body.subrange(0, body.len() - 3) =~= whole);
    let fraction = body.subrange(body.len() - 2, body.len() as int);
    assert(fraction =~= seq![digit_char((m % 100) / 10), digit_char(m % 10)]);
    assert(all_digits(fraction));
    assert(fraction_value(fraction) == m % 100);
    assert(decimal_magnitude(body) == Some(m));
}

/// Reading price text and writing the value back gives the same text
/// exactly when the text is plain: `1500`, `1500.5`, `+1.00` and `-0.00`
/// are read, and come back as `1500.00`, `1500.50`, `1.00` and `0.00`.
pub proof fn lemma_decimal_round_trip(s: Seq<char>)
    requires
        decimal_text_value(s) is Some,
    ensures
        decimal_text(decimal_text_value(s)->0) == s <==> is_plain_decimal(s),
{
    let body = unsigned_part(s);
    let h = decimal_text_value(s)->0;
    let m = decimal_magnitude(body)->0;
    if is_plain_decimal(s) {
        let k = body.len() - 3;
        let whole = body.subrange(0, k);
        let fraction = body.subrange(k + 1, body.len() as int);
        lemma_plain_digits_text(whole);
        assert(is_digit(fraction[0]));
        assert(is_digit(fraction[1]));
        lemma_digit_char(fraction[0], 0);
        lemma_digit_char(fraction[1], 0);
        assert(m == digits_value(whole) * 100 + fraction_value(fraction));
        assert(m / 100 == digits_value(whole));
        assert((m % 100) / 10 == digit_value(fraction[0]));
        assert(m % 10 == digit_value(fraction[1]));
        assert(whole + seq!['.', fraction[0], fraction[1]] =~= body);
        if begins_with(s, '-') {
            assert(seq!['-'] + body =~= s);
        } else {
            assert(is_digit(whole[0]));
            assert(body =~= s);
        }
    }
    if decimal_text(h) == s {
        lemma_decimal_text_parses(h);
    }
}

} // verus!
