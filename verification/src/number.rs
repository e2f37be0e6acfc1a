//! Decimal integers as text: the parse rules of `str::parse` for the
//! integer types the CLI reads, and `to_string` for `u64`.

use vstd::prelude::*;
use vstd::string::*;
use crate::text::push_char;

verus! {

pub open spec fn is_digit(c: char) -> bool {
    '0' <= c && c <= '9'
}

pub open spec fn digit_value(c: char) -> nat {
    ((c as u32) - ('0' as u32)) as nat
}

pub open spec fn digit_char(d: nat) -> char {
    ((d + ('0' as u32)) as u32) as char
}

pub open spec fn all_digits(s: Seq<char>) -> bool {
    forall|i: int| 0 <= i < s.len() ==> is_digit(#[trigger] s[i])
}

/// The value of a string of decimal digits (most significant first).
pub open spec fn digits_value(s: Seq<char>) -> nat
    decreases s.len(),
{
    if s.len() == 0 {
        0
    } else {
        digits_value(s.drop_last()) * 10 + digit_value(s.last())
    }
}

/// The decimal spelling of `n`, with no leading zeros (`u64::to_string`).
pub open spec fn decimal(n: nat) -> Seq<char>
    decreases n,
{
    if n < 10 {
        seq![digit_char(n)]
    } else {
        decimal(n / 10).push(digit_char(n % 10))
    }
}

/// The digits of an unsigned number after an optional leading `+`.
pub open spec fn unsigned_body(s: Seq<char>) -> Seq<char> {
    if s.len() > 0 && s[0] == '+' {
        s.drop_first()
    } else {
        s
    }
}

/// `str::parse` for an unsigned integer type whose largest value is `max`.
pub open spec fn spec_parse_unsigned(s: Seq<char>, max: nat) -> Option<nat> {
    let body = unsigned_body(s);
    if body.len() > 0 && all_digits(body) && digits_value(body) <= max {
        Some(digits_value(body))
    } else {
        None
    }
}

proof fn lemma_digits_value_step(s: Seq<char>, i: int)
    requires
        0 <= i < s.len(),
    ensures
        digits_value(s.subrange(0, i + 1)) == digits_value(s.subrange(0, i)) * 10 + digit_value(s[i]),
{
    assert(s.subrange(0, i + 1).drop_last() =~= s.subrange(0, i));
}

proof fn lemma_digits_value_monotone(s: Seq<char>, i: int)
    requires
        0 <= i <= s.len(),
    ensures
        digits_value(s.subrange(0, i)) <= digits_value(s),
    decreases s.len() - i,
{
    if i < s.len() {
        lemma_digits_value_monotone(s, i + 1);
        lemma_digits_value_step(s, i);
    } else {
        assert(s.subrange(0, i) =~= s);
    }
}

/// Parse decimal digits `s[start..]`, failing when empty, when any character
/// is not a digit, or when the value exceeds `max`.
fn parse_digits(s: &[char], start: usize, max: u64) -> (r: Option<u64>)
    requires
        start <= s@.len(),
    ensures
        ({
            let body = s@.subrange(start as int, s@.len() as int);
            match r {
                Some(v) => body.len() > 0 && all_digits(body) && digits_value(body) <= max
                    && v == digits_value(body),
                None => !(body.len() > 0 && all_digits(body) && digits_value(body) <= max),
            }
        }),
{
    let ghost body = s@.subrange(start as int, s@.len() as int);
    if start == s.len() {
        return None;
    }
    let mut acc: u64 = 0;
    let mut i: usize = start;
    while i < s.len()
        invariant
            start <= i <= s@.len(),
            body == s@.subrange(start as int, s@.len() as int),
            all_digits(body.subrange(0, i - start)),
            acc == digits_value(body.subrange(0, i - start)),
            acc <= max,
        decreases s@.len() - i,
    {
        let c = s[i];
        if !('0' <= c && c <= '9') {
            proof {
                assert(body[i - start] == c);
            }
            return None;
        }
        let d: u64 = ((c as u32) - ('0' as u32)) as u64;
        proof {
            lemma_digits_value_step(body, i - start);
            assert(body[i - start] == c);
        }
        if d > max || acc > (max - d) / 10 {
            proof {
                lemma_digits_value_monotone(body, i - start + 1);
                if d <= max {
                    assert(acc * 10 + d > max) by (nonlinear_arith)
                        requires
                            acc > (max - d) / 10,
                            d <= max,
                    ;
                }
            }
            return None;
        }
        proof {
            assert(acc * 10 + d <= max) by (nonlinear_arith)
                requires
                    acc <= (max - d) / 10,
                    d <= max,
            ;
        }
        acc = acc * 10 + d;
        proof {
            assert forall|j: int| 0 <= j < i + 1 - start implies is_digit(
                #[trigger] body.subrange(0, i + 1 - start)[j],
            ) by {
                if j < i - start {
                    assert(body.subrange(0, i + 1 - start)[j] == body.subrange(0, i - start)[j]);
                }
            }
        }
        i = i + 1;
    }
    proof {
        assert(body.subrange(0, i - start) =~= body);
    }
    Some(acc)
}

/// `str::parse` for an unsigned integer no larger than `max` (`u64::MAX`,
/// `u32::MAX`, ...): an optional `+`, then one or more digits.
pub fn parse_unsigned(s: &[char], max: u64) -> (r: Option<u64>)
    ensures
        match spec_parse_unsigned(s@, max as nat) {
            Some(v) => r == Some(v as u64),
            None => r is None,
        },
{
    let start: usize = if s.len() > 0 && s[0] == '+' { 1 } else { 0 };
    proof {
        if s@.len() > 0 && s@[0] == '+' {
            assert(s@.drop_first() =~= s@.subrange(1, s@.len() as int));
        } else {
            assert(s@.subrange(0, s@.len() as int) =~= s@);
        }
    }
    parse_digits(s, start, max)
}

proof fn lemma_decimal_len(n: nat)
    ensures
        decimal(n).len() >= 1,
    decreases n,
{
    if n >= 10 {
        lemma_decimal_len(n / 10);
    }
}

/// `u64::to_string`: the decimal spelling of `n`.
pub fn u64_to_string(n: u64) -> (r: String)
    ensures
        r@ == decimal(n as nat),
    decreases n,
{
    if n < 10 {
        let mut s = String::new();
        push_char(&mut s, ((n as u8) + 48u8) as char);
        proof {
            assert(s@ =~= seq![digit_char(n as nat)]);
        }
        s
    } else {
        let mut s = u64_to_string(n / 10);
        push_char(&mut s, (((n % 10) as u8) + 48u8) as char);
        s
    }
}

/// `usize::to_string`.
pub fn usize_to_string(n: usize) -> (r: String)
    ensures
        r@ == decimal(n as nat),
{
    u64_to_string(n as u64)
}

} // verus!

verus! {

/// Why `str::parse::<i64>` failed (`core::num::IntErrorKind`).
#[derive(Debug, Clone, Copy, PartialEq, Eq, Structural)]
pub enum IntErrorKind {
    Empty,
    InvalidDigit,
    PosOverflow,
    NegOverflow,
}

/// The `Display` text of a `ParseIntError` of this kind.
pub open spec fn int_error_text(k: IntErrorKind) -> Seq<char> {
    match k {
        IntErrorKind::Empty => "cannot parse integer from empty string"@,
        IntErrorKind::InvalidDigit => "invalid digit found in string"@,
        IntErrorKind::PosOverflow => "number too large to fit in target type"@,
        IntErrorKind::NegOverflow => "number too small to fit in target type"@,
    }
}

pub fn int_error_message(k: IntErrorKind) -> (r: &'static str)
    ensures
        r@ == int_error_text(k),
{
    match k {
        IntErrorKind::Empty => "cannot parse integer from empty string",
        IntErrorKind::InvalidDigit => "invalid digit found in string",
        IntErrorKind::PosOverflow => "number too large to fit in target type",
        IntErrorKind::NegOverflow => "number too small to fit in target type",
    }
}

/// Digits read left to right into `acc`: a non-digit stops with an invalid
/// digit; a running value above `limit` stops with an overflow.
pub open spec fn scan_digits(s: Seq<char>, acc: nat, limit: nat, negative: bool) -> Result<nat, IntErrorKind>
    decreases s.len(),
{
    if s.len() == 0 {
        Ok(acc)
    } else if !is_digit(s[0]) {
        Err(IntErrorKind::InvalidDigit)
    } else if acc * 10 + digit_value(s[0]) > limit {
        Err(if negative { IntErrorKind::NegOverflow } else { IntErrorKind::PosOverflow })
    } else {
        scan_digits(s.drop_first(), acc * 10 + digit_value(s[0]), limit, negative)
    }
}

/// `str::parse::<i64>`, outcome included.
pub open spec fn spec_parse_i64(s: Seq<char>) -> Result<int, IntErrorKind> {
    if s.len() == 0 {
        Err(IntErrorKind::Empty)
    } else if (s[0] == '+' || s[0] == '-') && s.len() == 1 {
        Err(IntErrorKind::InvalidDigit)
    } else if s[0] == '-' {
        match scan_digits(s.drop_first(), 0, 0x8000_0000_0000_0000, true) {
            Ok(v) => Ok(-(v as int)),
            Err(k) => Err(k),
        }
    } else {
        let body = if s[0] == '+' { s.drop_first() } else { s };
        match scan_digits(body, 0, 0x7fff_ffff_ffff_ffff, false) {
            Ok(v) => Ok(v as int),
            Err(k) => Err(k),
        }
    }
}

fn scan_from(s: &[char], start: usize, limit: u64, negative: bool) -> (r: Result<u64, IntErrorKind>)
    requires
        start <= s@.len(),
    ensures
        match scan_digits(s@.subrange(start as int, s@.len() as int), 0, limit as nat, negative) {
            Ok(v) => r matches Ok(w) && w as nat == v,
            Err(k) => r == Err::<u64, IntErrorKind>(k),
        },
        r matches Ok(v) ==> v <= limit,
{
    let mut acc: u64 = 0;
    let mut i: usize = start;
    while i < s.len()
        invariant
            start <= i <= s@.len(),
            acc <= limit,
            scan_digits(s@.subrange(start as int, s@.len() as int), 0, limit as nat, negative) == scan_digits(
                s@.subrange(i as int, s@.len() as int),
                acc as nat,
                limit as nat,
                negative,
            ),
        decreases s@.len() - i,
    {
        let ghost rest = s@.subrange(i as int, s@.len() as int);
        proof {
            assert(rest[0] == s@[i as int]);
            assert(rest.drop_first() =~= s@.subrange(i + 1, s@.len() as int));
        }
        let c = s[i];
        if !('0' <= c && c <= '9') {
            return Err(IntErrorKind::InvalidDigit);
        }
        let d: u64 = ((c as u32) - ('0' as u32)) as u64;
        if d > limit || acc > (limit - d) / 10 {
            proof {
                if d <= limit {
                    assert(acc * 10 + d > limit) by (nonlinear_arith)
                        requires
                            acc > (limit - d) / 10,
                            d <= limit,
                    ;
                }
            }
            return Err(if negative { IntErrorKind::NegOverflow } else { IntErrorKind::PosOverflow });
        }
        proof {
            assert(acc * 10 + d <= limit) by (nonlinear_arith)
                requires
                    acc <= (limit - d) / 10,
                    d <= limit,
            ;
        }
        acc = acc * 10 + d;
        i = i + 1;
    }
    Ok(acc)
}

/// `str::parse::<i64>` on characters.
pub fn parse_i64(s: &[char]) -> (r: Result<i64, IntErrorKind>)
    ensures
        match spec_parse_i64(s@) {
            Ok(v) => r matches Ok(w) && w as int == v,
            Err(k) => r == Err::<i64, IntErrorKind>(k),
        },
{
    let n = s.len();
    if n == 0 {
        return Err(IntErrorKind::Empty);
    }
    if (s[0] == '+' || s[0] == '-') && n == 1 {
        return Err(IntErrorKind::InvalidDigit);
    }
    proof {
        assert(s@.drop_first() =~= s@.subrange(1, s@.len() as int));
        assert(s@ =~= s@.subrange(0, s@.len() as int));
    }
    if s[0] == '-' {
        let res = scan_from(s, 1, 0x8000_0000_0000_0000u64, true);
        proof {
            assert(s@.drop_first() == s@.subrange(1, s@.len() as int));
        }
        match res {
            Ok(v) => if v == 0x8000_0000_0000_0000u64 {
                assert(spec_parse_i64(s@) == Ok::<int, IntErrorKind>(-(v as int)));
                Ok(i64::MIN)
            } else {
                Ok(-(v as i64))
            },
            Err(k) => Err(k),
        }
    } else {
        let start: usize = if s[0] == '+' { 1 } else { 0 };
        let ghost body = if s@[0] == '+' { s@.drop_first() } else { s@ };
        assert(body == s@.subrange(start as int, s@.len() as int));
        match scan_from(s, start, 0x7fff_ffff_ffff_ffffu64, false) {
            Ok(v) => {
                assert(spec_parse_i64(s@) == Ok::<int, IntErrorKind>(v as int));
                Ok(v as i64)
            },
            Err(k) => Err(k),
        }
    }
}

/// `i64::to_string`.
pub open spec fn signed_decimal(n: int) -> Seq<char> {
    if n < 0 {
        seq!['-'] + decimal((-n) as nat)
    } else {
        decimal(n as nat)
    }
}

pub fn i64_to_string(n: i64) -> (r: String)
    ensures
        r@ == signed_decimal(n as int),
{
    if n < 0 {
        let mag: u64 = if n == i64::MIN { 0x8000_0000_0000_0000u64 } else { (-n) as u64 };
        let digits = u64_to_string(mag);
        let mut s = String::new();
        push_char(&mut s, '-');
        s.append(digits.as_str());
        proof {
            assert(s@ =~= seq!['-'] + decimal((-(n as int)) as nat));
        }
        s
    } else {
        u64_to_string(n as u64)
    }
}

} // verus!

verus! {

/// `str::parse::<u64>`, outcome included.
pub open spec fn spec_parse_u64(s: Seq<char>) -> Result<nat, IntErrorKind> {
    if s.len() == 0 {
        Err(IntErrorKind::Empty)
    } else if (s[0] == '+' || s[0] == '-') && s.len() == 1 {
        Err(IntErrorKind::InvalidDigit)
    } else {
        let body = if s[0] == '+' { s.drop_first() } else { s };
        scan_digits(body, 0, 0xffff_ffff_ffff_ffff, false)
    }
}

/// `str::parse::<u64>` on characters.
pub fn parse_u64(s: &[char]) -> (r: Result<u64, IntErrorKind>)
    ensures
        match spec_parse_u64(s@) {
            Ok(v) => r matches Ok(w) && w as nat == v,
            Err(k) => r == Err::<u64, IntErrorKind>(k),
        },
{
    let n = s.len();
    if n == 0 {
        return Err(IntErrorKind::Empty);
    }
    if (s[0] == '+' || s[0] == '-') && n == 1 {
        return Err(IntErrorKind::InvalidDigit);
    }
    proof {
        assert(s@.drop_first() =~= s@.subrange(1, s@.len() as int));
        assert(s@ =~= s@.subrange(0, s@.len() as int));
    }
    let start: usize = if s[0] == '+' { 1 } else { 0 };
    scan_from(s, start, 0xffff_ffff_ffff_ffffu64, false)
}

pub open spec fn pow10(k: nat) -> nat
    decreases k,
{
    if k == 0 {
        1
    } else {
        10 * pow10((k - 1) as nat)
    }
}


proof fn lemma_pow10_pos(k: nat)
    ensures
        pow10(k) >= 1,
    decreases k,
{
    if k > 0 {
        lemma_pow10_pos((k - 1) as nat);
    }
}

/// The value of a digit string read from the front: its first digit weighs
/// `10^(len-1)`.
proof fn lemma_digits_value_first(s: Seq<char>)
    requires
        s.len() > 0,
    ensures
        digits_value(s) == digit_value(s[0]) * pow10((s.len() - 1) as nat) + digits_value(s.drop_first()),
    decreases s.len(),
{
    assert(digits_value(s) == digits_value(s.drop_last()) * 10 + digit_value(s.last()));
    if s.len() == 1 {
        assert(s.drop_last().len() == 0);
        assert(s.drop_first().len() == 0);
        assert(digits_value(s.drop_last()) == 0);
        assert(digits_value(s.drop_first()) == 0);
        assert(pow10(0) == 1);
        assert(s.last() == s[0]);
        assert(digit_value(s[0]) * pow10(0) == digit_value(s[0])) by (nonlinear_arith)
            requires
                pow10(0) == 1,
        ;
    } else {
        let t = s.drop_last();
        lemma_digits_value_first(t);
        assert(t[0] == s[0]);
        assert(digits_value(s.drop_first()) == digits_value(s.drop_first().drop_last()) * 10 + digit_value(
            s.drop_first().last(),
        ));
        assert(t.drop_first() =~= s.drop_first().drop_last());
        assert(s.drop_first().last() == s.last());
        let k = (s.len() - 2) as nat;
        assert(pow10(k + 1) == 10 * pow10(k));
        let a = digit_value(s[0]);
        let b = digits_value(t.drop_first());
        let dl = digit_value(s.last());
        assert(digits_value(t) == a * pow10(k) + b);
        assert(digits_value(s.drop_first()) == b * 10 + dl);
        assert(digits_value(s) == digits_value(t) * 10 + dl);
        assert((a * pow10(k) + b) * 10 == a * pow10(k + 1) + b * 10) by (nonlinear_arith)
            requires
                pow10(k + 1) == 10 * pow10(k),
        ;
        assert((s.len() - 1) as nat == k + 1);
        assert(digits_value(s) == a * pow10(k + 1) + digits_value(s.drop_first()));
    }
}

/// Scanning an all-digit string whose final value fits succeeds with that value.
proof fn lemma_scan_all_digits(s: Seq<char>, acc: nat, limit: nat)
    requires
        all_digits(s),
        acc * pow10(s.len()) + digits_value(s) <= limit,
    ensures
        scan_digits(s, acc, limit, false) == Ok::<nat, IntErrorKind>(acc * pow10(s.len()) + digits_value(s)),
    decreases s.len(),
{
    if s.len() == 0 {
        assert(pow10(0) == 1);
        assert(digits_value(s) == 0);
        assert(acc * 1 == acc);
    } else {
        lemma_digits_value_first(s);
        let k = (s.len() - 1) as nat;
        let d = digit_value(s[0]);
        let rest = s.drop_first();
        assert(pow10(k + 1) == 10 * pow10(k));
        lemma_pow10_pos(k);
        assert(all_digits(rest)) by {
            assert forall|i: int| 0 <= i < rest.len() implies is_digit(#[trigger] rest[i]) by {
                assert(rest[i] == s[i + 1]);
            }
        }
        let v = acc * 10 + d;
        assert(v * pow10(k) + digits_value(rest) == acc * pow10(k + 1) + d * pow10(k) + digits_value(rest))
            by (nonlinear_arith)
            requires
                pow10(k + 1) == 10 * pow10(k),
                v == acc * 10 + d,
        ;
        assert(v <= v * pow10(k)) by (nonlinear_arith)
            requires
                pow10(k) >= 1,
        ;
        assert(is_digit(s[0]));
        assert(acc * pow10(s.len()) + digits_value(s) == v * pow10(k) + digits_value(rest));
        assert(v <= limit);
        lemma_scan_all_digits(rest, v, limit);
        assert(scan_digits(s, acc, limit, false) == scan_digits(rest, v, limit, false));
    }
}

/// The decimal spelling of `n` is all digits and reads back as `n`.
pub proof fn lemma_decimal_digits(n: nat)
    ensures
        all_digits(decimal(n)),
        digits_value(decimal(n)) == n,
    decreases n,
{
    if n < 10 {
        let d = decimal(n);
        assert(d.drop_last().len() == 0);
        assert(digits_value(d.drop_last()) == 0);
        assert(digit_value(digit_char(n)) == n);
        assert(digits_value(d) == digits_value(d.drop_last()) * 10 + digit_value(d.last()));
    } else {
        lemma_decimal_digits(n / 10);
        let d = decimal(n);
        assert(d.drop_last() =~= decimal(n / 10));
        assert(digit_value(digit_char(n % 10)) == n % 10);
        assert(digits_value(d) == digits_value(d.drop_last()) * 10 + digit_value(d.last()));
        assert forall|i: int| 0 <= i < d.len() implies is_digit(#[trigger] d[i]) by {
            if i < d.len() - 1 {
                assert(d[i] == decimal(n / 10)[i]);
            }
        }
    }
}

/// Reading back the decimal spelling of a `u64` gives the number.
pub proof fn lemma_parse_u64_decimal(n: u64)
    ensures
        spec_parse_u64(decimal(n as nat)) == Ok::<nat, IntErrorKind>(n as nat),
{
    let d = decimal(n as nat);
    lemma_decimal_digits(n as nat);
    lemma_decimal_len(n as nat);
    lemma_pow10_pos(d.len());
    assert(d[0] != '+' && d[0] != '-');
    lemma_scan_all_digits(d, 0, 0xffff_ffff_ffff_ffff);
}

/// A scan that starts at or below its limit ends at or below it.
proof fn lemma_scan_digits_bound(s: Seq<char>, acc: nat, limit: nat, negative: bool)
    requires
        acc <= limit,
    ensures
        scan_digits(s, acc, limit, negative) matches Ok(v) ==> v <= limit,
    decreases s.len(),
{
    if s.len() > 0 && is_digit(s[0]) && acc * 10 + digit_value(s[0]) <= limit {
        lemma_scan_digits_bound(s.drop_first(), acc * 10 + digit_value(s[0]), limit, negative);
    }
}

/// What `str::parse::<u64>` accepts fits in a `u64`.
pub proof fn lemma_parse_u64_bound(s: Seq<char>)
    ensures
        spec_parse_u64(s) matches Ok(n) ==> n <= u64::MAX,
{
    if s.len() > 0 {
        let body = if s[0] == '+' { s.drop_first() } else { s };
        lemma_scan_digits_bound(body, 0, 0xffff_ffff_ffff_ffff, false);
    }
}

} // verus!
