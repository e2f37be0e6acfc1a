//! Relative durations such as `10s`, `5m`, `2h`, `1d`.

use vstd::prelude::*;
use vstd::string::*;
use crate::number::{int_error_message, int_error_text, parse_i64, spec_parse_i64, IntErrorKind};
use crate::text::{chars_of, take_chars, trim_chars, trim_seq};

verus! {

/// The largest whole-second magnitude a `chrono::TimeDelta` holds.
pub const MAX_DELTA_SECS: i64 = 9_223_372_036_854_775;

/// Seconds per unit letter.
pub open spec fn unit_seconds(c: char) -> Option<int> {
    if c == 's' {
        Some(1)
    } else if c == 'm' {
        Some(60)
    } else if c == 'h' {
        Some(3600)
    } else if c == 'd' {
        Some(86400)
    } else {
        None
    }
}

/// The outcome of reading a duration: whole seconds, or an error that carries
/// the integer-parse failure when the amount was unreadable (`None` for a
/// missing or unknown unit).
pub open spec fn spec_parse_duration(value: Seq<char>) -> Result<int, Option<IntErrorKind>> {
    let t = trim_seq(value);
    if t.len() == 0 {
        Err(None)
    } else {
        match spec_parse_i64(t.drop_last()) {
            Err(k) => Err(Some(k)),
            Ok(amount) => match unit_seconds(t.last()) {
                Some(mult) => Ok(amount * mult),
                None => Err(None),
            },
        }
    }
}

/// A duration is an amount followed by one unit letter, blanks around it
/// ignored: `s` counts seconds, `m` minutes (60 s), `h` hours (3600 s) and
/// `d` days (86400 s); any other last letter, or no text at all, is no
/// duration, and an unreadable amount fails with its own error.
pub proof fn law_duration_units(value: Seq<char>, amount: int)
    ensures
        trim_seq(value).len() == 0 ==> spec_parse_duration(value) == Err::<int, Option<IntErrorKind>>(None),
        trim_seq(value).len() > 0 && spec_parse_i64(trim_seq(value).drop_last()) == Ok::<int, IntErrorKind>(amount) ==> {
            &&& trim_seq(value).last() == 's' ==> spec_parse_duration(value) == Ok::<int, Option<IntErrorKind>>(amount)
            &&& trim_seq(value).last() == 'm' ==> spec_parse_duration(value) == Ok::<int, Option<IntErrorKind>>(amount * 60)
            &&& trim_seq(value).last() == 'h' ==> spec_parse_duration(value) == Ok::<int, Option<IntErrorKind>>(amount * 3600)
            &&& trim_seq(value).last() == 'd' ==> spec_parse_duration(value) == Ok::<int, Option<IntErrorKind>>(amount * 86400)
            &&& !(trim_seq(value).last() == 's' || trim_seq(value).last() == 'm' || trim_seq(value).last() == 'h'
                || trim_seq(value).last() == 'd') ==> spec_parse_duration(value) == Err::<int, Option<IntErrorKind>>(None)
        },
        trim_seq(value).len() > 0 && spec_parse_i64(trim_seq(value).drop_last()) is Err ==> spec_parse_duration(value)
            == Err::<int, Option<IntErrorKind>>(Some(spec_parse_i64(trim_seq(value).drop_last())->Err_0)),
{
    let t = trim_seq(value);
    if t.len() > 0 && spec_parse_i64(t.drop_last()) == Ok::<int, IntErrorKind>(amount) {
        let c = t.last();
        assert(unit_seconds('s') == Some(1int));
        assert(unit_seconds('m') == Some(60int));
        assert(unit_seconds('h') == Some(3600int));
        assert(unit_seconds('d') == Some(86400int));
        if !(c == 's' || c == 'm' || c == 'h' || c == 'd') {
            assert(unit_seconds(c) is None);
        }
        assert(amount * 1 == amount);
    }
}

/// The inputs on which reading a duration does not panic: the unit character
/// is one byte wide (the amount is sliced off by bytes), and the resulting
/// span fits a `chrono::TimeDelta`.
pub open spec fn duration_text_ok(value: Seq<char>) -> bool {
    let t = trim_seq(value);
    &&& t.len() == 0 || (t.last() as u32) < 0x80
    &&& spec_parse_duration(value) matches Ok(secs) ==> -MAX_DELTA_SECS <= secs <= MAX_DELTA_SECS
}

/// A duration could not be read from the text.
#[derive(Debug, Clone)]
pub struct DurationError {
    pub value: String,
    pub amount_error: Option<IntErrorKind>,
}

impl DurationError {
    /// "invalid duration `<value>`", followed by the integer error when there is one.
    /// The diagnostic text: the value, and why its amount did not read.
    pub open spec fn message_text(&self) -> Seq<char> {
        "invalid duration `"@ + self.value@ + "`"@ + match self.amount_error {
            Some(k) => ": "@ + int_error_text(k),
            None => Seq::empty(),
        }
    }

    pub fn message(&self) -> (r: String)
        ensures
            r@ == self.message_text(),
    {
        let mut s = String::from_str("invalid duration `");
        s.append(self.value.as_str());
        s.append("`");
        match self.amount_error {
            Some(k) => {
                s.append(": ");
                s.append(int_error_message(k));
            },
            None => {
                proof {
                    assert(s@ =~= s@ + Seq::<char>::empty());
                }
            },
        }
        s
    }
}

/// Read a duration like `10m` into whole seconds.
pub fn parse_duration(value: &str) -> (r: Result<i64, DurationError>)
    requires
        duration_text_ok(value@),
    ensures
        match spec_parse_duration(value@) {
            Ok(secs) => r matches Ok(s) && s as int == secs,
            Err(k) => r matches Err(e) && e.value@ == value@ && e.amount_error == k,
        },
{
    let t = trim_chars(chars_of(value).as_slice());
    let n = t.len();
    if n == 0 {
        return Err(DurationError { value: String::from_str(value), amount_error: None });
    }
    let unit = t[n - 1];
    let body = take_chars(t.as_slice(), n - 1);
    proof {
        assert(body@ =~= t@.drop_last());
    }
    let amount = match parse_i64(body.as_slice()) {
        Ok(a) => a,
        Err(k) => {
            return Err(DurationError { value: String::from_str(value), amount_error: Some(k) });
        },
    };
    let mult: i64 = if unit == 's' {
        1
    } else if unit == 'm' {
        60
    } else if unit == 'h' {
        3600
    } else if unit == 'd' {
        86400
    } else {
        return Err(DurationError { value: String::from_str(value), amount_error: None });
    };
    proof {
        assert(-MAX_DELTA_SECS <= amount * mult <= MAX_DELTA_SECS);
    }
    Ok(amount * mult)
}

/// Whether `value` is one that `parse_duration` takes (see
/// `duration_text_ok`): callers test it before reading a configured duration.
pub fn duration_text_checked(value: &str) -> (r: bool)
    ensures
        r == duration_text_ok(value@),
{
    let t = trim_chars(chars_of(value).as_slice());
    let n = t.len();
    if n == 0 {
        return true;
    }
    let unit = t[n - 1];
    if !((unit as u32) < 0x80) {
        return false;
    }
    let body = take_chars(t.as_slice(), n - 1);
    proof {
        assert(body@ =~= t@.drop_last());
    }
    let amount = match parse_i64(body.as_slice()) {
        Ok(a) => a,
        Err(_) => return true,
    };
    let mult: i128 = if unit == 's' {
        1
    } else if unit == 'm' {
        60
    } else if unit == 'h' {
        3600
    } else if unit == 'd' {
        86400
    } else {
        return true;
    };
    let secs: i128 = amount as i128 * mult;
    -(MAX_DELTA_SECS as i128) <= secs && secs <= MAX_DELTA_SECS as i128
}

} // verus!
