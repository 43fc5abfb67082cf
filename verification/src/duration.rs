//! How long a task took, written as an ISO 8601 duration.
//!
//! The text is `P`, then the whole days followed by `D` if there are any,
//! then `T`, the seconds left and `S`. The seconds carry a fraction of
//! three, six or nine digits when the duration does not end on a second: the
//! shortest of the three that shows every nanosecond. A duration of less
//! than a day always shows its seconds, so that the text is never `P` alone.
//! A negative duration has no text.

use vstd::prelude::*;
use vstd::string::StringExecFns;
use time::Duration;

verus! {

#[verifier::external_type_specification]
#[verifier::external_body]
pub struct ExDuration(Duration);

/// The whole seconds of a duration.
pub uninterp spec fn whole_seconds(duration: Duration) -> i64;

/// The nanoseconds of a duration past its whole seconds.
pub uninterp spec fn subsec_nanoseconds(duration: Duration) -> i32;

/// `Duration::whole_seconds`: the whole seconds of a duration, which the
/// duration alone decides.
#[verifier::external_body]
pub(crate) fn duration_whole_seconds(duration: &Duration) -> (seconds: i64)
    ensures
        seconds == whole_seconds(*duration),
{
    duration.whole_seconds()
}

/// `Duration::subsec_nanoseconds`: the nanoseconds of a duration past its
/// whole seconds, which the duration alone decides, and which lie strictly
/// between minus and plus one second.
#[verifier::external_body]
pub(crate) fn duration_subsec_nanoseconds(duration: &Duration) -> (nanoseconds: i32)
    ensures
        nanoseconds == subsec_nanoseconds(*duration),
        -999_999_999 <= nanoseconds <= 999_999_999,
{
    duration.subsec_nanoseconds()
}

/// The seconds of a day.
pub const SECS_PER_DAY: i64 = 86_400;

/// The nanoseconds of a millisecond.
pub const NANOS_PER_MILLI: i32 = 1_000_000;

/// The nanoseconds of a microsecond.
pub const NANOS_PER_MICRO: i32 = 1_000;

/// The character that shows a digit.
pub open spec fn digit(value: int) -> char {
    if value == 0 {
        '0'
    } else if value == 1 {
        '1'
    } else if value == 2 {
        '2'
    } else if value == 3 {
        '3'
    } else if value == 4 {
        '4'
    } else if value == 5 {
        '5'
    } else if value == 6 {
        '6'
    } else if value == 7 {
        '7'
    } else if value == 8 {
        '8'
    } else {
        '9'
    }
}

/// A number in decimal digits, without leading zeros.
pub open spec fn decimal(value: nat) -> Seq<char>
    decreases value,
{
    if value < 10 {
        seq![digit(value as int)]
    } else {
        decimal(value / 10).push(digit((value % 10) as int))
    }
}

/// The `width` last decimal digits of a number, with leading zeros.
pub open spec fn padded(value: nat, width: nat) -> Seq<char>
    decreases width,
{
    if width == 0 {
        Seq::empty()
    } else {
        padded(value / 10, (width - 1) as nat).push(digit((value % 10) as int))
    }
}

/// The fraction of the seconds: nothing on a whole second, else a point and
/// the milliseconds, microseconds or nanoseconds, whichever is the
/// shortest that is exact.
pub open spec fn fraction(nanoseconds: int) -> Seq<char> {
    if nanoseconds == 0 {
        Seq::empty()
    } else if nanoseconds % 1_000_000 == 0 {
        seq!['.'] + padded((nanoseconds / 1_000_000) as nat, 3)
    } else if nanoseconds % 1_000 == 0 {
        seq!['.'] + padded((nanoseconds / 1_000) as nat, 6)
    } else {
        seq!['.'] + padded(nanoseconds as nat, 9)
    }
}

/// The text of a duration that is not negative.
pub open spec fn duration_text(seconds: int, nanoseconds: int) -> Seq<char> {
    let days = seconds / 86_400;
    let rest = seconds % 86_400;
    let date = if days != 0 {
        decimal(days as nat).push('D')
    } else {
        Seq::empty()
    };
    let time = if rest != 0 || nanoseconds != 0 || days == 0 {
        (seq!['T'] + decimal(rest as nat) + fraction(nanoseconds)).push('S')
    } else {
        Seq::empty()
    };
    seq!['P'] + date + time
}

/// The text of a digit.
fn digit_str(value: u8) -> (text: &'static str)
    requires
        value < 10,
    ensures
        text@ == seq![digit(value as int)],
{
    proof {
        reveal_strlit("0");
        reveal_strlit("1");
        reveal_strlit("2");
        reveal_strlit("3");
        reveal_strlit("4");
        reveal_strlit("5");
        reveal_strlit("6");
        reveal_strlit("7");
        reveal_strlit("8");
        reveal_strlit("9");
    }
    let text = if value == 0 {
        "0"
    } else if value == 1 {
        "1"
    } else if value == 2 {
        "2"
    } else if value == 3 {
        "3"
    } else if value == 4 {
        "4"
    } else if value == 5 {
        "5"
    } else if value == 6 {
        "6"
    } else if value == 7 {
        "7"
    } else if value == 8 {
        "8"
    } else {
        "9"
    };
    assert(text@ =~= seq![digit(value as int)]);
    text
}

/// Writes a number in decimal digits at the end of a text.
fn push_decimal(text: &mut String, value: u64)
    ensures
        final(text)@ == old(text)@ + decimal(value as nat),
    decreases value,
{
    if value >= 10 {
        push_decimal(text, value / 10);
    }
    let ghost before = text@;
    text.append(digit_str((value % 10) as u8));
    proof {
        let last = digit((value % 10) as int);
        if value >= 10 {
            assert(text@ =~= old(text)@ + decimal((value / 10) as nat).push(last));
        } else {
            assert(text@ =~= old(text)@ + seq![last]);
        }
    }
}

/// Writes the `width` last decimal digits of a number at the end of a text.
fn push_padded(text: &mut String, value: u64, width: u8)
    ensures
        final(text)@ == old(text)@ + padded(value as nat, width as nat),
    decreases width,
{
    if width > 0 {
        push_padded(text, value / 10, width - 1);
        text.append(digit_str((value % 10) as u8));
        proof {
            let last = digit((value % 10) as int);
            assert(text@ =~= old(text)@ + padded((value / 10) as nat, (width - 1) as nat).push(
                last,
            ));
        }
    } else {
        assert(text@ =~= old(text)@ + Seq::<char>::empty());
    }
}

/// The text of a duration given by its whole seconds and the nanoseconds
/// past them; none for a negative duration.
pub fn format_duration(seconds: i64, nanoseconds: i32) -> (text: Option<String>)
    requires
        -999_999_999 <= nanoseconds <= 999_999_999,
    ensures
        match text {
            Some(text) => seconds >= 0 && nanoseconds >= 0 && text@ == duration_text(
                seconds as int,
                nanoseconds as int,
            ),
            None => seconds < 0 || nanoseconds < 0,
        },
{
    if seconds < 0 || nanoseconds < 0 {
        return None;
    }
    let days = seconds / SECS_PER_DAY;
    let rest = seconds - days * SECS_PER_DAY;
    let has_date = days != 0;
    let has_time = (rest != 0 || nanoseconds != 0) || !has_date;
    proof {
        reveal_strlit("P");
        reveal_strlit("D");
        reveal_strlit("T");
        reveal_strlit("S");
        reveal_strlit(".");
    }
    let mut text = "P".to_owned();
    assert(text@ =~= seq!['P']);
    if has_date {
        push_decimal(&mut text, days as u64);
        text.append("D");
        assert(text@ =~= seq!['P'] + decimal(days as nat).push('D'));
    }
    let ghost dated = text@;
    if has_time {
        text.append("T");
        push_decimal(&mut text, rest as u64);
        let ghost timed = text@;
        if nanoseconds == 0 {
            assert(fraction(nanoseconds as int) =~= Seq::<char>::empty());
        } else if nanoseconds % NANOS_PER_MILLI == 0 {
            text.append(".");
            push_padded(&mut text, (nanoseconds / NANOS_PER_MILLI) as u64, 3);
            assert(text@ =~= timed + fraction(nanoseconds as int));
        } else if nanoseconds % NANOS_PER_MICRO == 0 {
            text.append(".");
            push_padded(&mut text, (nanoseconds / NANOS_PER_MICRO) as u64, 6);
            assert(text@ =~= timed + fraction(nanoseconds as int));
        } else {
            text.append(".");
            push_padded(&mut text, nanoseconds as u64, 9);
            assert(text@ =~= timed + fraction(nanoseconds as int));
        }
        text.append("S");
        assert(text@ =~= dated + (seq!['T'] + decimal(rest as nat) + fraction(
            nanoseconds as int,
        )).push('S'));
    }
    assert(text@ =~= duration_text(seconds as int, nanoseconds as int));
    Some(text)
}

/// The text of a duration given by its whole seconds and the nanoseconds
/// past them, if it has one: a negative duration has none.
pub open spec fn text_of(seconds: int, nanoseconds: int) -> Option<Seq<char>> {
    if seconds < 0 || nanoseconds < 0 {
        None
    } else {
        Some(duration_text(seconds, nanoseconds))
    }
}

/// The text of a duration, if there is one and it is not negative: the
/// text that [`format_duration`] gives for its whole seconds and the
/// nanoseconds past them.
pub fn serialize_duration(duration: &Option<Duration>) -> (text: Option<String>)
    ensures
        text.deep_view() == match *duration {
            Some(given) => text_of(
                whole_seconds(given) as int,
                subsec_nanoseconds(given) as int,
            ),
            None => None,
        },
{
    match duration {
        Some(duration) => format_duration(
            duration_whole_seconds(duration),
            duration_subsec_nanoseconds(duration),
        ),
        None => None,
    }
}

} // verus!
