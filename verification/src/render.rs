//! Text of the replies: decimal numbers, the lines of a listing, and the
//! footer that reports how long the query took.

use vstd::prelude::*;
use vstd::string::StringExecFns;
use crate::backend::{listing_views, DriverSpeed};
use crate::query::DriverSpeedData;
use crate::span::Span;

verus! {

/// The character of a decimal digit.
pub open spec fn digit_char(digit: int) -> char {
    if digit == 0 {
        '0'
    } else if digit == 1 {
        '1'
    } else if digit == 2 {
        '2'
    } else if digit == 3 {
        '3'
    } else if digit == 4 {
        '4'
    } else if digit == 5 {
        '5'
    } else if digit == 6 {
        '6'
    } else if digit == 7 {
        '7'
    } else if digit == 8 {
        '8'
    } else {
        '9'
    }
}

/// A natural number in decimal, without leading zeros.
pub open spec fn decimal_nat(n: nat) -> Seq<char>
    decreases n,
{
    if n < 10 {
        seq![digit_char(n as int)]
    } else {
        decimal_nat(n / 10).push(digit_char((n % 10) as int))
    }
}

/// An integer in decimal, with a minus sign where it is negative.
pub open spec fn decimal(n: int) -> Seq<char> {
    if n < 0 {
        seq!['-'] + decimal_nat((-n) as nat)
    } else {
        decimal_nat(n as nat)
    }
}

/// One line of a listing: driver, colon, space, speed.
pub open spec fn line_of(line: DriverSpeedData) -> Seq<char> {
    line.driver_name + ": "@ + decimal(line.top_speed)
}

/// The lines of a listing, with a line feed between one and the next.
pub open spec fn joined_lines(listing: Seq<DriverSpeedData>) -> Seq<char>
    decreases listing.len(),
{
    if listing.len() == 0 {
        Seq::empty()
    } else if listing.len() == 1 {
        line_of(listing[0])
    } else {
        joined_lines(listing.drop_last()) + "\n"@ + line_of(listing.last())
    }
}

/// Name for the text that `std` gives a duration of `secs` seconds and
/// `nanos` nanoseconds when it is formatted with `{:?}`.
pub uninterp spec fn duration_text(secs: u64, nanos: u32) -> Seq<char>;

/// A body followed by the footer that reports the query time.
pub open spec fn with_footer(body: Seq<char>, latency: Span) -> Seq<char> {
    body + "\n---\nQuery Time: "@ + duration_text(latency.secs, latency.nanos)
}

/// Formats a duration with `{:?}`, as `std` does for `Duration`. Trusted:
/// that the text depends on the seconds and nanoseconds alone. The
/// nanoseconds stay below one second, so that the duration can be built.
#[verifier::external_body]
fn format_duration(secs: u64, nanos: u32) -> (text: String)
    requires
        nanos < 1_000_000_000,
    ensures
        text@ == duration_text(secs, nanos),
{
    format!("{:?}", std::time::Duration::new(secs, nanos))
}

/// The text of one decimal digit.
fn digit_text(digit: u64) -> (text: &'static str)
    requires
        digit < 10,
    ensures
        text@ == seq![digit_char(digit as int)],
{
    proof {
        reveal_strlit("0");
        reveal_strlit("1");
        reveal_strlit("2");
        reveal_strlit("3");
        reveal_strlit("4");
        reveal_strlit("5");
        reveal_strlit("6");
        reveal_strlit("7");
        reveal_strlit("8");
        reveal_strlit("9");
    }
    let text = if digit == 0 {
        "0"
    } else if digit == 1 {
        "1"
    } else if digit == 2 {
        "2"
    } else if digit == 3 {
        "3"
    } else if digit == 4 {
        "4"
    } else if digit == 5 {
        "5"
    } else if digit == 6 {
        "6"
    } else if digit == 7 {
        "7"
    } else if digit == 8 {
        "8"
    } else {
        "9"
    };
    assert(text@ =~= seq![digit_char(digit as int)]);
    text
}

/// Appends a natural number in decimal.
fn append_decimal_nat(out: &mut String, n: u64)
    ensures
        final(out)@ == old(out)@ + decimal_nat(n as nat),
    decreases n,
{
    if n >= 10 {
        append_decimal_nat(out, n / 10);
    }
    out.append(digit_text(n % 10));
    assert(out@ =~= old(out)@ + decimal_nat(n as nat));
}

/// Appends an integer in decimal.
pub fn append_decimal(out: &mut String, n: i32)
    ensures
        final(out)@ == old(out)@ + decimal(n as int),
{
    if n < 0 {
        proof {
            reveal_strlit("-");
        }
        out.append("-");
        let magnitude: u64 = (-(n as i64)) as u64;
        append_decimal_nat(out, magnitude);
        assert(out@ =~= old(out)@ + decimal(n as int));
    } else {
        append_decimal_nat(out, n as u64);
    }
}

/// An integer in decimal.
pub fn decimal_text(n: i32) -> (text: String)
    ensures
        text@ == decimal(n as int),
{
    let mut text = String::new();
    append_decimal(&mut text, n);
    assert(text@ =~= decimal(n as int));
    text
}

/// The lines of a listing, `driver: speed`, with a line feed between one
/// and the next.
pub fn listing_text(listing: &Vec<DriverSpeed>) -> (text: String)
    ensures
        text@ == joined_lines(listing_views(listing@)),
{
    let ghost views = listing_views(listing@);
    let mut text = String::new();
    let mut i: usize = 0;
    while i < listing.len()
        invariant
            i <= listing.len(),
            views == listing_views(listing@),
            text@ == joined_lines(views.take(i as int)),
        decreases listing.len() - i,
    {
        let ghost before = text@;
        proof {
            assert(views.take(i + 1).drop_last() =~= views.take(i as int));
            assert(views.take(i + 1).last() == listing[i as int]@);
        }
        if i > 0 {
            text.append("\n");
        }
        text.append(listing[i].driver_name.as_str());
        text.append(": ");
        append_decimal(&mut text, listing[i].top_speed);
        proof {
            let line = line_of(listing[i as int]@);
            if i > 0 {
                assert(text@ =~= before + "\n"@ + line);
            } else {
                assert(views.take(1)[0] == listing[0]@);
                assert(text@ =~= line);
            }
        }
        i = i + 1;
    }
    proof {
        assert(views.take(listing.len() as int) =~= views);
    }
    text
}

/// Appends the footer that reports the query time.
pub fn append_footer(body: String, latency: Span) -> (text: String)
    requires
        latency.wf(),
    ensures
        text@ == with_footer(body@, latency),
{
    let mut text = body;
    text.append("\n---\nQuery Time: ");
    let time = format_duration(latency.secs, latency.nanos);
    text.append(time.as_str());
    text
}

} // verus!
