//! Relative time spans: reading one from text, term by term, and stepping
//! back from an instant by it.

use vstd::prelude::*;
use vstd::string::StrSliceExecFns;
use crate::error::{invalid_argument, QueryError};

verus! {

/// A length of time: whole seconds and the nanoseconds below a second.
#[derive(Clone, Copy, Debug, PartialEq, Eq, Structural)]
pub struct Span {
    pub secs: u64,
    pub nanos: u32,
}

impl Span {
    /// The nanoseconds stay below one second.
    pub open spec fn wf(self) -> bool {
        self.nanos < 1_000_000_000
    }

    /// The span is longer than nothing.
    pub open spec fn is_positive(self) -> bool {
        self.secs > 0 || self.nanos > 0
    }

    /// The span in nanoseconds.
    pub open spec fn total_nanos(self) -> int {
        self.secs * 1_000_000_000 + self.nanos
    }

    /// The span in milliseconds, rounded up.
    pub open spec fn millis_ceil(self) -> int {
        self.secs * 1000 + (self.nanos + 999_999) / 1_000_000
    }
}

/// `c` can stand in the name of a unit: a Latin letter or the micro sign.
pub open spec fn is_unit_char(c: char) -> bool {
    ('a' <= c && c <= 'z') || ('A' <= c && c <= 'Z') || c == '\u{b5}'
}

/// A term ends before position `i`: a unit character stands before it and
/// none at it.
pub open spec fn is_cut(text: Seq<char>, i: int) -> bool {
    0 < i < text.len() && is_unit_char(text[i - 1]) && !is_unit_char(text[i])
}

/// The text holds one term at most: what follows a unit character is a unit
/// character.
pub open spec fn is_single_term(text: Seq<char>) -> bool {
    forall|j: int|
        0 <= j < text.len() - 1 && is_unit_char(#[trigger] text[j]) ==> is_unit_char(text[j + 1])
}

/// The last position up to `n` before which a term ends; 0 where there is
/// none.
pub open spec fn last_cut(text: Seq<char>, n: int) -> int
    decreases n,
{
    if n <= 0 {
        0
    } else if is_cut(text, n) {
        n
    } else {
        last_cut(text, n - 1)
    }
}

/// The terms of a text, in order: each runs up to the end of a unit name,
/// the last to the end of the text.
pub open spec fn span_terms(text: Seq<char>) -> Seq<Seq<char>>
    decreases text.len(),
{
    if text.len() == 0 {
        Seq::empty()
    } else {
        let cut = last_cut(text, text.len() - 1);
        if 0 <= cut < text.len() {
            span_terms(text.take(cut)).push(text.skip(cut))
        } else {
            seq![text]
        }
    }
}

/// Name for what `humantime::parse_duration` makes of a text: the seconds
/// and the nanoseconds below a second of the duration it reads; or an
/// error, which is `true` where it found the text empty or blank and
/// `false` where it rejected it for any other reason.
pub uninterp spec fn parsed_duration(text: Seq<char>) -> Result<(u64, u32), bool>;

/// The text ends in the name of a unit.
pub open spec fn ends_in_unit(text: Seq<char>) -> bool {
    text.len() > 0 && is_unit_char(text.last())
}

/// The span that a reading of one term stands for. A duration counts only
/// if the term ends in a unit; a blank term counts as nothing; any other
/// reading makes the whole text unreadable.
pub open spec fn term_span(reading: Result<(u64, u32), bool>, with_unit: bool) -> Option<Span> {
    match reading {
        Ok((secs, nanos)) => if with_unit {
            Some(Span { secs, nanos })
        } else {
            None
        },
        Err(blank) => if blank {
            Some(Span { secs: 0, nanos: 0 })
        } else {
            None
        },
    }
}

/// The sum of two spans, or `None` where its seconds do not fit in `u64`.
pub open spec fn span_plus(left: Span, right: Span) -> Option<Span> {
    let total = left.total_nanos() + right.total_nanos();
    if total / 1_000_000_000 <= u64::MAX {
        Some(Span { secs: (total / 1_000_000_000) as u64, nanos: (total % 1_000_000_000) as u32 })
    } else {
        None
    }
}

/// What one more term adds to a running total; nothing is left once a
/// term was unreadable or the total ran out of range.
pub open spec fn with_term(total: Option<Span>, term: Option<Span>) -> Option<Span> {
    match (total, term) {
        (Some(total), Some(term)) => span_plus(total, term),
        _ => None,
    }
}

/// The sum of the spans that the terms are read as.
pub open spec fn summed(terms: Seq<Seq<char>>) -> Option<Span>
    decreases terms.len(),
{
    if terms.len() == 0 {
        Some(Span { secs: 0, nanos: 0 })
    } else {
        with_term(
            summed(terms.drop_last()),
            term_span(parsed_duration(terms.last()), ends_in_unit(terms.last())),
        )
    }
}

/// The span that a total stands for, if it is longer than nothing.
pub open spec fn positive_span(total: Option<Span>) -> Option<Span> {
    match total {
        Some(span) => if span.is_positive() {
            Some(span)
        } else {
            None
        },
        None => None,
    }
}

/// The span that `text` is accepted as, if it is accepted: every term
/// reads as a duration, and the sum fits and is longer than nothing.
pub open spec fn accepted_span(text: Seq<char>) -> Option<Span> {
    positive_span(summed(span_terms(text)))
}

/// The instant `span` before `now_millis`, in whole milliseconds since the
/// Unix epoch, rounded down; `None` where it lies before the earliest
/// instant an `i64` can hold, so that every timestamp comes after it.
pub open spec fn cutoff_of(now_millis: i64, span: Span) -> Option<i64> {
    let instant = now_millis - span.millis_ceil();
    if instant >= i64::MIN {
        Some(instant as i64)
    } else {
        None
    }
}

/// Content of the error for a span that is not accepted.
pub open spec fn invalid_since() -> crate::error::QueryErrorData {
    invalid_argument("Invalid since_time"@)
}

/// Where a term starts at `start` and none ends between there and `n`,
/// the last cut up to `n` is `start`.
pub proof fn lemma_last_cut(text: Seq<char>, n: int, start: int)
    requires
        0 <= start <= n < text.len(),
        start == 0 || is_cut(text, start),
        forall|j: int| start < j <= n ==> !is_cut(text, j),
    ensures
        last_cut(text, n) == start,
    decreases n,
{
    if n > start {
        lemma_last_cut(text, n - 1, start);
    }
}

/// The terms of the text up to `end` are the terms up to `start` and the
/// one from `start` to `end`, where a term starts at `start` and none ends
/// between the two.
pub proof fn lemma_terms_step(text: Seq<char>, start: int, end: int)
    requires
        0 <= start < end <= text.len(),
        start == 0 || is_cut(text, start),
        forall|j: int| start < j < end ==> !is_cut(text, j),
    ensures
        span_terms(text.take(end)) == span_terms(text.take(start)).push(
            text.subrange(start, end),
        ),
        is_single_term(text.subrange(start, end)),
{
    let head = text.take(end);
    assert forall|j: int| start < j <= end - 1 implies !is_cut(head, j) by {
        assert(head[j - 1] == text[j - 1] && head[j] == text[j]);
        assert(!is_cut(text, j));
    }
    if start > 0 {
        assert(head[start - 1] == text[start - 1] && head[start] == text[start]);
    }
    lemma_last_cut(head, end - 1, start);
    assert(head.take(start) =~= text.take(start));
    assert(head.skip(start) =~= text.subrange(start, end));
    let term = text.subrange(start, end);
    assert forall|j: int| 0 <= j < term.len() - 1 && is_unit_char(
        #[trigger] term[j],
    ) implies is_unit_char(term[j + 1]) by {
        assert(!is_cut(text, start + j + 1));
    }
}

/// Calls `humantime::parse_duration` on one term and hands back the
/// seconds and the sub-second nanoseconds of the duration it read, or which
/// of its errors it returned: `Empty`, or any other. Trusted: that the
/// answer depends on the text alone, and that the nanoseconds of a
/// duration stay below one second. The parser panics where the seconds of
/// several terms add up to `u64::MAX` and their nanoseconds to a full
/// second; within one term they cannot, so it is given one term at a time.
#[verifier::external_body]
fn read_term(term: &str) -> (reading: Result<(u64, u32), bool>)
    requires
        is_single_term(term@),
    ensures
        reading == parsed_duration(term@),
        reading matches Ok(duration) ==> duration.1 < 1_000_000_000,
{
    match humantime::parse_duration(term) {
        Ok(duration) => Ok((duration.as_secs(), duration.subsec_nanos())),
        Err(humantime::DurationError::Empty) => Err(true),
        Err(_) => Err(false),
    }
}

/// Tells whether `c` can stand in the name of a unit.
pub fn unit_char(c: char) -> (yes: bool)
    ensures
        yes == is_unit_char(c),
{
    ('a' <= c && c <= 'z') || ('A' <= c && c <= 'Z') || c == '\u{b5}'
}

/// The span that a reading of one term stands for.
pub fn span_of_term(reading: Result<(u64, u32), bool>, with_unit: bool) -> (span: Option<Span>)
    ensures
        span == term_span(reading, with_unit),
{
    match reading {
        Ok((secs, nanos)) => if with_unit {
            Some(Span { secs, nanos })
        } else {
            None
        },
        Err(blank) => if blank {
            Some(Span { secs: 0, nanos: 0 })
        } else {
            None
        },
    }
}

/// Adds one more term to a running total.
pub fn add_term(total: Option<Span>, term: Option<Span>) -> (sum: Option<Span>)
    ensures
        sum == with_term(total, term),
        sum matches Some(span) ==> span.wf(),
{
    match (total, term) {
        (Some(total), Some(term)) => {
            let nanos: u128 = (total.secs as u128) * 1_000_000_000 + (total.nanos as u128) + (
            term.secs as u128) * 1_000_000_000 + (term.nanos as u128);
            let secs: u128 = nanos / 1_000_000_000;
            if secs <= u64::MAX as u128 {
                Some(Span { secs: secs as u64, nanos: (nanos % 1_000_000_000) as u32 })
            } else {
                None
            }
        },
        _ => None,
    }
}

/// Reads the terms of a text one by one and adds them up.
pub fn sum_terms(text: &str) -> (total: Option<Span>)
    ensures
        total == summed(span_terms(text@)),
        total matches Some(span) ==> span.wf(),
{
    broadcast use vstd::string::group_string_axioms;

    let n = text.unicode_len();
    let mut total: Option<Span> = Some(Span { secs: 0, nanos: 0 });
    let mut start: usize = 0;
    let mut i: usize = 0;
    let mut after_unit = false;
    assert(text@.take(0) =~= Seq::empty());
    for c in it: text.chars()
        invariant
            it.seq() == text@,
            n == text@.len(),
            i == it.index(),
            start <= i <= n,
            start == 0 || is_cut(text@, start as int),
            i > 0 ==> start < i,
            forall|j: int| start < j < i ==> !is_cut(text@, j),
            after_unit == (i > 0 && is_unit_char(text@[i - 1])),
            total == summed(span_terms(text@.take(start as int))),
            total matches Some(span) ==> span.wf(),
    {
        assert(i < n);
        let unit = unit_char(c);
        if after_unit && !unit {
            proof {
                lemma_terms_step(text@, start as int, i as int);
                assert(span_terms(text@.take(i as int)).drop_last() =~= span_terms(
                    text@.take(start as int),
                ));
            }
            let term = text.substring_char(start, i);
            total = add_term(total, span_of_term(read_term(term), true));
            start = i;
        }
        after_unit = unit;
        i = i + 1;
    }
    assert(i == n);
    if start < n {
        proof {
            lemma_terms_step(text@, start as int, n as int);
            assert(text@.take(n as int) =~= text@);
            assert(span_terms(text@).drop_last() =~= span_terms(text@.take(start as int)));
        }
        let term = text.substring_char(start, n);
        total = add_term(total, span_of_term(read_term(term), after_unit));
    } else {
        assert(text@.take(start as int) =~= text@);
    }
    total
}

/// Turns a total into a span, or into the error for a total that is
/// absent or not longer than nothing.
pub fn checked_span(total: Option<Span>) -> (result: Result<Span, QueryError>)
    ensures
        match positive_span(total) {
            Some(span) => result == Ok::<Span, QueryError>(span),
            None => result matches Err(error) && error@ == invalid_since(),
        },
{
    match total {
        Some(span) => {
            if span.secs > 0 || span.nanos > 0 {
                Ok(span)
            } else {
                Err(QueryError::invalid("Invalid since_time"))
            }
        },
        None => Err(QueryError::invalid("Invalid since_time")),
    }
}

/// Reads a relative span such as `2h30m`. The text is accepted if each of
/// its terms reads as a duration and their sum fits and is longer than
/// nothing; anything else is an `InvalidArgument`.
pub fn parse_since(text: &str) -> (result: Result<Span, QueryError>)
    ensures
        match accepted_span(text@) {
            Some(span) => result == Ok::<Span, QueryError>(span),
            None => result matches Err(error) && error@ == invalid_since(),
        },
        result matches Ok(span) ==> span.wf() && span.is_positive(),
{
    checked_span(sum_terms(text))
}

/// Steps back from `now_millis` by `span`. A record is inside the window
/// exactly if its timestamp is greater than the result; with `None` for a
/// result every record is.
pub fn cutoff(now_millis: i64, span: Span) -> (instant: Option<i64>)
    ensures
        instant == cutoff_of(now_millis, span),
{
    let whole: i128 = (span.secs as i128) * 1000;
    let part: i128 = ((span.nanos as i128) + 999_999) / 1_000_000;
    let instant: i128 = (now_millis as i128) - whole - part;
    if instant >= i64::MIN as i128 {
        Some(instant as i64)
    } else {
        None
    }
}

} // verus!
