//! Cron expressions: how many fields one has, the six-field form that a
//! submitted expression is taken in, and when it fires next.

use vstd::prelude::*;
use std::str::FromStr;
use chrono::DateTime;
use cron::Schedule;
use crate::instant::Timestamp;
use crate::instant::opt_instant;
use crate::instant::opt_text;

verus! {

/// White space as Unicode defines it (the property `White_Space`).
pub open spec fn is_space(c: char) -> bool {
    let n = c as u32;
    ||| 0x09 <= n <= 0x0D
    ||| n == 0x20
    ||| n == 0x85
    ||| n == 0xA0
    ||| n == 0x1680
    ||| 0x2000 <= n <= 0x200A
    ||| n == 0x2028
    ||| n == 0x2029
    ||| n == 0x202F
    ||| n == 0x205F
    ||| n == 0x3000
}

/// The number of fields in a text: its maximal runs of characters that are
/// not white space. `after_space` tells whether the text follows white space
/// or the start, so that its first character opens a field.
pub open spec fn count_fields(text: Seq<char>, after_space: bool) -> nat
    decreases text.len(),
{
    if text.len() == 0 {
        0
    } else {
        let opens: nat = if after_space && !is_space(text[0]) { 1 } else { 0 };
        opens + count_fields(text.drop_first(), is_space(text[0]))
    }
}

/// The number of white-space-separated fields in a text.
pub open spec fn field_count(text: Seq<char>) -> nat {
    count_fields(text, true)
}

/// Whether a character is white space as Unicode defines it.
pub fn char_is_space(c: char) -> (b: bool)
    ensures
        b == is_space(c),
{
    let n: u32 = c as u32;
    (0x09 <= n && n <= 0x0D) || n == 0x20 || n == 0x85 || n == 0xA0 || n == 0x1680 || (0x2000 <= n
        && n <= 0x200A) || n == 0x2028 || n == 0x2029 || n == 0x202F || n == 0x205F || n == 0x3000
}

/// The number of white-space-separated fields in a text.
pub fn count_expression_fields(text: &str) -> (n: usize)
    ensures
        n == field_count(text@),
{
    let len = text.unicode_len();
    let mut n: usize = 0;
    let mut after_space = true;
    assert(text@.subrange(0, len as int) =~= text@);
    for c in it: text.chars()
        invariant
            len == text@.len(),
            it.seq() == text@,
            n <= it.index(),
            n + count_fields(text@.subrange(it.index(), len as int), after_space) == field_count(
                text@,
            ),
    {
        let space = char_is_space(c);
        proof {
            let rest = text@.subrange(it.index(), len as int);
            assert(rest[0] == c);
            assert(rest.drop_first() =~= text@.subrange(it.index() + 1, len as int));
        }
        if after_space && !space {
            n += 1;
        }
        after_space = space;
    }
    assert(text@.subrange(len as int, len as int).len() == 0);
    n
}

/// Whether the cron parser accepts an expression: whether
/// `cron::Schedule::from_str` returns a schedule for it.
pub uninterp spec fn cron_accepts(expr: Seq<char>) -> bool;

/// The first firing of a cron expression after the instant `secs` seconds
/// and `nanos` nanoseconds past the epoch, in UTC: the first item of
/// `cron::Schedule::after`. `None` where the expression is refused, the
/// instant is none that chrono holds, or the schedule never fires again.
pub uninterp spec fn cron_next_firing(expr: Seq<char>, secs: i64, nanos: u32) -> Option<(i64, u32)>;

/// Calls `cron::Schedule::from_str`. Claimed: whether it succeeds is a
/// function of the expression alone, named [`cron_accepts`].
#[verifier::external_body]
pub(crate) fn cron_parses(expr: &str) -> (ok: bool)
    ensures
        ok == cron_accepts(expr@),
{
    Schedule::from_str(expr).is_ok()
}

/// Parses the expression, then calls `cron::Schedule::after` on the instant
/// and takes the iterator's first item. Claimed: the outcome is a function
/// of the expression and the instant alone, named [`cron_next_firing`].
/// The instant must be civil: the search starts one second later, which
/// chrono cannot add at the end of its range.
#[verifier::external_body]
pub(crate) fn cron_first_after(expr: &str, after: Timestamp) -> (r: Option<Timestamp>)
    requires
        after.is_civil(),
    ensures
        r == opt_instant(cron_next_firing(expr@, after.secs, after.nanos)),
{
    let schedule = Schedule::from_str(expr).ok()?;
    let start = DateTime::from_timestamp(after.secs, after.nanos)?;
    let next = schedule.after(&start).next()?;
    Some(Timestamp { secs: next.timestamp(), nanos: next.timestamp_subsec_nanos() })
}

/// The text `"0 "` in front of an expression: a seconds field of zero.
pub open spec fn with_zero_seconds(expr: Seq<char>) -> Seq<char> {
    "0 "@ + expr
}

/// The six-field form in which a submitted expression is taken. One of
/// exactly five fields is taken with a seconds field of zero in front, if
/// the parser accepts it so; any other is taken as it stands, if the parser
/// accepts it. `None`: the expression makes no schedule.
pub open spec fn normalized(expr: Seq<char>) -> Option<Seq<char>> {
    if field_count(expr) == 5 && cron_accepts(with_zero_seconds(expr)) {
        Some(with_zero_seconds(expr))
    } else if cron_accepts(expr) {
        Some(expr)
    } else {
        None
    }
}

/// The next firing of an expression after `now`; `None` for an instant
/// outside the civil range.
pub open spec fn next_run(expr: Seq<char>, now: Timestamp) -> Option<Timestamp> {
    if now.is_civil() {
        opt_instant(cron_next_firing(expr, now.secs, now.nanos))
    } else {
        None
    }
}

/// Decides, for the parser's two verdicts, in which form an expression of
/// `fields` fields is taken: `Some(true)` with a seconds field of zero in
/// front, `Some(false)` as it stands, `None` not at all.
pub fn choose_form(fields: usize, plain_ok: bool, prefixed_ok: bool) -> (r: Option<bool>)
    ensures
        r == (if fields == 5 && prefixed_ok {
            Some(true)
        } else if plain_ok {
            Some(false)
        } else {
            None
        }),
{
    if fields == 5 && prefixed_ok {
        Some(true)
    } else if plain_ok {
        Some(false)
    } else {
        None
    }
}

/// The six-field form in which a submitted expression is taken, if it makes
/// a schedule.
pub fn normalize(expr: &str) -> (r: Option<String>)
    ensures
        opt_text(r) == normalized(expr@),
{
    let prefixed = "0 ".to_owned().concat(expr);
    let fields = count_expression_fields(expr);
    let plain_ok = cron_parses(expr);
    let prefixed_ok = cron_parses(prefixed.as_str());
    match choose_form(fields, plain_ok, prefixed_ok) {
        Some(true) => Some(prefixed),
        Some(false) => Some(expr.to_owned()),
        None => None,
    }
}

/// The next firing of an expression after `now`.
pub fn next_run_after(expr: &str, now: Timestamp) -> (r: Option<Timestamp>)
    ensures
        r == next_run(expr@, now),
{
    if now.check_civil() {
        cron_first_after(expr, now)
    } else {
        None
    }
}

} // verus!
