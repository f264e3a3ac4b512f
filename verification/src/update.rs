//! Self-update: when to look for a new release, and how to read cargo's
//! answer.
use vstd::prelude::*;

use crate::plan::GitOutput;
use crate::text::{
    contains, decimal, law_decimal_round_trip, parse_u64, parse_unsigned, push_decimal, str_contains,
    to_chars, trim, trim_end, trim_start, trim_string,
};

verus! {

/// How long an update check stays fresh: three days, in seconds.
pub const UPDATE_CHECK_INTERVAL_SECS: u64 = 3 * 24 * 60 * 60;

/// The time of the last check as recorded, if the record holds a number.
pub open spec fn recorded_check(contents: Seq<char>) -> Option<nat> {
    match parse_unsigned(trim(contents)) {
        Some(n) => if n <= u64::MAX {
            Some(n)
        } else {
            None
        },
        None => None,
    }
}

/// Whether to look for an update: unless the last check is known and less
/// than the interval ago (a clock behind the record counts as no time).
pub open spec fn update_check_due_spec(contents: Option<Seq<char>>, now: Option<u64>) -> bool {
    match (contents, now) {
        (Some(c), Some(n)) => match recorded_check(c) {
            Some(t) => (if n >= t {
                n - t
            } else {
                0
            }) >= UPDATE_CHECK_INTERVAL_SECS,
            None => true,
        },
        _ => true,
    }
}

pub fn update_check_due(contents: Option<&str>, now_secs: Option<u64>) -> (r: bool)
    ensures
        r == update_check_due_spec(
            match contents {
                Some(c) => Some(c@),
                None => None,
            },
            now_secs,
        ),
{
    match (contents, now_secs) {
        (Some(c), Some(now)) => {
            let t = to_chars(trim_string(c).as_str());
            match parse_u64(&t) {
                Some(last) => now.saturating_sub(last) >= UPDATE_CHECK_INTERVAL_SECS,
                None => true,
            }
        },
        _ => true,
    }
}

/// Whether `cargo install supgit --dry-run` says there is something to
/// install: it succeeded and its output (stdout then stderr) mentions it.
pub open spec fn update_available_spec(success: bool, stdout: Seq<char>, stderr: Seq<char>) -> bool {
    success && (contains(stdout + stderr, "Installing supgit"@) || contains(
        stdout + stderr,
        "Would install"@,
    ))
}

pub fn update_available(output: &GitOutput) -> (r: bool)
    ensures
        r == update_available_spec(output.success, output.stdout@, output.stderr@),
{
    if !output.success {
        return false;
    }
    let combined = crate::text::copy_string(&output.stdout).concat(output.stderr.as_str());
    str_contains(combined.as_str(), "Installing supgit") || str_contains(
        combined.as_str(),
        "Would install",
    )
}

/// What is written down after a check: the time, in seconds, in decimal.
pub fn update_check_record(now_secs: u64) -> (r: String)
    ensures
        r@ == decimal(now_secs as nat),
{
    let mut s = String::new();
    push_decimal(&mut s, now_secs);
    assert(s@ =~= decimal(now_secs as nat));
    s
}

proof fn lemma_decimal_untrimmed(n: nat)
    ensures
        trim(decimal(n)) == decimal(n),
{
    let d = decimal(n);
    lemma_decimal_ends(n);
    assert(trim_start(d) == d);
    assert(trim_end(d) == d);
}

proof fn lemma_decimal_ends(n: nat)
    ensures
        decimal(n).len() > 0,
        !crate::text::is_whitespace(decimal(n)[0]),
        !crate::text::is_whitespace(decimal(n).last()),
    decreases n,
{
    if n >= 10 {
        lemma_decimal_ends(n / 10);
        assert(decimal(n)[0] == decimal(n / 10)[0]);
    }
}

/// A check recorded at time `t` keeps the next one away for exactly the
/// interval: at time `now` another is due if and only if at least
/// `UPDATE_CHECK_INTERVAL_SECS` seconds have passed (none, for a clock
/// behind the record).
pub proof fn law_recorded_check_is_fresh(t: u64, now: u64)
    ensures
        update_check_due_spec(Some(decimal(t as nat)), Some(now)) == (now >= t && now - t
            >= UPDATE_CHECK_INTERVAL_SECS),
{
    lemma_decimal_untrimmed(t as nat);
    law_decimal_round_trip(t as nat);
}

/// With no record, or no clock, a check is always due.
pub proof fn law_unrecorded_check_is_due(contents: Option<Seq<char>>, now: Option<u64>)
    ensures
        (contents is None || now is None) ==> update_check_due_spec(contents, now),
{
}

} // verus!
