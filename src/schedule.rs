use crate::error::{join_text, AppError, AppResult};
use job_scheduler_ng::Schedule;
use vstd::prelude::*;

verus! {

#[verifier::external_type_specification]
#[verifier::external_body]
pub struct ExTranslationError(english_to_cron::Error);

#[verifier::external_type_specification]
#[verifier::external_body]
pub struct ExSchedule(Schedule);

/// The cron expression that a schedule phrase translates to, if it translates.
pub uninterp spec fn cron_translation(phrase: Seq<char>) -> Option<Seq<char>>;

/// Whether the schedule engine accepts a cron expression.
pub uninterp spec fn engine_accepts(expression: Seq<char>) -> bool;

/// Relies on english_to_cron::str_cron_syntax: the translation of a phrase (or of
/// a cron expression) into cron syntax, which depends on the text alone.
#[verifier::external_body]
fn translate(phrase: &str) -> (r: Result<String, english_to_cron::Error>)
    ensures
        match r {
            Ok(c) => cron_translation(phrase@) == Some(c@),
            Err(_) => cron_translation(phrase@) is None,
        },
{
    english_to_cron::str_cron_syntax(phrase)
}

/// Relies on the `FromStr` impl of cron's Schedule (re-exported by
/// job_scheduler_ng): whether the expression parses depends on the text alone.
#[verifier::external_body]
pub(crate) fn parse_schedule(expression: &str) -> (r: Result<Schedule, String>)
    ensures
        r is Ok <==> engine_accepts(expression@),
{
    match expression.parse::<Schedule>() {
        Ok(s) => Ok(s),
        Err(e) => Err(e.to_string()),
    }
}

/// A character that separates the fields of a cron expression.
pub open spec fn is_blank(c: char) -> bool {
    c == ' ' || c == '\t'
}

/// The number of fields (maximal runs of non-blank characters) that start
/// among the first `n` characters of `s`.
pub open spec fn fields_in(s: Seq<char>, n: nat) -> nat
    decreases n,
{
    if n == 0 || n > s.len() {
        0
    } else {
        let starts = !is_blank(s[n - 1]) && (n == 1 || is_blank(s[n - 2]));
        fields_in(s, (n - 1) as nat) + if starts {
            1nat
        } else {
            0nat
        }
    }
}

/// The number of fields of `s`.
pub open spec fn field_count(s: Seq<char>) -> nat {
    fields_in(s, s.len())
}

/// A five-field cron expression (minute first) with a seconds field of zero
/// put in front; any other text as it is.
pub open spec fn with_seconds(s: Seq<char>) -> Seq<char> {
    if field_count(s) == 5 {
        "0 "@ + s
    } else {
        s
    }
}

/// The cron expression a schedule source stands for: the source itself (with
/// a seconds field when it has five fields) when the engine reads it, else the
/// translation of the source as a phrase.
pub open spec fn cron_of(source: Seq<char>) -> Option<Seq<char>> {
    if engine_accepts(with_seconds(source)) {
        Some(with_seconds(source))
    } else {
        cron_translation(source)
    }
}

/// A cron source that the engine can run.
pub open spec fn runnable(source: Seq<char>) -> bool {
    cron_of(source) is Some && engine_accepts(cron_of(source)->0)
}

/// The failure text for a schedule that cannot be read; it quotes the source.
pub open spec fn unreadable_text(source: Seq<char>) -> Seq<char> {
    "Cannot read the schedule \""@ + source + "\""@
}

/// Counts the fields of a text.
pub fn field_count_of(s: &str) -> (r: usize)
    ensures
        r == field_count(s@),
{
    let len = s.unicode_len();
    let mut count: usize = 0;
    let mut i: usize = 0;
    while i < len
        invariant
            i <= len,
            len == s@.len(),
            count == fields_in(s@, i as nat),
            count <= i,
        decreases len - i,
    {
        let c = s.get_char(i);
        let starts = !(c == ' ' || c == '\t') && (i == 0 || {
            let p = s.get_char(i - 1);
            p == ' ' || p == '\t'
        });
        if starts {
            count = count + 1;
        }
        i = i + 1;
    }
    count
}

/// The normalized cron expression for a schedule source: a cron expression
/// that the engine reads is kept (five fields gain a leading seconds field of
/// zero); anything else is translated as a phrase. A source that is neither is
/// a validation failure that quotes it.
pub fn to_cron_expression(phrase: &str) -> (r: AppResult<String>)
    ensures
        cron_of(phrase@) is Some <==> r is Ok,
        r is Ok ==> cron_of(phrase@) == Some(r->Ok_0@),
        r is Err ==> (r matches Err(AppError::Validation(m)) && m@ == unreadable_text(phrase@)),
{
    let candidate = if field_count_of(phrase) == 5 {
        join_text("0 ", phrase)
    } else {
        String::from_str(phrase)
    };
    proof {
        reveal_strlit("0 ");
    }
    assert(candidate@ == with_seconds(phrase@));
    if parse_schedule(candidate.as_str()).is_ok() {
        return Ok(candidate);
    }
    match translate(phrase) {
        Ok(c) => Ok(c),
        Err(_) => {
            let quoted = join_text("Cannot read the schedule \"", phrase);
            Err(AppError::Validation(join_text(quoted.as_str(), "\"")))
        },
    }
}

} // verus!
