//! Console output: how a payload is written, the timestamp in front of a
//! line, and the line itself.

use crate::text::{decimal, decimal_string, digit_char, digit_str, opt_str_view, opt_string_view};
use std::time::{SystemTime, UNIX_EPOCH};
use vstd::prelude::*;
use vstd::string::*;

verus! {

/// The last three decimal digits of `n`, zeros included.
pub open spec fn three_digits(n: nat) -> Seq<char> {
    seq![
        digit_char((n / 100 % 10) as int),
        digit_char((n / 10 % 10) as int),
        digit_char((n % 10) as int),
    ]
}

/// A time given in milliseconds, written as seconds, a point, and the
/// milliseconds in three digits.
pub open spec fn timestamp_text(millis: nat) -> Seq<char> {
    decimal(millis / 1000) + seq!['.'] + three_digits(millis % 1000)
}

/// The indented form of the JSON text `text`, as `serde_json` writes it:
/// what `to_string_pretty` gives for the value that `from_str` reads from
/// `text`. There is none where `text` is no JSON.
pub uninterp spec fn pretty_json(text: Seq<char>) -> Option<Seq<char>>;

/// What is written for a payload whose compact JSON text is `compact`: the
/// indented form where that is asked for and can be had, else the compact
/// text itself.
pub open spec fn rendering(compact: Seq<char>, pretty: bool, indented: Option<Seq<char>>) -> Seq<
    char,
> {
    if pretty {
        match indented {
            Some(text) => text,
            None => compact,
        }
    } else {
        compact
    }
}

/// A line of output: the text, behind the timestamp in brackets where one
/// is given.
pub open spec fn line_text(timestamp: Option<Seq<char>>, text: Seq<char>) -> Seq<char> {
    match timestamp {
        Some(t) => seq!['['] + t + seq![']', ' '] + text,
        None => text,
    }
}

/// Reads the clock: `SystemTime::now`, as milliseconds since the Unix
/// epoch. Nothing is known of the number, and there is none where the clock
/// stands before the epoch.
#[verifier::external_body]
fn unix_millis() -> Option<u128> {
    match SystemTime::now().duration_since(UNIX_EPOCH) {
        Ok(since) => Some(since.as_millis()),
        Err(_) => None,
    }
}

/// Reads `text` with `serde_json::from_str` and writes the value again with
/// `serde_json::to_string_pretty`. An error of either call gives nothing.
#[verifier::external_body]
fn pretty_print(text: &str) -> (out: Option<String>)
    ensures
        opt_string_view(out) == pretty_json(text@),
{
    match serde_json::from_str::<serde_json::Value>(text) {
        Ok(value) => serde_json::to_string_pretty(&value).ok(),
        Err(_) => None,
    }
}

/// Picks what is written for a payload, given its compact text and, where
/// it was made, its indented form.
pub fn choose_rendering(compact: &str, pretty: bool, indented: Option<String>) -> (text: String)
    ensures
        text@ == rendering(compact@, pretty, opt_string_view(indented)),
{
    if pretty {
        match indented {
            Some(text) => text,
            None => String::from_str(compact),
        }
    } else {
        String::from_str(compact)
    }
}

/// Formats a payload, given as compact JSON text, for the console: indented
/// if `pretty` is set and the text can be indented, else as it is.
pub fn format_payload(payload: &str, pretty: bool) -> (text: String)
    ensures
        text@ == rendering(payload@, pretty, pretty_json(payload@)),
{
    if pretty {
        choose_rendering(payload, pretty, pretty_print(payload))
    } else {
        choose_rendering(payload, pretty, None)
    }
}

/// Writes a time given in milliseconds as `seconds.milliseconds`, the
/// milliseconds in three digits.
pub fn format_millis(millis: u128) -> (text: String)
    ensures
        text@ == timestamp_text(millis as nat),
{
    let secs: u128 = millis / 1000;
    let ms: u128 = millis % 1000;
    let mut text = decimal_string(secs);
    proof {
        reveal_strlit(".");
    }
    text.append(".");
    text.append(digit_str((ms / 100 % 10) as u8));
    text.append(digit_str((ms / 10 % 10) as u8));
    text.append(digit_str((ms % 10) as u8));
    assert(text@ =~= timestamp_text(millis as nat));
    text
}

/// Formats the current time. The clock decides which time that is; the text
/// is that of some number of milliseconds, and of zero where the clock gives
/// none.
pub fn format_timestamp() -> (text: String)
    ensures
        exists|millis: nat| text@ == timestamp_text(millis),
{
    let now: u128 = match unix_millis() {
        Some(millis) => millis,
        None => 0,
    };
    format_millis(now)
}

/// Puts a line of output together: the text alone, or behind `[timestamp] `.
pub fn format_line(timestamp: Option<&str>, text: &str) -> (line: String)
    ensures
        line@ == line_text(opt_str_view(timestamp), text@),
{
    match timestamp {
        Some(t) => {
            proof {
                reveal_strlit("[");
                reveal_strlit("] ");
            }
            let mut line = String::from_str("[");
            line.append(t);
            line.append("] ");
            line.append(text);
            assert(line@ =~= line_text(Some(t@), text@));
            line
        },
        None => String::from_str(text),
    }
}

} // verus!
