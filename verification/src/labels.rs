//! The lines of text that the monitor shows.
use crate::text::{decimal, decimal_text, digit, signed_decimal, signed_decimal_text};
use vstd::prelude::*;
use vstd::string::StringExecFns;

verus! {

/// A number below one hundred in two digits.
pub open spec fn two_digits(n: int) -> Seq<char> {
    seq![digit(n / 10), digit(n % 10)]
}

/// A time of day as `HH:MM:SS`.
pub open spec fn clock(hour: int, minute: int, second: int) -> Seq<char> {
    two_digits(hour) + seq![':'] + two_digits(minute) + seq![':'] + two_digits(second)
}

/// A time of day as `HH:MM:SS`, written by `chrono::NaiveTime::format` for the time that
/// `chrono::NaiveTime::from_hms_opt` makes. Hour, minute and second come out in two digits each.
#[verifier::external_body]
fn clock_text(hour: u32, minute: u32, second: u32) -> (r: String)
    requires
        hour < 24,
        minute < 60,
        second < 60,
    ensures
        r@ == clock(hour as int, minute as int, second as int),
{
    chrono::NaiveTime::from_hms_opt(hour, minute, second).unwrap().format("%H:%M:%S").to_string()
}

/// A chat message with its sender and the time of day.
pub open spec fn chat(clock: Seq<char>, user: Seq<char>, content: Seq<char>) -> Seq<char> {
    "["@ + clock + "] ["@ + user + "] "@ + content
}

/// A chat message with its sender and the time of day.
pub fn chat_line(hour: u32, minute: u32, second: u32, user: &str, content: &str) -> (r: String)
    requires
        hour < 24,
        minute < 60,
        second < 60,
    ensures
        r@ == chat(clock(hour as int, minute as int, second as int), user@, content@),
{
    let mut line: String = "[".to_owned();
    line.append(clock_text(hour, minute, second).as_str());
    line.append("] [");
    line.append(user);
    line.append("] ");
    line.append(content);
    line
}

/// The selected chart.
pub open spec fn chart_title(id: i32, name: Seq<char>) -> Seq<char> {
    name + " (#"@ + signed_decimal(id as int) + ")"@
}

/// The selected chart.
pub fn chart_label(id: i32, name: &str) -> (r: String)
    ensures
        r@ == chart_title(id, name@),
{
    let mut label: String = name.to_owned();
    label.append(" (#");
    label.append(signed_decimal_text(id).as_str());
    label.append(")");
    label
}

/// A result of the last round; `percent` is the accuracy as text.
pub open spec fn result(score: u32, percent: Seq<char>, full_combo: bool) -> Seq<char> {
    decimal(score as nat) + " ("@ + percent + "%)"@ + if full_combo {
        " 全连"@
    } else {
        Seq::empty()
    }
}

/// A result of the last round; `percent` is the accuracy as text.
pub fn score_label(score: u32, percent: &str, full_combo: bool) -> (r: String)
    ensures
        r@ == result(score, percent@, full_combo),
{
    let mut label: String = decimal_text(score);
    label.append(" (");
    label.append(percent);
    label.append("%)");
    if full_combo {
        label.append(" 全连");
    } else {
        assert(label@ + Seq::<char>::empty() =~= label@);
    }
    label
}

/// Whether a player is ready.
pub open spec fn status(name: Seq<char>, has_started: bool) -> Seq<char> {
    name + ": "@ + if has_started {
        "就绪"@
    } else {
        "等待中…"@
    }
}

/// Whether a player is ready.
pub fn status_label(name: &str, has_started: bool) -> (r: String)
    ensures
        r@ == status(name@, has_started),
{
    let mut label: String = name.to_owned();
    label.append(": ");
    label.append(
        if has_started {
            "就绪"
        } else {
            "等待中…"
        },
    );
    label
}

} // verus!
