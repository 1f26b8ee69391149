//! Spans of time, and the forms in which people read and write them.
use vstd::prelude::*;

use crate::text::{characters, outcome, same_text, text_of};

verus! {

/// Nanoseconds in a second.
pub const NANOS_PER_SEC: u32 = 1_000_000_000;

/// A span of time: whole seconds and the nanoseconds beyond them.
#[derive(Debug, Clone, Copy, PartialEq, Eq, Structural)]
pub struct Span {
    pub secs: u64,
    pub nanos: u32,
}

impl Span {
    /// A span in nanoseconds.
    pub open spec fn total(self) -> int {
        self.secs * 1_000_000_000 + self.nanos
    }

    /// The nanoseconds are less than one second.
    pub open spec fn normal(self) -> bool {
        self.nanos < NANOS_PER_SEC
    }

    /// A span in whole milliseconds, at most what 64 bits hold.
    pub open spec fn millis(self) -> u64 {
        let millis = self.total() / 1_000_000;
        if millis > u64::MAX {
            u64::MAX
        } else {
            millis as u64
        }
    }

    /// A span of whole seconds.
    pub fn from_secs(secs: u64) -> (span: Span)
        ensures
            span == (Span { secs, nanos: 0 }),
    {
        Span { secs, nanos: 0 }
    }

    /// A span of whole milliseconds.
    pub fn from_millis(millis: u64) -> (span: Span)
        ensures
            span.normal(),
            span.total() == millis * 1_000_000,
    {
        Span { secs: millis / 1000, nanos: (millis % 1000) as u32 * 1_000_000 }
    }

    /// This span in nanoseconds.
    pub fn nanoseconds(&self) -> (nanos: u128)
        ensures
            nanos == self.total(),
    {
        self.secs as u128 * 1_000_000_000 + self.nanos as u128
    }
}

/// A span in whole milliseconds, at most what 64 bits hold.
pub fn duration_ms(span: Span) -> (millis: u64)
    ensures
        millis == span.millis(),
{
    let millis: u128 = span.nanoseconds() / 1_000_000;
    if millis > u64::MAX as u128 {
        u64::MAX
    } else {
        millis as u64
    }
}

/// What `humantime::format_duration` writes for a span.
pub uninterp spec fn human_duration(secs: u64, nanos: u32) -> Seq<char>;

/// What is written for a span of whole milliseconds.
pub open spec fn human_millis(millis: u64) -> Seq<char> {
    human_duration((millis / 1000) as u64, ((millis % 1000) * 1_000_000) as u32)
}

/// `humantime::format_duration`: the text of a span, a function of the span alone. Its nanoseconds
/// are kept below one second, so that no carry can overflow.
#[verifier::external_body]
pub(crate) fn format_duration(secs: u64, nanos: u32) -> (text: String)
    requires
        nanos < NANOS_PER_SEC,
    ensures
        text@ == human_duration(secs, nanos),
{
    humantime::format_duration(std::time::Duration::new(secs, nanos)).to_string()
}

/// Writes a span of whole milliseconds.
pub(crate) fn format_millis(millis: u64) -> (text: String)
    ensures
        text@ == human_millis(millis),
{
    format_duration(millis / 1000, (millis % 1000) as u32 * 1_000_000)
}

/// What `humantime::parse_duration` makes of a text: seconds and nanoseconds, or the words of its
/// error.
pub uninterp spec fn parsed_duration(text: Seq<char>) -> Result<(u64, u32), Seq<char>>;

/// The span that parsed parts denote.
pub open spec fn span_of_parts(result: Result<(u64, u32), Seq<char>>) -> Result<Span, Seq<char>> {
    match result {
        Ok(parts) => Ok(Span { secs: parts.0, nanos: parts.1 }),
        Err(error) => Err(error),
    }
}

/// Whether a character may stand in the name of a unit.
pub open spec fn is_unit_char(character: char) -> bool {
    ||| 'a' <= character <= 'z'
    ||| 'A' <= character <= 'Z'
    ||| character == '\u{b5}'
}

/// The length of the name of a unit at the front of a text.
pub open spec fn unit_length(text: Seq<char>) -> nat
    decreases text.len(),
{
    if text.len() > 0 && is_unit_char(text[0]) {
        1 + unit_length(text.skip(1))
    } else {
        0
    }
}

/// The name of a unit is no longer than the text that it starts.
pub proof fn lemma_unit_length(text: Seq<char>)
    ensures
        unit_length(text) <= text.len(),
    decreases text.len(),
{
    if text.len() > 0 && is_unit_char(text[0]) {
        lemma_unit_length(text.skip(1));
    }
}

/// The nanoseconds of a unit, by its name.
pub open spec fn unit_nanos(name: Seq<char>) -> Option<u64> {
    if name == "nanos"@ || name == "nsec"@ || name == "ns"@ {
        Some(1)
    } else if name == "usec"@ || name == "us"@ || name == "\u{b5}s"@ {
        Some(1_000)
    } else if name == "millis"@ || name == "msec"@ || name == "ms"@ {
        Some(1_000_000)
    } else if name == "seconds"@ || name == "second"@ || name == "secs"@ || name == "sec"@ || name
        == "s"@ {
        Some(1_000_000_000)
    } else if name == "minutes"@ || name == "minute"@ || name == "min"@ || name == "mins"@ || name
        == "m"@ {
        Some(60_000_000_000)
    } else if name == "hours"@ || name == "hour"@ || name == "hr"@ || name == "hrs"@ || name
        == "h"@ {
        Some(3_600_000_000_000)
    } else if name == "days"@ || name == "day"@ || name == "d"@ {
        Some(86_400_000_000_000)
    } else if name == "weeks"@ || name == "week"@ || name == "wk"@ || name == "wks"@ || name
        == "w"@ {
        Some(604_800_000_000_000)
    } else if name == "months"@ || name == "month"@ || name == "M"@ {
        Some(2_630_016_000_000_000)
    } else if name == "years"@ || name == "year"@ || name == "yr"@ || name == "yrs"@ || name
        == "y"@ {
        Some(31_557_600_000_000_000)
    } else {
        None
    }
}

/// The nanoseconds that no span reaches: one second more than the greatest number of seconds.
pub const NANOS_LIMIT: u128 = 18_446_744_073_709_551_616_000_000_000;

/// Whether the spans in the rest of a text cannot add up to exactly [`NANOS_LIMIT`] nanoseconds.
/// `number` is what was read of the next number, `fraction` whether the point of a fraction was
/// met; `least` and `most` are the nanoseconds of the spans before, of whose fractions nothing is
/// taken into account but that each is less than one unit. What does not fit the form of a text of
/// spans, and a sum that is greater, end the reading.
pub open spec fn sum_fits(
    text: Seq<char>,
    number: Option<u64>,
    fraction: bool,
    least: nat,
    most: nat,
) -> bool
    decreases text.len(),
{
    if text.len() == 0 {
        true
    } else if is_unit_char(text[0]) {
        match (number, unit_nanos(text.take(unit_length(text) as int))) {
            (Some(number), Some(unit)) => {
                let least = least + number as nat * unit as nat;
                let most = most + number as nat * unit as nat + (if fraction {
                    (unit - 1) as nat
                } else {
                    0
                });
                if least > NANOS_LIMIT || (least == NANOS_LIMIT && unit >= NANOS_PER_SEC
                    && !fraction) {
                    true
                } else {
                    proof {
                        lemma_unit_length(text);
                    }
                    most < NANOS_LIMIT && sum_fits(
                        text.skip(unit_length(text) as int),
                        None,
                        false,
                        least,
                        most,
                    )
                }
            },
            _ => true,
        }
    } else if '0' <= text[0] <= '9' && !fraction {
        let next = (match number {
            Some(number) => number as nat,
            None => 0,
        }) * 10 + (text[0] as nat - 48) as nat;
        next > u64::MAX || sum_fits(text.skip(1), Some(next as u64), false, least, most)
    } else if text[0] == '.' {
        number is None || sum_fits(text.skip(1), number, true, least, most)
    } else {
        sum_fits(text.skip(1), number, fraction, least, most)
    }
}

/// The texts whose spans cannot add up to exactly [`NANOS_LIMIT`] nanoseconds on the way.
pub open spec fn duration_text_fits(text: Seq<char>) -> bool {
    sum_fits(text, None, false, 0, 0)
}

fn in_unit(character: char) -> (result: bool)
    ensures
        result == is_unit_char(character),
{
    ('a' <= character && character <= 'z') || ('A' <= character && character <= 'Z') || character
        == '\u{b5}'
}

fn nanos_of_unit(name: &str) -> (nanos: Option<u64>)
    ensures
        nanos == unit_nanos(name@),
{
    if same_text(name, "nanos") || same_text(name, "nsec") || same_text(name, "ns") {
        Some(1)
    } else if same_text(name, "usec") || same_text(name, "us") || same_text(name, "\u{b5}s") {
        Some(1_000)
    } else if same_text(name, "millis") || same_text(name, "msec") || same_text(name, "ms") {
        Some(1_000_000)
    } else if same_text(name, "seconds") || same_text(name, "second") || same_text(name, "secs")
        || same_text(name, "sec") || same_text(name, "s") {
        Some(1_000_000_000)
    } else if same_text(name, "minutes") || same_text(name, "minute") || same_text(name, "min")
        || same_text(name, "mins") || same_text(name, "m") {
        Some(60_000_000_000)
    } else if same_text(name, "hours") || same_text(name, "hour") || same_text(name, "hr")
        || same_text(name, "hrs") || same_text(name, "h") {
        Some(3_600_000_000_000)
    } else if same_text(name, "days") || same_text(name, "day") || same_text(name, "d") {
        Some(86_400_000_000_000)
    } else if same_text(name, "weeks") || same_text(name, "week") || same_text(name, "wk")
        || same_text(name, "wks") || same_text(name, "w") {
        Some(604_800_000_000_000)
    } else if same_text(name, "months") || same_text(name, "month") || same_text(name, "M") {
        Some(2_630_016_000_000_000)
    } else if same_text(name, "years") || same_text(name, "year") || same_text(name, "yr")
        || same_text(name, "yrs") || same_text(name, "y") {
        Some(31_557_600_000_000_000)
    } else {
        None
    }
}

fn unit_end(chars: &Vec<char>, start: usize) -> (end: usize)
    requires
        start <= chars@.len(),
    ensures
        start <= end <= chars@.len(),
        end - start == unit_length(chars@.skip(start as int)),
{
    let mut end: usize = start;
    while end < chars.len() && in_unit(chars[end])
        invariant
            start <= end <= chars@.len(),
            unit_length(chars@.skip(start as int)) == end - start + unit_length(
                chars@.skip(end as int),
            ),
        decreases chars@.len() - end,
    {
        assert(chars@.skip(end as int).skip(1) =~= chars@.skip(end + 1));
        end = end + 1;
    }
    end
}

/// Whether a text is one that [`parse_duration`] takes.
pub fn fits_duration(text: &str) -> (result: bool)
    ensures
        result == duration_text_fits(text@),
{
    let chars = characters(text);
    let length: usize = chars.len();
    let mut number: Option<u64> = None;
    let mut fraction = false;
    let mut least: u128 = 0;
    let mut most: u128 = 0;
    let mut index: usize = 0;
    assert(chars@.skip(0) =~= text@);
    while index < length
        invariant
            index <= length == chars@.len(),
            least <= most < NANOS_LIMIT,
            duration_text_fits(text@) == sum_fits(
                chars@.skip(index as int),
                number,
                fraction,
                least as nat,
                most as nat,
            ),
        decreases length - index,
    {
        let character = chars[index];
        let ghost rest = chars@.skip(index as int);
        assert(rest[0] == character);
        assert(rest.skip(1) =~= chars@.skip(index + 1));
        if in_unit(character) {
            let end = unit_end(&chars, index);
            let name = text_of(&chars, index, end);
            proof {
                assert(name@ =~= rest.take(end - index));
                assert(rest.skip(end - index) =~= chars@.skip(end as int));
                assert(end > index);
            }
            let (value, unit) = match (number, nanos_of_unit(name.as_str())) {
                (Some(value), Some(unit)) => (value, unit),
                _ => return true,
            };
            assert(unit <= 31_557_600_000_000_000);
            assert(value * unit <= 0xffff_ffff_ffff_ffff * 31_557_600_000_000_000)
                by (nonlinear_arith)
                requires
                    value <= 0xffff_ffff_ffff_ffff,
                    unit <= 31_557_600_000_000_000,
            ;
            let span: u128 = value as u128 * unit as u128;
            least = least + span;
            most = most + span;
            if fraction {
                most = most + (unit - 1) as u128;
            }
            if least > NANOS_LIMIT || (least == NANOS_LIMIT && unit >= NANOS_PER_SEC as u64
                && !fraction) {
                return true;
            }
            if most >= NANOS_LIMIT {
                return false;
            }
            number = None;
            fraction = false;
            index = end;
        } else if '0' <= character && character <= '9' && !fraction {
            let digit: u128 = (character as u8 - 48) as u128;
            let before: u128 = match number {
                Some(value) => value as u128,
                None => 0,
            };
            let next: u128 = before * 10 + digit;
            if next > u64::MAX as u128 {
                return true;
            }
            number = Some(next as u64);
            index = index + 1;
        } else if character == '.' {
            if number.is_none() {
                return true;
            }
            fraction = true;
            index = index + 1;
        } else {
            index = index + 1;
        }
    }
    true
}

/// `humantime::parse_duration`: the span that a text denotes, or the words of the error. It panics
/// where the spans read so far add up to the greatest number of seconds and just one second of
/// nanoseconds, which cannot be on the texts that are admitted here.
#[verifier::external_body]
fn read_duration(text: &str) -> (result: Result<(u64, u32), String>)
    requires
        duration_text_fits(text@),
    ensures
        outcome(result) == parsed_duration(text@),
        result matches Ok(parts) ==> parts.1 < NANOS_PER_SEC,
{
    match humantime::parse_duration(text) {
        Ok(duration) => Ok((duration.as_secs(), duration.subsec_nanos())),
        Err(error) => Err(error.to_string()),
    }
}

/// Reads a span such as `1h 30m`.
pub fn parse_duration(value: &str) -> (result: Result<Span, String>)
    requires
        duration_text_fits(value@),
    ensures
        span_of_parts(parsed_duration(value@)) == outcome(result),
        result matches Ok(span) ==> span.normal(),
{
    match read_duration(value) {
        Ok((secs, nanos)) => Ok(Span { secs, nanos }),
        Err(error) => Err(error),
    }
}

} // verus!
