//! Reading decimal numbers.
use vstd::prelude::*;

use crate::text::{characters, outcome};

verus! {

/// Why a text is not a number.
#[derive(Debug, Clone, Copy, PartialEq, Eq, Structural)]
pub enum NumberError {
    Empty,
    InvalidDigit,
    TooLarge,
}

impl NumberError {
    /// What is said of an error.
    pub open spec fn text(self) -> Seq<char> {
        match self {
            NumberError::Empty => "cannot parse integer from empty string"@,
            NumberError::InvalidDigit => "invalid digit found in string"@,
            NumberError::TooLarge => "number too large to fit in target type"@,
        }
    }

    fn message(self) -> (message: String)
        ensures
            message@ == self.text(),
    {
        match self {
            NumberError::Empty => "cannot parse integer from empty string".to_owned(),
            NumberError::InvalidDigit => "invalid digit found in string".to_owned(),
            NumberError::TooLarge => "number too large to fit in target type".to_owned(),
        }
    }
}

/// Whether a character is a decimal digit.
pub open spec fn is_digit(character: char) -> bool {
    '0' <= character && character <= '9'
}

/// Reads digits from the left, after a number that was read already. The first character that
/// cannot be taken decides the error.
pub open spec fn digits_after(value: nat, digits: Seq<char>) -> Result<u64, NumberError>
    decreases digits.len(),
{
    if digits.len() == 0 {
        Ok(value as u64)
    } else if !is_digit(digits[0]) {
        Err(NumberError::InvalidDigit)
    } else {
        let next = value * 10 + (digits[0] as nat - 48) as nat;
        if next > u64::MAX {
            Err(NumberError::TooLarge)
        } else {
            digits_after(next, digits.skip(1))
        }
    }
}

/// Reads a number: decimal digits, with a plus sign before them or not.
pub open spec fn number(text: Seq<char>) -> Result<u64, NumberError> {
    if text.len() == 0 {
        Err(NumberError::Empty)
    } else if text.len() > 1 && text[0] == '+' {
        digits_after(0, text.skip(1))
    } else {
        digits_after(0, text)
    }
}

/// The number, or what is said of the error.
pub open spec fn number_or_text(text: Seq<char>) -> Result<u64, Seq<char>> {
    match number(text) {
        Ok(value) => Ok(value),
        Err(error) => Err(error.text()),
    }
}

/// Reads a number: decimal digits, with a plus sign before them or not.
pub fn parse_number(text: &str) -> (result: Result<u64, String>)
    ensures
        outcome(result) == number_or_text(text@),
{
    let chars = characters(text);
    if chars.len() == 0 {
        return Err(NumberError::Empty.message());
    }
    let start: usize = if chars.len() > 1 && chars[0] == '+' {
        1
    } else {
        0
    };
    let mut value: u64 = 0;
    let mut index: usize = start;
    assert(text@.skip(0) =~= text@);
    while index < chars.len()
        invariant
            chars@ == text@,
            chars@.len() > 0,
            start <= index <= chars@.len(),
            start == if chars@.len() > 1 && chars@[0] == '+' {
                1int
            } else {
                0
            },
            number(text@) == digits_after(value as nat, text@.skip(index as int)),
        decreases chars@.len() - index,
    {
        let character = chars[index];
        proof {
            assert(text@.skip(index as int)[0] == character);
            assert(text@.skip(index as int).skip(1) =~= text@.skip(index + 1));
        }
        if character < '0' || character > '9' {
            return Err(NumberError::InvalidDigit.message());
        }
        let digit: u64 = character as u64 - 48;
        if value > u64::MAX / 10 || (value == u64::MAX / 10 && digit > u64::MAX % 10) {
            return Err(NumberError::TooLarge.message());
        }
        value = value * 10 + digit;
        index = index + 1;
    }
    Ok(value)
}

} // verus!
