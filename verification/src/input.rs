//! What a caller's form fields mean: the number in a field, the bounds a
//! length and a count are brought into, and the symbols that were ticked.

use crate::decimal::{decimal_text, format_isize, isize_value, parse_isize};
use crate::error::GenerateError;
use crate::generator::{MIN_COUNT, MIN_LENGTH};
use crate::model::{admission, MAX_COUNT, MAX_LENGTH};
use vstd::prelude::*;
use vstd::string::StringExecFns;

verus! {

/// The symbols a caller may enable.
pub const ENABLE_SYMBOLS: &'static str = "~!@#$%^&*()_+-={}[]|:;\"<>,.?\\/";

/// What the field `id` holds: the number its text denotes. A field that does
/// not exist (`None`) and a text that denotes no `isize` are errors, each with
/// a message that names the field.
pub open spec fn field_outcome(id: Seq<char>, text: Option<Seq<char>>) -> Result<isize, Seq<char>> {
    match text {
        None => Err("id: "@ + id + " does not exist"@),
        Some(text) => match isize_value(text) {
            Some(value) => Ok(value),
            None => Err("Invalid value for "@ + id),
        },
    }
}

/// Reads the number in the field `id`, whose text is `text` (`None` when the
/// form has no such field).
pub fn value_of_field(id: &str, text: Option<&str>) -> (res: Result<isize, String>)
    ensures
        match field_outcome(
            id@,
            match text {
                Some(t) => Some(t@),
                None => None,
            },
        ) {
            Ok(value) => res == Ok::<isize, String>(value),
            Err(message) => res matches Err(m) && m@ == message,
        },
{
    match text {
        None => {
            let mut message = String::from_str("id: ");
            message.append(id);
            message.append(" does not exist");
            Err(message)
        },
        Some(text) => match parse_isize(text) {
            Some(value) => Ok(value),
            None => {
                let mut message = String::from_str("Invalid value for ");
                message.append(id);
                Err(message)
            },
        },
    }
}

/// Turns a number that is not negative into a `usize`; a negative one is an
/// error whose message shows the number.
pub fn convert_isize_to_usize(value: isize) -> (res: Result<usize, String>)
    ensures
        value >= 0 ==> res == Ok::<usize, String>(value as usize),
        value < 0 ==> (res matches Err(m) && m@ == "Cannot convert negative isize: "@
            + decimal_text(value as int) + " to usize"@),
{
    if value >= 0 {
        Ok(value as usize)
    } else {
        let mut message = String::from_str("Cannot convert negative isize: ");
        message.append(format_isize(value).as_str());
        message.append(" to usize");
        Err(message)
    }
}

/// What was done to a field's number to bring it into its bounds.
#[derive(Clone, Copy, Debug, PartialEq, Eq, Structural)]
pub enum Adjustment {
    /// The number was within the bounds.
    Kept,
    /// The number was below the least value, which replaced it.
    Raised,
    /// The number was above the greatest value, which replaced it.
    Lowered,
    /// The field held no number; the least value stands for it.
    Defaulted,
}

/// A parameter brought into its bounds.
#[derive(Clone, Copy, Debug, PartialEq, Eq, Structural)]
pub struct Resolved {
    pub value: usize,
    pub adjustment: Adjustment,
}

/// The parameter that a field stands for, between `least` and `most`: the
/// number itself when it lies between them, the nearer bound when it does
/// not, and `least` when the field held no number.
pub open spec fn resolution(field: Option<isize>, least: usize, most: usize) -> Resolved {
    match field {
        None => Resolved { value: least, adjustment: Adjustment::Defaulted },
        Some(number) => if number < least {
            Resolved { value: least, adjustment: Adjustment::Raised }
        } else if number > most {
            Resolved { value: most, adjustment: Adjustment::Lowered }
        } else {
            Resolved { value: number as usize, adjustment: Adjustment::Kept }
        },
    }
}

/// The number a field gave, if it gave one.
pub open spec fn number_of(field: Result<isize, String>) -> Option<isize> {
    match field {
        Ok(number) => Some(number),
        Err(_) => None,
    }
}

/// Brings what a field gave into the bounds `least` and `most`.
pub fn resolve(field: &Result<isize, String>, least: usize, most: usize) -> (res: Resolved)
    requires
        least <= most <= isize::MAX,
    ensures
        res == resolution(number_of(*field), least, most),
        least <= res.value <= most,
{
    match field {
        Err(_) => Resolved { value: least, adjustment: Adjustment::Defaulted },
        Ok(number) => {
            let number: isize = *number;
            let (bounded, adjustment) = if number < least as isize {
                (least as isize, Adjustment::Raised)
            } else if number > most as isize {
                (most as isize, Adjustment::Lowered)
            } else {
                (number, Adjustment::Kept)
            };
            match convert_isize_to_usize(bounded) {
                Ok(value) => Resolved { value, adjustment },
                Err(_) => Resolved { value: least, adjustment: Adjustment::Defaulted },
            }
        },
    }
}

/// The password length that a field stands for, between 5 and 1000.
pub fn resolve_length(field: &Result<isize, String>) -> (res: Resolved)
    ensures
        res == resolution(number_of(*field), MIN_LENGTH, MAX_LENGTH),
        MIN_LENGTH <= res.value <= MAX_LENGTH,
{
    resolve(field, MIN_LENGTH, MAX_LENGTH)
}

/// The number of passwords that a field stands for, between 1 and 1000.
pub fn resolve_count(field: &Result<isize, String>) -> (res: Resolved)
    ensures
        res == resolution(number_of(*field), MIN_COUNT, MAX_COUNT),
        MIN_COUNT <= res.value <= MAX_COUNT,
{
    resolve(field, MIN_COUNT, MAX_COUNT)
}

/// Whatever two fields hold, the length and the count they stand for make a
/// request that is admitted.
pub proof fn lemma_resolved_request_is_admitted(length: Option<isize>, count: Option<isize>)
    ensures
        admission(
            resolution(length, MIN_LENGTH, MAX_LENGTH).value as nat,
            resolution(count, MIN_COUNT, MAX_COUNT).value as nat,
        ) == Ok::<(), GenerateError>(()),
{
}

/// One symbol of the form and whether the caller ticked it.
pub struct SymbolChoice {
    pub value: String,
    pub checked: bool,
}

/// The values of the ticked choices, one after the other, in the order of the
/// form.
pub open spec fn ticked_symbols(choices: Seq<SymbolChoice>) -> Seq<char>
    decreases choices.len(),
{
    if choices.len() == 0 {
        Seq::empty()
    } else if choices.last().checked {
        ticked_symbols(choices.drop_last()) + choices.last().value@
    } else {
        ticked_symbols(choices.drop_last())
    }
}

/// The symbol alphabet that the form enables.
pub fn selected_symbols(choices: &Vec<SymbolChoice>) -> (symbols: String)
    ensures
        symbols@ == ticked_symbols(choices@),
{
    let mut symbols = String::new();
    let mut i: usize = 0;
    while i < choices.len()
        invariant
            i <= choices.len(),
            symbols@ == ticked_symbols(choices@.take(i as int)),
        decreases choices.len() - i,
    {
        assert(choices@.take(i + 1).drop_last() == choices@.take(i as int));
        if choices[i].checked {
            symbols.append(choices[i].value.as_str());
        }
        i = i + 1;
    }
    assert(choices@.take(choices.len() as int) == choices@);
    symbols
}

} // verus!
