//! Splitting the length of a password among the character classes.
//!
//! The split is drawn class by class out of a shrinking budget: first the
//! symbols (when any is enabled), then the lower-case letters, then the
//! digits; the upper-case letters get what is left. Each draw leaves room for
//! one character of every class still to come.

use crate::alphabet::CharacterClass;
use crate::error::GenerateError;
use crate::random::draw_inclusive;
use rand::rngs::ThreadRng;
use vstd::prelude::*;

verus! {

/// How many characters of a password come from each class.
#[derive(Clone, Copy, Debug, PartialEq, Eq, Structural)]
pub struct ClassCounts {
    pub upper: usize,
    pub lower: usize,
    pub digit: usize,
    pub symbol: usize,
}

impl ClassCounts {
    /// The number of characters of all classes together.
    pub open spec fn total(self) -> nat {
        (self.upper + self.lower + self.digit + self.symbol) as nat
    }

    /// Whether these counts split a password of `length` characters: they add
    /// up to `length`, the letters and digits have at least one character
    /// each, and the symbols have between one character and a quarter of the
    /// password when enabled, none otherwise.
    pub open spec fn partitions(self, length: nat, symbols_enabled: bool) -> bool {
        &&& self.total() == length
        &&& self.upper >= 1
        &&& self.lower >= 1
        &&& self.digit >= 1
        &&& if symbols_enabled {
            1 <= self.symbol <= length / 4
        } else {
            self.symbol == 0
        }
    }

    /// Builds the counts from the three numbers drawn for a password of
    /// `length` characters, the upper-case letters taking what the others
    /// leave. Fails when a draw lies outside the range its class allows.
    pub fn from_draws(
        length: usize,
        symbols_enabled: bool,
        symbol_draw: usize,
        lower_draw: usize,
        digit_draw: usize,
    ) -> (res: Result<ClassCounts, GenerateError>)
        ensures
            res is Ok <==> draws_fit(
                length as nat,
                symbols_enabled,
                symbol_draw as nat,
                lower_draw as nat,
                digit_draw as nat,
            ),
            res matches Ok(counts) ==> counts == (ClassCounts {
                upper: (length - symbol_draw - lower_draw - digit_draw) as usize,
                lower: lower_draw,
                digit: digit_draw,
                symbol: symbol_draw,
            }),
            res matches Err(e) ==> e == GenerateError::InvalidLength,
    {
        let symbol_fits = if symbols_enabled {
            1 <= symbol_draw && symbol_draw <= length / 4
        } else {
            symbol_draw == 0
        };
        if !symbol_fits {
            return Err(GenerateError::InvalidLength);
        }
        let after_symbols: usize = length - symbol_draw;
        if lower_draw < 1 || after_symbols < 2 || lower_draw > after_symbols - 2 {
            return Err(GenerateError::InvalidLength);
        }
        let after_lower: usize = after_symbols - lower_draw;
        if digit_draw < 1 || digit_draw > after_lower - 1 {
            return Err(GenerateError::InvalidLength);
        }
        Ok(
            ClassCounts {
                upper: after_lower - digit_draw,
                lower: lower_draw,
                digit: digit_draw,
                symbol: symbol_draw,
            },
        )
    }
}

/// Whether the three draws lie in the ranges that a password of `length`
/// characters allows: the symbols in `[1, length / 4]` when enabled and zero
/// otherwise, the lower-case letters in `[1, r - 2]` and then the digits in
/// `[1, r - 1]`, where `r` is what the earlier draws left of `length`.
pub open spec fn draws_fit(
    length: nat,
    symbols_enabled: bool,
    symbol_draw: nat,
    lower_draw: nat,
    digit_draw: nat,
) -> bool {
    &&& if symbols_enabled {
        1 <= symbol_draw <= length / 4
    } else {
        symbol_draw == 0
    }
    &&& 1 <= lower_draw <= length - symbol_draw - 2
    &&& 1 <= digit_draw <= length - symbol_draw - lower_draw - 1
}

/// The most characters that `class` may take out of a budget of `remaining`
/// characters: a quarter of it for the symbols, all but two for the
/// lower-case letters, all but one for the digits, all of it for the
/// upper-case letters.
pub open spec fn draw_limit_of(class: CharacterClass, remaining: nat) -> int {
    match class {
        CharacterClass::Symbol => (remaining / 4) as int,
        CharacterClass::Lower => remaining - 2,
        CharacterClass::Digit => remaining - 1,
        CharacterClass::Upper => remaining as int,
    }
}

/// The shortest password that can be split: one character for each class that
/// takes part, and four times the one symbol when symbols are enabled.
pub open spec fn minimum_length(symbols_enabled: bool) -> nat {
    if symbols_enabled {
        4
    } else {
        3
    }
}

/// The upper end of the range `[1, limit]` from which the count of `class` is
/// drawn out of `remaining` characters. Fails with `InvalidLength` when the
/// range would be empty.
pub fn draw_limit(class: CharacterClass, remaining: usize) -> (res: Result<usize, GenerateError>)
    ensures
        res is Ok <==> draw_limit_of(class, remaining as nat) >= 1,
        res matches Ok(limit) ==> limit == draw_limit_of(class, remaining as nat),
        res matches Err(e) ==> e == GenerateError::InvalidLength,
{
    let reserved: usize = match class {
        CharacterClass::Symbol => {
            let quarter: usize = remaining / 4;
            return if quarter >= 1 {
                Ok(quarter)
            } else {
                Err(GenerateError::InvalidLength)
            };
        },
        CharacterClass::Lower => 2,
        CharacterClass::Digit => 1,
        CharacterClass::Upper => 0,
    };
    if remaining > reserved {
        Ok(remaining - reserved)
    } else {
        Err(GenerateError::InvalidLength)
    }
}

/// Draws how many characters of a password of `length` characters come from
/// each class. Succeeds exactly when `length` reaches the minimum; the counts
/// then split `length`, whatever was drawn.
pub fn partition_lengths(rng: &mut ThreadRng, length: usize, symbols_enabled: bool) -> (res: Result<
    ClassCounts,
    GenerateError,
>)
    ensures
        res is Ok <==> length >= minimum_length(symbols_enabled),
        res matches Ok(counts) ==> counts.partitions(length as nat, symbols_enabled),
        res matches Err(e) ==> e == GenerateError::InvalidLength,
{
    let mut remaining: usize = length;
    let mut symbol_draw: usize = 0;
    if symbols_enabled {
        let limit: usize = match draw_limit(CharacterClass::Symbol, remaining) {
            Ok(limit) => limit,
            Err(e) => { return Err(e); },
        };
        symbol_draw = draw_inclusive(rng, 1, limit);
    }
    remaining = remaining - symbol_draw;
    let lower_limit: usize = match draw_limit(CharacterClass::Lower, remaining) {
        Ok(limit) => limit,
        Err(e) => { return Err(e); },
    };
    let lower_draw: usize = draw_inclusive(rng, 1, lower_limit);
    remaining = remaining - lower_draw;
    let digit_limit: usize = match draw_limit(CharacterClass::Digit, remaining) {
        Ok(limit) => limit,
        Err(e) => { return Err(e); },
    };
    let digit_draw: usize = draw_inclusive(rng, 1, digit_limit);
    ClassCounts::from_draws(length, symbols_enabled, symbol_draw, lower_draw, digit_draw)
}

/// Draws that fit give counts that split the length, and every split of the
/// length comes from draws that fit.
pub proof fn lemma_fitting_draws_partition(length: nat, symbols_enabled: bool, counts: ClassCounts)
    requires
        counts.total() == length,
    ensures
        counts.partitions(length, symbols_enabled) <==> draws_fit(
            length,
            symbols_enabled,
            counts.symbol as nat,
            counts.lower as nat,
            counts.digit as nat,
        ),
{
}

} // verus!
