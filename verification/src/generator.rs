//! Generating a batch of passwords.

use crate::alphabet::{
    digit_alphabet, lemma_digit_alphabet, lemma_lower_alphabet, lemma_upper_alphabet,
    lower_alphabet, upper_alphabet, CharacterClass,
};
use crate::composition::{class_blocks, composed, drawn_from, lemma_composed_is_well_formed, well_formed};
use crate::error::GenerateError;
use crate::partition::{minimum_length, partition_lengths, ClassCounts};
use crate::random::{draw_index, shuffle_chars};
use crate::text::string_of;
use rand::rngs::ThreadRng;
use vstd::prelude::*;

verus! {

/// The least length a request may ask for.
pub const MIN_LENGTH: usize = 5;

/// The least number of passwords a request may ask for.
pub const MIN_COUNT: usize = 1;

/// A request as the contracts see it.
pub struct GenerationRequest {
    /// The number of characters of each password.
    pub length: nat,
    /// The number of passwords.
    pub count: nat,
    /// The symbols the caller enabled, character by character.
    pub enabled_symbols: Seq<char>,
}

/// A request for a batch of passwords.
pub struct Args {
    length: usize,
    num_pw: usize,
    enabled_symbols: String,
}

impl View for Args {
    type V = GenerationRequest;

    closed spec fn view(&self) -> GenerationRequest {
        GenerationRequest {
            length: self.length as nat,
            count: self.num_pw as nat,
            enabled_symbols: self.enabled_symbols@,
        }
    }
}

impl Args {
    /// A request for `num_pw` passwords of `length` characters each, with the
    /// characters of `enabled_symbols` as the symbol alphabet.
    pub fn new(length: usize, num_pw: usize, enabled_symbols: String) -> (args: Self)
        ensures
            args@ == (GenerationRequest {
                length: length as nat,
                count: num_pw as nat,
                enabled_symbols: enabled_symbols@,
            }),
    {
        Self { length, num_pw, enabled_symbols }
    }
}

/// What the validation of a length and a count answers: `InvalidLength` below
/// the least length, else `InvalidCount` below the least count, else success.
pub open spec fn validation(length: nat, count: nat) -> Result<(), GenerateError> {
    if length < MIN_LENGTH {
        Err(GenerateError::InvalidLength)
    } else if count < MIN_COUNT {
        Err(GenerateError::InvalidCount)
    } else {
        Ok(())
    }
}

/// Checks the length and the count of a request.
pub fn validate_parameters(length: usize, count: usize) -> (res: Result<(), GenerateError>)
    ensures
        res == validation(length as nat, count as nat),
{
    if length < MIN_LENGTH {
        Err(GenerateError::InvalidLength)
    } else if count < MIN_COUNT {
        Err(GenerateError::InvalidCount)
    } else {
        Ok(())
    }
}

/// A length that cannot be split among the classes, because it would leave
/// the range of a draw empty, never passes validation.
pub proof fn lemma_unsplittable_length_is_invalid(length: nat, count: nat, symbols_enabled: bool)
    requires
        length < minimum_length(symbols_enabled),
    ensures
        validation(length, count) == Err::<(), GenerateError>(GenerateError::InvalidLength),
{
}

/// The characters that the indices `picks` select from `alphabet`, in order.
pub open spec fn picked(alphabet: Seq<char>, picks: Seq<usize>) -> Seq<char> {
    Seq::new(picks.len(), |k: int| alphabet[picks[k] as int])
}

/// Appends to `buffer` the characters that `picks` select from `alphabet`.
pub fn select_chars(alphabet: &Vec<char>, picks: &Vec<usize>, buffer: &mut Vec<char>)
    requires
        forall|k: int| 0 <= k < picks.len() ==> picks[k] < alphabet.len(),
    ensures
        final(buffer)@ == old(buffer)@ + picked(alphabet@, picks@),
{
    let mut k: usize = 0;
    while k < picks.len()
        invariant
            k <= picks.len(),
            forall|j: int| 0 <= j < picks.len() ==> picks[j] < alphabet.len(),
            buffer@ == old(buffer)@ + picked(alphabet@, picks@.take(k as int)),
        decreases picks.len() - k,
    {
        let pick: usize = picks[k];
        buffer.push(alphabet[pick]);
        k = k + 1;
    }
}

/// Draws `count` indices below `bound`, one after the other. Fails with
/// `EmptyAlphabet` exactly when an index is wanted and none exists.
pub fn draw_picks(rng: &mut ThreadRng, bound: usize, count: usize) -> (res: Result<
    Vec<usize>,
    GenerateError,
>)
    ensures
        res is Err <==> count > 0 && bound == 0,
        res matches Err(e) ==> e == GenerateError::EmptyAlphabet,
        res matches Ok(picks) ==> {
            &&& picks.len() == count
            &&& forall|k: int| 0 <= k < picks.len() ==> picks[k] < bound
        },
{
    let mut picks: Vec<usize> = Vec::new();
    if count == 0 {
        return Ok(picks);
    }
    if bound == 0 {
        return Err(GenerateError::EmptyAlphabet);
    }
    let mut k: usize = 0;
    while k < count
        invariant
            0 < bound,
            k <= count,
            picks.len() == k,
            forall|j: int| 0 <= j < picks.len() ==> picks[j] < bound,
        decreases count - k,
    {
        let index: usize = draw_index(rng, bound);
        picks.push(index);
        k = k + 1;
    }
    Ok(picks)
}

/// Appends to `buffer` `count` characters drawn from `alphabet`, each on its
/// own and with replacement. Fails with `EmptyAlphabet`, leaving the buffer as
/// it was, exactly when characters are wanted from an empty alphabet.
pub fn sample_class(
    rng: &mut ThreadRng,
    alphabet: &Vec<char>,
    count: usize,
    buffer: &mut Vec<char>,
) -> (res: Result<(), GenerateError>)
    ensures
        res is Err <==> count > 0 && alphabet.len() == 0,
        res matches Err(e) ==> e == GenerateError::EmptyAlphabet && final(buffer)@ == old(buffer)@,
        res is Ok ==> {
            &&& final(buffer)@.len() == old(buffer)@.len() + count
            &&& final(buffer)@.subrange(0, old(buffer)@.len() as int) == old(buffer)@
            &&& drawn_from(
                final(buffer)@.subrange(old(buffer)@.len() as int, final(buffer)@.len() as int),
                alphabet@,
            )
        },
{
    match draw_picks(rng, alphabet.len(), count) {
        Ok(picks) => {
            select_chars(alphabet, &picks, buffer);
            Ok(())
        },
        Err(e) => Err(e),
    }
}

/// The alphabets of the four classes for one request, each as a vector of its
/// characters. Those of the letters and the digits are always the fixed ones.
pub struct Alphabets {
    upper: Vec<char>,
    lower: Vec<char>,
    digit: Vec<char>,
    symbol: Vec<char>,
}

impl Alphabets {
    #[verifier::type_invariant]
    spec fn fixed_classes(&self) -> bool {
        &&& self.upper@ == upper_alphabet()
        &&& self.lower@ == lower_alphabet()
        &&& self.digit@ == digit_alphabet()
    }

    /// The symbol alphabet of the request.
    pub closed spec fn enabled_symbols(&self) -> Seq<char> {
        self.symbol@
    }

    /// The alphabets of a request that enables the characters of
    /// `enabled_symbols`.
    pub fn new(enabled_symbols: &str) -> (alphabets: Self)
        ensures
            alphabets.enabled_symbols() == enabled_symbols@,
    {
        Alphabets {
            upper: CharacterClass::Upper.alphabet_chars(enabled_symbols),
            lower: CharacterClass::Lower.alphabet_chars(enabled_symbols),
            digit: CharacterClass::Digit.alphabet_chars(enabled_symbols),
            symbol: CharacterClass::Symbol.alphabet_chars(enabled_symbols),
        }
    }

    /// The alphabet of `class`.
    pub fn of(&self, class: CharacterClass) -> (chars: &Vec<char>)
        ensures
            chars@ == class.alphabet(self.enabled_symbols()),
    {
        proof {
            use_type_invariant(self);
        }
        match class {
            CharacterClass::Upper => &self.upper,
            CharacterClass::Lower => &self.lower,
            CharacterClass::Digit => &self.digit,
            CharacterClass::Symbol => &self.symbol,
        }
    }
}

/// Generates one password of `length` characters: splits the length among the
/// classes, draws the characters class by class (upper-case letters, then
/// lower-case letters, digits, symbols), shuffles them and joins them.
/// Succeeds exactly when `length` can be split; the password is then composed
/// as the split says, whatever was drawn.
pub fn generate_one(rng: &mut ThreadRng, length: usize, alphabets: &Alphabets) -> (res: Result<
    String,
    GenerateError,
>)
    ensures
        res is Ok <==> length >= minimum_length(alphabets.enabled_symbols().len() > 0),
        res matches Ok(password) ==> {
            &&& composed(password@, length as nat, alphabets.enabled_symbols())
            &&& well_formed(password@, length as nat, alphabets.enabled_symbols())
        },
        res matches Err(e) ==> e == GenerateError::InvalidLength,
{
    let symbols = alphabets.of(CharacterClass::Symbol);
    let counts = match partition_lengths(rng, length, symbols.len() > 0) {
        Ok(counts) => counts,
        Err(e) => { return Err(e); },
    };
    proof {
        lemma_upper_alphabet();
        lemma_lower_alphabet();
        lemma_digit_alphabet();
    }
    let mut buffer: Vec<char> = Vec::new();
    match sample_class(rng, alphabets.of(CharacterClass::Upper), counts.upper, &mut buffer) {
        Ok(()) => {},
        Err(e) => { return Err(e); },
    }
    let ghost upper_block = buffer@;
    match sample_class(rng, alphabets.of(CharacterClass::Lower), counts.lower, &mut buffer) {
        Ok(()) => {},
        Err(e) => { return Err(e); },
    }
    let ghost lower_end = buffer@;
    match sample_class(rng, alphabets.of(CharacterClass::Digit), counts.digit, &mut buffer) {
        Ok(()) => {},
        Err(e) => { return Err(e); },
    }
    let ghost digit_end = buffer@;
    match sample_class(rng, symbols, counts.symbol, &mut buffer) {
        Ok(()) => {},
        Err(e) => { return Err(e); },
    }
    let ghost blocks = buffer@;
    proof {
        let lower_start = counts.upper as int;
        let digit_start = lower_start + counts.lower;
        let symbol_start = digit_start + counts.digit;
        assert(upper_block.subrange(0, lower_start) == upper_block);
        assert(blocks.subrange(0, lower_start) == upper_block);
        assert(blocks.subrange(lower_start, digit_start) == lower_end.subrange(
            lower_start,
            digit_start,
        ));
        assert(blocks.subrange(digit_start, symbol_start) == digit_end.subrange(
            digit_start,
            symbol_start,
        ));
        assert(class_blocks(blocks, counts, alphabets.enabled_symbols()));
    }
    shuffle_chars(&mut buffer, rng);
    let password = string_of(&buffer);
    proof {
        lemma_composed_is_well_formed(password@, length as nat, alphabets.enabled_symbols());
    }
    Ok(password)
}

/// Generates the batch a request asks for. A length below five is turned down
/// with `InvalidLength`, else a count below one with `InvalidCount`. Every
/// other request succeeds, with as many passwords as asked for, each of them
/// composed and well formed for the length and the symbols of the request.
pub fn generate_password(args: &Args) -> (res: Result<Vec<String>, GenerateError>)
    ensures
        match validation(args@.length, args@.count) {
            Err(e) => res == Err::<Vec<String>, GenerateError>(e),
            Ok(_) => res is Ok,
        },
        res matches Ok(passwords) ==> {
            &&& passwords.len() == args@.count
            &&& forall|i: int|
                0 <= i < passwords.len() ==> composed(
                    #[trigger] passwords[i]@,
                    args@.length,
                    args@.enabled_symbols,
                )
            &&& forall|i: int|
                0 <= i < passwords.len() ==> well_formed(
                    #[trigger] passwords[i]@,
                    args@.length,
                    args@.enabled_symbols,
                )
        },
{
    match validate_parameters(args.length, args.num_pw) {
        Ok(()) => {},
        Err(e) => { return Err(e); },
    }
    let alphabets = Alphabets::new(args.enabled_symbols.as_str());
    let mut passwords: Vec<String> = Vec::new();
    let mut rng = rand::thread_rng();
    let mut made: usize = 0;
    while made < args.num_pw
        invariant
            made <= args.num_pw,
            args.length >= MIN_LENGTH,
            alphabets.enabled_symbols() == args@.enabled_symbols,
            passwords.len() == made,
            forall|i: int|
                0 <= i < passwords.len() ==> composed(
                    #[trigger] passwords[i]@,
                    args@.length,
                    args@.enabled_symbols,
                ),
            forall|i: int|
                0 <= i < passwords.len() ==> well_formed(
                    #[trigger] passwords[i]@,
                    args@.length,
                    args@.enabled_symbols,
                ),
        decreases args.num_pw - made,
    {
        match generate_one(&mut rng, args.length, &alphabets) {
            Ok(password) => {
                passwords.push(password);
            },
            Err(e) => { return Err(e); },
        }
        made = made + 1;
    }
    Ok(passwords)
}

} // verus!
