//! The character classes of a password and their alphabets.

use vstd::prelude::*;

verus! {

/// The upper-case letters.
pub const UPPER: &'static str = "ABCDEFGHIJKLMNOPQRSTUVWXYZ";

/// The lower-case letters.
pub const LOWER: &'static str = "abcdefghijklmnopqrstuvwxyz";

/// The decimal digits.
pub const NUMBER: &'static str = "0123456789";

/// A named alphabet from which characters of a password are drawn.
#[derive(Clone, Copy, Debug, PartialEq, Eq, Structural)]
pub enum CharacterClass {
    Upper,
    Lower,
    Digit,
    Symbol,
}

/// The alphabet of the upper-case class.
pub open spec fn upper_alphabet() -> Seq<char> {
    UPPER@
}

/// The alphabet of the lower-case class.
pub open spec fn lower_alphabet() -> Seq<char> {
    LOWER@
}

/// The alphabet of the digit class.
pub open spec fn digit_alphabet() -> Seq<char> {
    NUMBER@
}

/// Whether `c` is one of the letters `A` to `Z`.
pub open spec fn is_upper(c: char) -> bool {
    'A' <= c <= 'Z'
}

/// Whether `c` is one of the letters `a` to `z`.
pub open spec fn is_lower(c: char) -> bool {
    'a' <= c <= 'z'
}

/// Whether `c` is one of the digits `0` to `9`.
pub open spec fn is_digit(c: char) -> bool {
    '0' <= c <= '9'
}

/// The upper-case alphabet holds 26 characters: the letters `A` to `Z`, each
/// once, in order.
pub proof fn lemma_upper_alphabet()
    ensures
        upper_alphabet().len() == 26,
        forall|i: int| 0 <= i < 26 ==> #[trigger] upper_alphabet()[i] == ('A' as int + i) as char,
        forall|c: char| #[trigger] upper_alphabet().contains(c) <==> is_upper(c),
{
    reveal_strlit("ABCDEFGHIJKLMNOPQRSTUVWXYZ");
    let s = upper_alphabet();
    assert forall|c: char| is_upper(c) implies s.contains(c) by {
        assert(s[c as int - 'A' as int] == c);
    }
}

/// The lower-case alphabet holds 26 characters: the letters `a` to `z`, each
/// once, in order.
pub proof fn lemma_lower_alphabet()
    ensures
        lower_alphabet().len() == 26,
        forall|i: int| 0 <= i < 26 ==> #[trigger] lower_alphabet()[i] == ('a' as int + i) as char,
        forall|c: char| #[trigger] lower_alphabet().contains(c) <==> is_lower(c),
{
    reveal_strlit("abcdefghijklmnopqrstuvwxyz");
    let s = lower_alphabet();
    assert forall|c: char| is_lower(c) implies s.contains(c) by {
        assert(s[c as int - 'a' as int] == c);
    }
}

/// The digit alphabet holds 10 characters: the digits `0` to `9`, each once,
/// in order.
pub proof fn lemma_digit_alphabet()
    ensures
        digit_alphabet().len() == 10,
        forall|i: int| 0 <= i < 10 ==> #[trigger] digit_alphabet()[i] == ('0' as int + i) as char,
        forall|c: char| #[trigger] digit_alphabet().contains(c) <==> is_digit(c),
{
    reveal_strlit("0123456789");
    let s = digit_alphabet();
    assert forall|c: char| is_digit(c) implies s.contains(c) by {
        assert(s[c as int - '0' as int] == c);
    }
}

impl CharacterClass {
    /// The alphabet of this class. That of the symbol class is what the caller
    /// enabled, character by character, repetitions kept.
    pub open spec fn alphabet(self, enabled_symbols: Seq<char>) -> Seq<char> {
        match self {
            CharacterClass::Upper => upper_alphabet(),
            CharacterClass::Lower => lower_alphabet(),
            CharacterClass::Digit => digit_alphabet(),
            CharacterClass::Symbol => enabled_symbols,
        }
    }

    /// The alphabet of this class as a vector of its characters.
    pub fn alphabet_chars(&self, enabled_symbols: &str) -> (chars: Vec<char>)
        ensures
            chars@ == self.alphabet(enabled_symbols@),
    {
        match self {
            CharacterClass::Upper => chars_of(UPPER),
            CharacterClass::Lower => chars_of(LOWER),
            CharacterClass::Digit => chars_of(NUMBER),
            CharacterClass::Symbol => chars_of(enabled_symbols),
        }
    }
}

/// The characters of `text`, in order.
pub fn chars_of(text: &str) -> (chars: Vec<char>)
    ensures
        chars@ == text@,
{
    let mut chars: Vec<char> = Vec::new();
    for c in it: text.chars()
        invariant
            it.seq() == text@,
            chars@ == it.seq().take(it.index()),
    {
        chars.push(c);
    }
    chars
}

} // verus!
