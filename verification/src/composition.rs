//! What a generated password is made of, stated over sequences of characters.

use crate::alphabet::{
    digit_alphabet, is_digit, is_lower, is_upper, lemma_digit_alphabet, lemma_lower_alphabet,
    lemma_upper_alphabet, lower_alphabet, upper_alphabet,
};
use crate::partition::ClassCounts;
use vstd::prelude::*;

verus! {

/// Whether some character of `password` belongs to `alphabet`.
pub open spec fn has_char_from(password: Seq<char>, alphabet: Seq<char>) -> bool {
    exists|i: int| 0 <= i < password.len() && alphabet.contains(#[trigger] password[i])
}

/// Whether every character of `text` belongs to `alphabet`.
pub open spec fn drawn_from(text: Seq<char>, alphabet: Seq<char>) -> bool {
    forall|i: int| 0 <= i < text.len() ==> alphabet.contains(#[trigger] text[i])
}

/// The alphabets taking part in a request, one after the other: the letters,
/// the digits and the enabled symbols.
pub open spec fn active_alphabet(enabled_symbols: Seq<char>) -> Seq<char> {
    upper_alphabet() + lower_alphabet() + digit_alphabet() + enabled_symbols
}

/// Whether `buffer` is made of four blocks, as long as `counts` says: first
/// upper-case letters, then lower-case letters, then digits, then enabled
/// symbols.
pub open spec fn class_blocks(
    buffer: Seq<char>,
    counts: ClassCounts,
    enabled_symbols: Seq<char>,
) -> bool {
    let lower_start = counts.upper as int;
    let digit_start = lower_start + counts.lower;
    let symbol_start = digit_start + counts.digit;
    &&& buffer.len() == counts.total()
    &&& drawn_from(buffer.subrange(0, lower_start), upper_alphabet())
    &&& drawn_from(buffer.subrange(lower_start, digit_start), lower_alphabet())
    &&& drawn_from(buffer.subrange(digit_start, symbol_start), digit_alphabet())
    &&& drawn_from(buffer.subrange(symbol_start, buffer.len() as int), enabled_symbols)
}

/// Whether `password` is a rearrangement of four class blocks whose lengths
/// split `length`: this is all that generation leaves to chance.
pub open spec fn composed(password: Seq<char>, length: nat, enabled_symbols: Seq<char>) -> bool {
    exists|counts: ClassCounts, buffer: Seq<char>|
        #![trigger class_blocks(buffer, counts, enabled_symbols)]
        {
            &&& counts.partitions(length, enabled_symbols.len() > 0)
            &&& class_blocks(buffer, counts, enabled_symbols)
            &&& password.to_multiset() == buffer.to_multiset()
        }
}

/// What every generated password has: the length asked for, an upper-case
/// letter, a lower-case letter, a digit, an enabled symbol when any is
/// enabled, and no character from outside the active alphabets.
pub open spec fn well_formed(password: Seq<char>, length: nat, enabled_symbols: Seq<char>) -> bool {
    &&& password.len() == length
    &&& has_char_from(password, upper_alphabet())
    &&& has_char_from(password, lower_alphabet())
    &&& has_char_from(password, digit_alphabet())
    &&& enabled_symbols.len() > 0 ==> has_char_from(password, enabled_symbols)
    &&& drawn_from(password, active_alphabet(enabled_symbols))
}

/// A rearrangement holds the same characters: whatever belongs to one of the
/// two sequences belongs to the other, and they are equally long.
pub proof fn lemma_rearrangement(a: Seq<char>, b: Seq<char>)
    requires
        a.to_multiset() == b.to_multiset(),
    ensures
        a.len() == b.len(),
        forall|c: char| a.contains(c) <==> b.contains(c),
{
    a.to_multiset_ensures();
    b.to_multiset_ensures();
    assert forall|c: char| a.contains(c) <==> b.contains(c) by {
        assert(b.contains(c) <==> b.to_multiset().count(c) > 0);
    }
}

/// A character of a block of `buffer` is a character of any rearrangement of
/// `buffer`.
proof fn lemma_block_char_survives(
    password: Seq<char>,
    buffer: Seq<char>,
    from: int,
    to: int,
    alphabet: Seq<char>,
)
    requires
        password.to_multiset() == buffer.to_multiset(),
        0 <= from < to <= buffer.len(),
        drawn_from(buffer.subrange(from, to), alphabet),
    ensures
        has_char_from(password, alphabet),
{
    lemma_rearrangement(password, buffer);
    assert(buffer.subrange(from, to)[0] == buffer[from]);
    assert(password.contains(buffer[from]));
}

/// Every composed password is well formed.
pub proof fn lemma_composed_is_well_formed(
    password: Seq<char>,
    length: nat,
    enabled_symbols: Seq<char>,
)
    requires
        composed(password, length, enabled_symbols),
    ensures
        well_formed(password, length, enabled_symbols),
{
    let (counts, buffer) = choose|counts: ClassCounts, buffer: Seq<char>|
        #![trigger class_blocks(buffer, counts, enabled_symbols)]
        {
            &&& counts.partitions(length, enabled_symbols.len() > 0)
            &&& class_blocks(buffer, counts, enabled_symbols)
            &&& password.to_multiset() == buffer.to_multiset()
        };
    let lower_start = counts.upper as int;
    let digit_start = lower_start + counts.lower;
    let symbol_start = digit_start + counts.digit;
    let end = buffer.len() as int;
    lemma_rearrangement(password, buffer);
    lemma_block_char_survives(password, buffer, 0, lower_start, upper_alphabet());
    lemma_block_char_survives(password, buffer, lower_start, digit_start, lower_alphabet());
    lemma_block_char_survives(password, buffer, digit_start, symbol_start, digit_alphabet());
    if enabled_symbols.len() > 0 {
        lemma_block_char_survives(password, buffer, symbol_start, end, enabled_symbols);
    }
    let active = active_alphabet(enabled_symbols);
    assert forall|i: int| 0 <= i < password.len() implies active.contains(
        #[trigger] password[i],
    ) by {
        let c = password[i];
        assert(buffer.contains(c));
        let j = choose|j: int| 0 <= j < buffer.len() && buffer[j] == c;
        if j < lower_start {
            assert(buffer.subrange(0, lower_start)[j] == c);
            let k = choose|k: int| 0 <= k < upper_alphabet().len() && upper_alphabet()[k] == c;
            assert(active[k] == c);
        } else if j < digit_start {
            assert(buffer.subrange(lower_start, digit_start)[j - lower_start] == c);
            let k = choose|k: int| 0 <= k < lower_alphabet().len() && lower_alphabet()[k] == c;
            assert(active[upper_alphabet().len() + k] == c);
        } else if j < symbol_start {
            assert(buffer.subrange(digit_start, symbol_start)[j - digit_start] == c);
            let k = choose|k: int| 0 <= k < digit_alphabet().len() && digit_alphabet()[k] == c;
            assert(active[upper_alphabet().len() + lower_alphabet().len() + k] == c);
        } else {
            assert(buffer.subrange(symbol_start, end)[j - symbol_start] == c);
            let k = choose|k: int| 0 <= k < enabled_symbols.len() && enabled_symbols[k] == c;
            assert(active[upper_alphabet().len() + lower_alphabet().len()
                + digit_alphabet().len() + k] == c);
        }
    }
}

/// A well-formed password holds one of the letters `A` to `Z`, one of the
/// letters `a` to `z` and one of the digits `0` to `9`, and each of its
/// characters is such a letter, such a digit or an enabled symbol.
pub proof fn lemma_well_formed_classes(
    password: Seq<char>,
    length: nat,
    enabled_symbols: Seq<char>,
)
    requires
        well_formed(password, length, enabled_symbols),
    ensures
        exists|i: int| 0 <= i < password.len() && is_upper(#[trigger] password[i]),
        exists|i: int| 0 <= i < password.len() && is_lower(#[trigger] password[i]),
        exists|i: int| 0 <= i < password.len() && is_digit(#[trigger] password[i]),
        forall|i: int|
            0 <= i < password.len() ==> {
                let c = #[trigger] password[i];
                is_upper(c) || is_lower(c) || is_digit(c) || enabled_symbols.contains(c)
            },
{
    lemma_upper_alphabet();
    lemma_lower_alphabet();
    lemma_digit_alphabet();
}

} // verus!
