use password_generator::alphabet::{chars_of, CharacterClass, LOWER, NUMBER, UPPER};
use password_generator::error::GenerateError;
use password_generator::generator::{draw_picks, sample_class, select_chars, Alphabets};
use password_generator::partition::{draw_limit, partition_lengths, ClassCounts};

#[test]
fn draw_limits_follow_the_budget() {
    assert_eq!(draw_limit(CharacterClass::Symbol, 12), Ok(3));
    assert_eq!(draw_limit(CharacterClass::Symbol, 7), Ok(1));
    assert_eq!(draw_limit(CharacterClass::Lower, 12), Ok(10));
    assert_eq!(draw_limit(CharacterClass::Digit, 12), Ok(11));
    assert_eq!(draw_limit(CharacterClass::Upper, 12), Ok(12));
}

#[test]
fn empty_draw_ranges_are_invalid_lengths() {
    assert_eq!(draw_limit(CharacterClass::Symbol, 3), Err(GenerateError::InvalidLength));
    assert_eq!(draw_limit(CharacterClass::Symbol, 0), Err(GenerateError::InvalidLength));
    assert_eq!(draw_limit(CharacterClass::Lower, 2), Err(GenerateError::InvalidLength));
    assert_eq!(draw_limit(CharacterClass::Lower, 0), Err(GenerateError::InvalidLength));
    assert_eq!(draw_limit(CharacterClass::Digit, 1), Err(GenerateError::InvalidLength));
    assert_eq!(draw_limit(CharacterClass::Upper, 0), Err(GenerateError::InvalidLength));
    assert_eq!(draw_limit(CharacterClass::Lower, 3), Ok(1));
    assert_eq!(draw_limit(CharacterClass::Digit, 2), Ok(1));
    assert_eq!(draw_limit(CharacterClass::Upper, 1), Ok(1));
}

#[test]
fn counts_from_draws_give_the_rest_to_upper() {
    assert_eq!(
        ClassCounts::from_draws(12, false, 0, 3, 4),
        Ok(ClassCounts { upper: 5, lower: 3, digit: 4, symbol: 0 })
    );
    assert_eq!(
        ClassCounts::from_draws(12, true, 3, 7, 1),
        Ok(ClassCounts { upper: 1, lower: 7, digit: 1, symbol: 3 })
    );
    assert_eq!(
        ClassCounts::from_draws(5, true, 1, 2, 1),
        Ok(ClassCounts { upper: 1, lower: 2, digit: 1, symbol: 1 })
    );
    assert_eq!(
        ClassCounts::from_draws(3, false, 0, 1, 1),
        Ok(ClassCounts { upper: 1, lower: 1, digit: 1, symbol: 0 })
    );
}

#[test]
fn draws_outside_their_ranges_are_refused() {
    let refused = Err(GenerateError::InvalidLength);
    assert_eq!(ClassCounts::from_draws(12, true, 4, 1, 1), refused);
    assert_eq!(ClassCounts::from_draws(12, true, 0, 1, 1), refused);
    assert_eq!(ClassCounts::from_draws(12, false, 1, 1, 1), refused);
    assert_eq!(ClassCounts::from_draws(12, false, 0, 11, 1), refused);
    assert_eq!(ClassCounts::from_draws(12, false, 0, 0, 1), refused);
    assert_eq!(ClassCounts::from_draws(12, false, 0, 5, 7), refused);
    assert_eq!(ClassCounts::from_draws(12, false, 0, 5, 0), refused);
    assert_eq!(ClassCounts::from_draws(2, false, 0, 1, 1), refused);
    assert_eq!(ClassCounts::from_draws(0, false, 0, 0, 0), refused);
}

#[test]
fn drawn_partitions_split_the_length() {
    let mut rng = rand::thread_rng();
    for length in 3..60 {
        for _ in 0..20 {
            let counts = partition_lengths(&mut rng, length, false).unwrap();
            assert_eq!(counts.symbol, 0);
            assert!(counts.upper >= 1 && counts.lower >= 1 && counts.digit >= 1);
            assert_eq!(counts.upper + counts.lower + counts.digit, length);
        }
    }
    for length in 4..60 {
        for _ in 0..20 {
            let counts = partition_lengths(&mut rng, length, true).unwrap();
            assert!(1 <= counts.symbol && counts.symbol <= length / 4);
            assert!(counts.upper >= 1 && counts.lower >= 1 && counts.digit >= 1);
            assert_eq!(counts.upper + counts.lower + counts.digit + counts.symbol, length);
        }
    }
}

#[test]
fn partition_fails_below_the_minimum() {
    let mut rng = rand::thread_rng();
    for length in 0..3 {
        assert_eq!(partition_lengths(&mut rng, length, false), Err(GenerateError::InvalidLength));
    }
    for length in 0..4 {
        assert_eq!(partition_lengths(&mut rng, length, true), Err(GenerateError::InvalidLength));
    }
}

#[test]
fn drawn_partitions_are_not_constant() {
    let mut rng = rand::thread_rng();
    let first = partition_lengths(&mut rng, 40, true).unwrap();
    let mut differs = false;
    for _ in 0..200 {
        if partition_lengths(&mut rng, 40, true).unwrap() != first {
            differs = true;
        }
    }
    assert!(differs);
}

#[test]
fn fixed_alphabets_have_their_sizes() {
    assert_eq!(chars_of(UPPER).len(), 26);
    assert_eq!(chars_of(LOWER).len(), 26);
    assert_eq!(chars_of(NUMBER).len(), 10);
    assert_eq!(CharacterClass::Upper.alphabet_chars("!?"), chars_of("ABCDEFGHIJKLMNOPQRSTUVWXYZ"));
    assert_eq!(CharacterClass::Lower.alphabet_chars("!?"), chars_of("abcdefghijklmnopqrstuvwxyz"));
    assert_eq!(CharacterClass::Digit.alphabet_chars("!?"), chars_of("0123456789"));
    assert_eq!(CharacterClass::Symbol.alphabet_chars("!?"), vec!['!', '?']);
    assert_eq!(CharacterClass::Symbol.alphabet_chars(""), Vec::<char>::new());
}

#[test]
fn alphabets_of_a_request() {
    let alphabets = Alphabets::new("!!?");
    assert_eq!(alphabets.of(CharacterClass::Symbol), &vec!['!', '!', '?']);
    assert_eq!(alphabets.of(CharacterClass::Upper).len(), 26);
    assert_eq!(alphabets.of(CharacterClass::Lower)[25], 'z');
    assert_eq!(alphabets.of(CharacterClass::Digit)[0], '0');
}

#[test]
fn selected_characters_follow_the_picks() {
    let alphabet = chars_of("abcdef");
    let mut buffer = vec!['X'];
    select_chars(&alphabet, &vec![5, 0, 0, 2], &mut buffer);
    assert_eq!(buffer, vec!['X', 'f', 'a', 'a', 'c']);
    select_chars(&alphabet, &vec![], &mut buffer);
    assert_eq!(buffer, vec!['X', 'f', 'a', 'a', 'c']);
}

#[test]
fn same_picks_select_the_same_characters() {
    let alphabet = chars_of(UPPER);
    let picks = vec![25, 0, 12, 12, 7];
    let mut first = Vec::new();
    let mut second = Vec::new();
    select_chars(&alphabet, &picks, &mut first);
    select_chars(&alphabet, &picks, &mut second);
    assert_eq!(first, second);
    assert_eq!(first, vec!['Z', 'A', 'M', 'M', 'H']);
}

#[test]
fn picks_lie_below_the_bound() {
    let mut rng = rand::thread_rng();
    let picks = draw_picks(&mut rng, 3, 500).unwrap();
    assert_eq!(picks.len(), 500);
    assert!(picks.iter().all(|p| *p < 3));
    assert!(picks.iter().any(|p| *p != picks[0]));
    assert_eq!(draw_picks(&mut rng, 1, 4), Ok(vec![0, 0, 0, 0]));
    assert_eq!(draw_picks(&mut rng, 0, 0), Ok(vec![]));
}

#[test]
fn picks_from_nothing_are_an_empty_alphabet() {
    let mut rng = rand::thread_rng();
    assert_eq!(draw_picks(&mut rng, 0, 1), Err(GenerateError::EmptyAlphabet));
}

#[test]
fn sampling_an_empty_alphabet_fails_and_keeps_the_buffer() {
    let mut rng = rand::thread_rng();
    let mut buffer = vec!['k'];
    assert_eq!(sample_class(&mut rng, &vec![], 2, &mut buffer), Err(GenerateError::EmptyAlphabet));
    assert_eq!(buffer, vec!['k']);
    assert_eq!(sample_class(&mut rng, &vec![], 0, &mut buffer), Ok(()));
    assert_eq!(buffer, vec!['k']);
}

#[test]
fn sampling_appends_characters_of_the_alphabet() {
    let mut rng = rand::thread_rng();
    let alphabet = chars_of("xyz");
    let mut buffer = vec!['1', '2'];
    assert_eq!(sample_class(&mut rng, &alphabet, 100, &mut buffer), Ok(()));
    assert_eq!(buffer.len(), 102);
    assert_eq!(&buffer[..2], &['1', '2']);
    assert!(buffer[2..].iter().all(|c| alphabet.contains(c)));
    assert!(buffer[2..].iter().any(|c| *c != buffer[2]));
}
