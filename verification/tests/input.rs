use password_generator::input::{
    convert_isize_to_usize, resolve, resolve_count, resolve_length, selected_symbols, value_of_field,
    Adjustment, Resolved, SymbolChoice, ENABLE_SYMBOLS,
};
use password_generator::model::GeneratedPassword;

fn choice(value: &str, checked: bool) -> SymbolChoice {
    SymbolChoice { value: value.to_string(), checked }
}

#[test]
fn field_holds_a_number() {
    assert_eq!(value_of_field("password-length", Some("12")), Ok(12));
    assert_eq!(value_of_field("password-length", Some("-3")), Ok(-3));
    assert_eq!(value_of_field("password-number", Some("+1000")), Ok(1000));
}

#[test]
fn field_holds_no_number() {
    assert_eq!(
        value_of_field("password-length", Some("")),
        Err("Invalid value for password-length".to_string())
    );
    assert_eq!(
        value_of_field("password-number", Some("1.5")),
        Err("Invalid value for password-number".to_string())
    );
    assert_eq!(value_of_field("", Some("abc")), Err("Invalid value for ".to_string()));
}

#[test]
fn field_does_not_exist() {
    assert_eq!(
        value_of_field("password-length", None),
        Err("id: password-length does not exist".to_string())
    );
}

#[test]
fn converts_numbers_that_are_not_negative() {
    assert_eq!(convert_isize_to_usize(0), Ok(0));
    assert_eq!(convert_isize_to_usize(1000), Ok(1000));
    assert_eq!(convert_isize_to_usize(isize::MAX), Ok(isize::MAX as usize));
}

#[test]
fn refuses_negative_numbers_by_name() {
    assert_eq!(
        convert_isize_to_usize(-1),
        Err("Cannot convert negative isize: -1 to usize".to_string())
    );
    assert_eq!(
        convert_isize_to_usize(-250),
        Err("Cannot convert negative isize: -250 to usize".to_string())
    );
    assert_eq!(
        convert_isize_to_usize(isize::MIN),
        Err(format!("Cannot convert negative isize: {} to usize", isize::MIN))
    );
}

#[test]
fn length_is_brought_between_five_and_a_thousand() {
    assert_eq!(resolve_length(&Ok(12)), Resolved { value: 12, adjustment: Adjustment::Kept });
    assert_eq!(resolve_length(&Ok(5)), Resolved { value: 5, adjustment: Adjustment::Kept });
    assert_eq!(resolve_length(&Ok(1000)), Resolved { value: 1000, adjustment: Adjustment::Kept });
    assert_eq!(resolve_length(&Ok(4)), Resolved { value: 5, adjustment: Adjustment::Raised });
    assert_eq!(resolve_length(&Ok(-7)), Resolved { value: 5, adjustment: Adjustment::Raised });
    assert_eq!(resolve_length(&Ok(isize::MIN)), Resolved { value: 5, adjustment: Adjustment::Raised });
    assert_eq!(resolve_length(&Ok(1001)), Resolved { value: 1000, adjustment: Adjustment::Lowered });
    assert_eq!(
        resolve_length(&Ok(isize::MAX)),
        Resolved { value: 1000, adjustment: Adjustment::Lowered }
    );
    assert_eq!(
        resolve_length(&Err("Invalid value for password-length".to_string())),
        Resolved { value: 5, adjustment: Adjustment::Defaulted }
    );
}

#[test]
fn count_is_brought_between_one_and_a_thousand() {
    assert_eq!(resolve_count(&Ok(5)), Resolved { value: 5, adjustment: Adjustment::Kept });
    assert_eq!(resolve_count(&Ok(1)), Resolved { value: 1, adjustment: Adjustment::Kept });
    assert_eq!(resolve_count(&Ok(0)), Resolved { value: 1, adjustment: Adjustment::Raised });
    assert_eq!(resolve_count(&Ok(-1)), Resolved { value: 1, adjustment: Adjustment::Raised });
    assert_eq!(resolve_count(&Ok(1000)), Resolved { value: 1000, adjustment: Adjustment::Kept });
    assert_eq!(resolve_count(&Ok(1001)), Resolved { value: 1000, adjustment: Adjustment::Lowered });
    assert_eq!(
        resolve_count(&Err("id: password-number does not exist".to_string())),
        Resolved { value: 1, adjustment: Adjustment::Defaulted }
    );
}

#[test]
fn other_bounds_resolve_alike() {
    assert_eq!(resolve(&Ok(3), 3, 3), Resolved { value: 3, adjustment: Adjustment::Kept });
    assert_eq!(resolve(&Ok(2), 3, 9), Resolved { value: 3, adjustment: Adjustment::Raised });
    assert_eq!(resolve(&Ok(10), 3, 9), Resolved { value: 9, adjustment: Adjustment::Lowered });
    assert_eq!(resolve(&Ok(-1), 0, 0), Resolved { value: 0, adjustment: Adjustment::Raised });
}

#[test]
fn resolved_requests_are_admitted() {
    let fields = [
        Ok(isize::MIN),
        Ok(-1),
        Ok(0),
        Ok(4),
        Ok(5),
        Ok(999),
        Ok(1000),
        Ok(1001),
        Ok(isize::MAX),
        Err("Invalid value for x".to_string()),
    ];
    for length in &fields {
        for count in &fields {
            let length = resolve_length(length).value;
            let count = resolve_count(count).value.min(3);
            let state = GeneratedPassword::generate_password(length, count, "!".to_string());
            assert!(state.is_ok());
        }
    }
}

#[test]
fn ticked_symbols_are_joined_in_order() {
    let choices = vec![choice("~", false), choice("!", true), choice("@", true), choice("#", false), choice("$", true)];
    assert_eq!(selected_symbols(&choices), "!@$");
}

#[test]
fn nothing_ticked_enables_nothing() {
    assert_eq!(selected_symbols(&vec![]), "");
    assert_eq!(selected_symbols(&vec![choice("!", false), choice("?", false)]), "");
}

#[test]
fn ticked_values_are_kept_whole() {
    let choices = vec![choice("ab", true), choice("", true), choice("b", true), choice("zz", false)];
    assert_eq!(selected_symbols(&choices), "abb");
}

#[test]
fn palette_holds_thirty_symbols() {
    assert_eq!(ENABLE_SYMBOLS.chars().count(), 30);
    assert!(ENABLE_SYMBOLS.chars().all(|c| c.is_ascii_punctuation()));
    let all: Vec<SymbolChoice> = ENABLE_SYMBOLS.chars().map(|c| choice(&c.to_string(), true)).collect();
    assert_eq!(selected_symbols(&all), ENABLE_SYMBOLS);
}
