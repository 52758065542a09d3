use zip_codes_plus::normalize::city_key;
use zip_codes_plus::normalize::lower_char;
use zip_codes_plus::normalize::title_case;
use zip_codes_plus::normalize::upper_char;

#[test]
fn title_case_uppercases_word_starts() {
    assert_eq!(title_case("WAUKESHA"), "Waukesha");
    assert_eq!(title_case("new york city"), "New York City");
    assert_eq!(title_case("PORT ST. LUCIE"), "Port St. Lucie");
}

#[test]
fn title_case_keeps_empty_and_spaces() {
    assert_eq!(title_case(""), "");
    assert_eq!(title_case("   "), "   ");
    assert_eq!(title_case("A  B"), "A  B");
}

#[test]
fn title_case_leaves_non_letters_alone() {
    assert_eq!(title_case("29 PALMS"), "29 Palms");
    assert_eq!(title_case("O'FALLON"), "O'fallon");
}

#[test]
fn title_case_is_idempotent_on_samples() {
    let once = title_case("MOUNT PLEASANT");
    let twice = title_case(&once);
    assert_eq!(once, twice);
    assert_eq!(once, "Mount Pleasant");
}

#[test]
fn city_key_appends_state_unchanged() {
    assert_eq!(city_key("WESTWOOD", "NJ"), "Westwood, NJ");
    assert_eq!(city_key("Westwood", "NJ"), "Westwood, NJ");
    assert_eq!(city_key("WHIPPANY", "NJ"), "Whippany, NJ");
}

#[test]
fn case_functions_touch_ascii_letters_only() {
    assert_eq!(upper_char('a'), 'A');
    assert_eq!(upper_char('z'), 'Z');
    assert_eq!(upper_char('A'), 'A');
    assert_eq!(upper_char('3'), '3');
    assert_eq!(lower_char('A'), 'a');
    assert_eq!(lower_char('Z'), 'z');
    assert_eq!(lower_char('b'), 'b');
    assert_eq!(lower_char(' '), ' ');
}
