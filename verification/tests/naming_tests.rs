use webgal_craft::naming::{camel_to_snake, snake_to_camel};

#[test]
fn snake_to_camel_basic() {
    assert_eq!(snake_to_camel("game_name"), "gameName");
    assert_eq!(snake_to_camel("title_font_size"), "titleFontSize");
}

#[test]
fn snake_to_camel_lowercases_plain_text() {
    assert_eq!(snake_to_camel("Title"), "title");
    assert_eq!(snake_to_camel("ABC"), "abc");
}

#[test]
fn snake_to_camel_leading_underscore_capitalizes() {
    assert_eq!(snake_to_camel("_x"), "X");
    assert_eq!(snake_to_camel("a__b"), "aB");
}

#[test]
fn snake_to_camel_empty() {
    assert_eq!(snake_to_camel(""), "");
}

#[test]
fn camel_to_snake_basic() {
    assert_eq!(camel_to_snake("gameName"), "game_name");
    assert_eq!(camel_to_snake("titleFontSize"), "title_font_size");
}

#[test]
fn camel_to_snake_leading_capital_gets_no_underscore() {
    assert_eq!(camel_to_snake("Title"), "title");
}

#[test]
fn camel_to_snake_keeps_digits_and_symbols() {
    assert_eq!(camel_to_snake("a1B2"), "a1_b2");
}

#[test]
fn naming_round_trip_example() {
    assert_eq!(snake_to_camel(&camel_to_snake("gameName")), "gameName");
    assert_eq!(camel_to_snake(&snake_to_camel("game_name")), "game_name");
}
