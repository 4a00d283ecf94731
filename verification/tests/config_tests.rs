use webgal_craft::game_config::{
    apply_update, parse_game_config, update_game_config, ConfigEntry,
};

fn entry_value<'a>(entries: &'a [ConfigEntry], key: &str) -> Option<&'a str> {
    entries.iter().find(|e| e.key == key).map(|e| e.value.as_str())
}

#[test]
fn parse_reads_well_formed_lines() {
    let entries = parse_game_config("Game_name: My Game;\nGame_key: abc123;\n");
    assert_eq!(entries.len(), 2);
    assert_eq!(entry_value(&entries, "gameName"), Some("My Game"));
    assert_eq!(entry_value(&entries, "gameKey"), Some("abc123"));
}

#[test]
fn parse_skips_malformed_lines() {
    let entries = parse_game_config("no semicolon\n\nno colon;\nTitle_font: big;");
    assert_eq!(entries.len(), 1);
    assert_eq!(entry_value(&entries, "titleFont"), Some("big"));
}

#[test]
fn parse_trims_whitespace() {
    let entries = parse_game_config("  Game_name :  spaced  ;  \r\n");
    assert_eq!(entry_value(&entries, "gameName"), Some("spaced"));
}

#[test]
fn parse_lets_later_lines_win() {
    let entries = parse_game_config("Game_name: first;\nGame_name: second;");
    assert_eq!(entries.len(), 1);
    assert_eq!(entry_value(&entries, "gameName"), Some("second"));
}

#[test]
fn update_replaces_the_value_in_place() {
    let updated = apply_update("Game_name: old;\nOther: x;", "gameName", "new");
    assert_eq!(updated, "Game_name: new;\nOther: x;");
}

#[test]
fn update_matches_keys_case_insensitively_but_keeps_spelling() {
    let updated = apply_update("GAME_NAME:old;", "gameName", "new");
    assert_eq!(updated, "GAME_NAME: new;");
}

#[test]
fn update_replaces_every_occurrence() {
    let updated = apply_update("game_name: a; game_name: b;", "gameName", "c");
    assert_eq!(updated, "game_name: c; game_name: c;");
}

#[test]
fn update_appends_a_missing_key() {
    let updated = apply_update("Game_name: x;", "textSpeed", "5");
    assert_eq!(updated, "Game_name: x;\ntext_speed: 5;");
}

#[test]
fn update_appends_without_doubling_newlines() {
    let updated = apply_update("Game_name: x;\n", "textSpeed", "5");
    assert_eq!(updated, "Game_name: x;\ntext_speed: 5;");
}

#[test]
fn update_on_empty_content_writes_the_entry() {
    let updated = apply_update("", "textSpeed", "5");
    assert_eq!(updated, "text_speed: 5;");
}

#[test]
fn update_applies_all_entries_in_order() {
    let entries = vec![
        ConfigEntry { key: String::from("gameName"), value: String::from("demo") },
        ConfigEntry { key: String::from("textSpeed"), value: String::from("3") },
    ];
    let updated = update_game_config("game_name: old;", &entries);
    assert_eq!(updated, "game_name: demo;\ntext_speed: 3;");
}

#[test]
fn parse_reads_back_what_update_wrote() {
    let content = apply_update(apply_update("", "gameName", "demo").as_str(), "textSpeed", "3");
    let entries = parse_game_config(&content);
    assert_eq!(entry_value(&entries, "gameName"), Some("demo"));
    assert_eq!(entry_value(&entries, "textSpeed"), Some("3"));
}
