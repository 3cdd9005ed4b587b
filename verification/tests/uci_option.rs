use flying_fish::uci_option::{UCIOption, UCIOptionType};

#[test]
fn check_option_line_with_default() {
    let o = UCIOption::new("Ponder".to_string(), UCIOptionType::Check, Some("true".to_string()));
    assert_eq!(o.to_option_string(), "option Ponder type check default true");
}

#[test]
fn button_option_line_without_default() {
    let o = UCIOption::new("Clear Hash".to_string(), UCIOptionType::Button, None);
    assert_eq!(o.to_option_string(), "option Clear Hash type button");
}

#[test]
fn string_option_line() {
    let o = UCIOption::new("Book".to_string(), UCIOptionType::String, Some("Main.bin".to_string()));
    assert_eq!(o.to_option_string(), "option Book type string default Main.bin");
}

#[test]
fn spin_option_line_lists_range() {
    let o = UCIOption::new(
        "Hash".to_string(),
        UCIOptionType::Spin { range_start: -1, range_end: 64 },
        Some("16".to_string()),
    );
    assert_eq!(
        o.to_option_string(),
        "option Hash type spin { range_start: -1, range_end: 64 } default 16min -1 max 64"
    );
}

#[test]
fn combo_option_line_lists_choices() {
    let o = UCIOption::new(
        "Style".to_string(),
        UCIOptionType::Combo { options: vec!["Solid".to_string(), "Risky".to_string()] },
        Some("Solid".to_string()),
    );
    assert_eq!(
        o.to_option_string(),
        "option Style type combo { options: [\"solid\", \"risky\"] } default Solidoption Solid option Risky"
    );
}

#[test]
fn combo_option_line_without_choices() {
    let o = UCIOption::new("Empty".to_string(), UCIOptionType::Combo { options: vec![] }, None);
    assert_eq!(o.to_option_string(), "option Empty type combo { options: [] }");
}
