use refmt::case::{capitalize_word, determine_case_format};
use refmt::CaseFormat;

fn words(ws: &[&str]) -> Vec<String> {
    ws.iter().map(|w| w.to_string()).collect()
}

const ALL: [CaseFormat; 6] = [
    CaseFormat::CamelCase,
    CaseFormat::PascalCase,
    CaseFormat::SnakeCase,
    CaseFormat::ScreamingSnakeCase,
    CaseFormat::KebabCase,
    CaseFormat::ScreamingKebabCase,
];

#[test]
fn test_camel_split() {
    let words = CaseFormat::CamelCase.split_words("firstName");
    assert_eq!(words, vec!["first", "name"]);
}

#[test]
fn test_snake_split() {
    let words = CaseFormat::SnakeCase.split_words("first_name");
    assert_eq!(words, vec!["first", "name"]);
}

#[test]
fn test_camel_join() {
    let words = vec!["first".to_string(), "name".to_string()];
    assert_eq!(CaseFormat::CamelCase.join_words(&words, "", ""), "firstName");
}

#[test]
fn test_snake_join() {
    let words = vec!["first".to_string(), "name".to_string()];
    assert_eq!(CaseFormat::SnakeCase.join_words(&words, "", ""), "first_name");
}

#[test]
fn test_with_prefix_suffix() {
    let words = vec!["first".to_string(), "name".to_string()];
    assert_eq!(
        CaseFormat::SnakeCase.join_words(&words, "old_", "_v1"),
        "old_first_name_v1"
    );
}

#[test]
fn converter_test_camel_to_snake() {
    let words = CaseFormat::CamelCase.split_words("firstName");
    assert_eq!(words, vec!["first", "name"]);
    assert_eq!(CaseFormat::SnakeCase.join_words(&words, "", ""), "first_name");
}

#[test]
fn converter_test_snake_to_camel() {
    let words = CaseFormat::SnakeCase.split_words("first_name");
    assert_eq!(words, vec!["first", "name"]);
    assert_eq!(CaseFormat::CamelCase.join_words(&words, "", ""), "firstName");
}

#[test]
fn converter_test_pascal_to_kebab() {
    let words = CaseFormat::PascalCase.split_words("FirstName");
    assert_eq!(words, vec!["first", "name"]);
    assert_eq!(CaseFormat::KebabCase.join_words(&words, "", ""), "first-name");
}

#[test]
fn converter_test_kebab_to_screaming_snake() {
    let words = CaseFormat::KebabCase.split_words("first-name");
    assert_eq!(words, vec!["first", "name"]);
    assert_eq!(CaseFormat::ScreamingSnakeCase.join_words(&words, "", ""), "FIRST_NAME");
}

#[test]
fn converter_test_camel_pattern_match() {
    let pattern = regex::Regex::new(CaseFormat::CamelCase.pattern()).unwrap();
    assert!(pattern.is_match("firstName"));
    assert!(pattern.is_match("myVariableName"));
    assert!(!pattern.is_match("firstname"));
    assert!(!pattern.is_match("FirstName"));
}

#[test]
fn converter_test_pascal_pattern_match() {
    let pattern = regex::Regex::new(CaseFormat::PascalCase.pattern()).unwrap();
    assert!(pattern.is_match("FirstName"));
    assert!(pattern.is_match("MyVariableName"));
    assert!(!pattern.is_match("firstName"));
    assert!(!pattern.is_match("FIRSTNAME"));
}

#[test]
fn converter_test_snake_pattern_match() {
    let pattern = regex::Regex::new(CaseFormat::SnakeCase.pattern()).unwrap();
    assert!(pattern.is_match("first_name"));
    assert!(pattern.is_match("my_variable_name"));
    assert!(!pattern.is_match("firstname"));
    assert!(!pattern.is_match("FIRST_NAME"));
}

#[test]
fn kebab_and_screaming_patterns_match() {
    let kebab = regex::Regex::new(CaseFormat::KebabCase.pattern()).unwrap();
    assert!(kebab.is_match("first-name"));
    assert!(!kebab.is_match("first_name"));
    let screaming = regex::Regex::new(CaseFormat::ScreamingSnakeCase.pattern()).unwrap();
    assert!(screaming.is_match("FIRST_NAME"));
    assert!(!screaming.is_match("first_name"));
    let screaming_kebab = regex::Regex::new(CaseFormat::ScreamingKebabCase.pattern()).unwrap();
    assert!(screaming_kebab.is_match("FIRST-NAME"));
    assert!(!screaming_kebab.is_match("first-name"));
}

#[test]
fn join_each_style() {
    let ws = words(&["user", "id", "v2"]);
    assert_eq!(CaseFormat::CamelCase.join_words(&ws, "", ""), "userIdV2");
    assert_eq!(CaseFormat::PascalCase.join_words(&ws, "", ""), "UserIdV2");
    assert_eq!(CaseFormat::SnakeCase.join_words(&ws, "", ""), "user_id_v2");
    assert_eq!(CaseFormat::ScreamingSnakeCase.join_words(&ws, "", ""), "USER_ID_V2");
    assert_eq!(CaseFormat::KebabCase.join_words(&ws, "", ""), "user-id-v2");
    assert_eq!(CaseFormat::ScreamingKebabCase.join_words(&ws, "", ""), "USER-ID-V2");
}

#[test]
fn join_no_words_is_empty_without_affixes() {
    let ws: Vec<String> = Vec::new();
    for f in ALL {
        assert_eq!(f.join_words(&ws, "pre_", "_post"), "");
    }
}

#[test]
fn join_lowers_camel_first_word() {
    let ws = words(&["First", "name"]);
    assert_eq!(CaseFormat::CamelCase.join_words(&ws, "", ""), "firstName");
}

#[test]
fn split_drops_empty_pieces() {
    assert_eq!(CaseFormat::SnakeCase.split_words("__a__b_"), vec!["a", "b"]);
    assert_eq!(CaseFormat::KebabCase.split_words("-x--y-"), vec!["x", "y"]);
    assert_eq!(CaseFormat::SnakeCase.split_words(""), Vec::<String>::new());
}

#[test]
fn split_screaming_lowers_words() {
    assert_eq!(CaseFormat::ScreamingSnakeCase.split_words("MAX_SIZE_2"), vec!["max", "size", "2"]);
    assert_eq!(CaseFormat::ScreamingKebabCase.split_words("FIRST-NAME"), vec!["first", "name"]);
}

#[test]
fn split_humps_each_uppercase_letter() {
    assert_eq!(CaseFormat::PascalCase.split_words("HTTPServer"), vec!["h", "t", "t", "p", "server"]);
    assert_eq!(CaseFormat::CamelCase.split_words("var2Name"), vec!["var2", "name"]);
    assert_eq!(CaseFormat::CamelCase.split_words("x"), vec!["x"]);
}

#[test]
fn split_undoes_join_in_every_style() {
    let ws = words(&["alpha", "b2", "c"]);
    for f in ALL {
        let joined = f.join_words(&ws, "", "");
        assert_eq!(f.split_words(&joined), ws, "style {:?}", f);
    }
}

#[test]
fn join_undoes_split_on_matching_identifiers() {
    let samples = [
        (CaseFormat::CamelCase, "myVar2Name"),
        (CaseFormat::PascalCase, "UserAccountId"),
        (CaseFormat::SnakeCase, "user_name_2"),
        (CaseFormat::ScreamingSnakeCase, "MAX_RETRY_3"),
        (CaseFormat::KebabCase, "first-name"),
        (CaseFormat::ScreamingKebabCase, "FIRST-NAME"),
    ];
    for (f, s) in samples {
        let ws = f.split_words(s);
        assert_eq!(f.join_words(&ws, "", ""), s);
    }
}

#[test]
fn digits_next_to_word_starts_are_lossy_across_styles() {
    let ws = CaseFormat::SnakeCase.split_words("var_2");
    let camel = CaseFormat::CamelCase.join_words(&ws, "", "");
    assert_eq!(camel, "var2");
    assert_eq!(CaseFormat::CamelCase.split_words(&camel), vec!["var2"]);
}

#[test]
fn capitalize_word_raises_first_letter_only() {
    assert_eq!(capitalize_word("name"), "Name");
    assert_eq!(capitalize_word("2x"), "2x");
    assert_eq!(capitalize_word(""), "");
}

#[test]
fn unicode_case_mapping_is_used() {
    let ws = words(&["über", "straße"]);
    assert_eq!(CaseFormat::PascalCase.join_words(&ws, "", ""), "ÜberStraße");
    assert_eq!(CaseFormat::ScreamingSnakeCase.join_words(&ws, "", ""), "ÜBER_STRASSE");
    assert_eq!(CaseFormat::CamelCase.split_words("ünderÜber"), vec!["ünder", "über"]);
}

#[test]
fn flags_pick_first_style_set() {
    assert_eq!(determine_case_format(true, true, false, false, false, false), CaseFormat::CamelCase);
    assert_eq!(determine_case_format(false, true, false, false, false, false), CaseFormat::PascalCase);
    assert_eq!(determine_case_format(false, false, true, false, false, false), CaseFormat::SnakeCase);
    assert_eq!(determine_case_format(false, false, false, true, false, false), CaseFormat::ScreamingSnakeCase);
    assert_eq!(determine_case_format(false, false, false, false, true, false), CaseFormat::KebabCase);
    assert_eq!(determine_case_format(false, false, false, false, false, true), CaseFormat::ScreamingKebabCase);
    assert_eq!(determine_case_format(false, false, false, false, false, false), CaseFormat::ScreamingKebabCase);
}
