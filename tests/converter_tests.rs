use refmt::{CaseConverter, CaseFormat, ConvertError};

fn converter(
    from: CaseFormat,
    to: CaseFormat,
    prefix: &str,
    suffix: &str,
    strip_prefix: Option<&str>,
    strip_suffix: Option<&str>,
    replace_prefix: Option<(&str, &str)>,
    replace_suffix: Option<(&str, &str)>,
    word_filter: Option<&str>,
) -> CaseConverter {
    CaseConverter::new(
        from,
        to,
        None,
        false,
        false,
        prefix.to_string(),
        suffix.to_string(),
        strip_prefix.map(|s| s.to_string()),
        strip_suffix.map(|s| s.to_string()),
        replace_prefix.map(|p| p.0.to_string()),
        replace_prefix.map(|p| p.1.to_string()),
        replace_suffix.map(|p| p.0.to_string()),
        replace_suffix.map(|p| p.1.to_string()),
        None,
        word_filter.map(|s| s.to_string()),
    )
    .unwrap()
}

fn plain(from: CaseFormat, to: CaseFormat) -> CaseConverter {
    converter(from, to, "", "", None, None, None, None, None)
}

#[test]
fn library_integration_test_library_basic_conversion() {
    let c = plain(CaseFormat::CamelCase, CaseFormat::SnakeCase);
    let out = c.rewrite("myVariable = 'test'\nanotherVar = 123");
    assert!(out.text.contains("my_variable"));
    assert!(out.text.contains("another_var"));
    assert!(!out.text.contains("myVariable"));
    assert!(!out.text.contains("anotherVar"));
    assert!(out.changed);
}

#[test]
fn library_integration_test_library_with_prefix() {
    let c = converter(CaseFormat::CamelCase, CaseFormat::SnakeCase, "old_", "", None, None, None, None, None);
    let out = c.rewrite("let userName = 'alice';");
    assert!(out.text.contains("old_user_name"));
}

#[test]
fn library_integration_test_library_with_suffix() {
    let c = converter(CaseFormat::CamelCase, CaseFormat::SnakeCase, "", "_v2", None, None, None, None, None);
    let out = c.rewrite("const myValue = 42;");
    assert!(out.text.contains("my_value_v2"));
}

#[test]
fn library_integration_test_library_word_filter() {
    let c = converter(CaseFormat::CamelCase, CaseFormat::SnakeCase, "", "", None, None, None, None, Some("^get.*"));
    let out = c.rewrite("getUserName = lambda: 'alice'\nmyVariable = 123");
    assert!(out.text.contains("get_user_name"));
    assert!(out.text.contains("myVariable"));
    assert!(!out.text.contains("my_variable"));
}

#[test]
fn library_integration_test_library_all_case_formats() {
    let test_cases = vec![
        (CaseFormat::CamelCase, CaseFormat::SnakeCase, "firstName", "first_name"),
        (CaseFormat::SnakeCase, CaseFormat::CamelCase, "first_name", "firstName"),
        (CaseFormat::PascalCase, CaseFormat::KebabCase, "FirstName", "first-name"),
        (CaseFormat::KebabCase, CaseFormat::PascalCase, "first-name", "FirstName"),
        (CaseFormat::SnakeCase, CaseFormat::ScreamingSnakeCase, "first_name", "FIRST_NAME"),
        (CaseFormat::KebabCase, CaseFormat::ScreamingKebabCase, "first-name", "FIRST-NAME"),
    ];
    for (from, to, input, expected) in test_cases {
        let c = plain(from, to);
        let out = c.rewrite(input);
        assert_eq!(out.text, expected, "Failed conversion from {:?} to {:?}", from, to);
    }
}

#[test]
fn test_library_strip_prefix() {
    let c = converter(CaseFormat::PascalCase, CaseFormat::SnakeCase, "", "", Some("My"), None, None, None, None);
    let out = c.rewrite("MyUserName user;\nMyUserId id;");
    assert!(out.text.contains("user_name"));
    assert!(out.text.contains("user_id"));
}

#[test]
fn test_library_strip_suffix() {
    let c = converter(CaseFormat::SnakeCase, CaseFormat::CamelCase, "", "", None, Some("_tmp"), None, None, None);
    let out = c.rewrite("user_name_tmp = 'alice'\nuser_id_tmp = 123");
    assert!(out.text.contains("userName"));
    assert!(out.text.contains("userId"));
    assert!(!out.text.contains("_tmp"));
}

#[test]
fn test_library_replace_prefix() {
    let c = converter(CaseFormat::PascalCase, CaseFormat::SnakeCase, "", "", None, None, Some(("Old", "New")), None, None);
    let out = c.rewrite("OldUserService service;\nOldDataProvider provider;");
    assert!(out.text.contains("new_user_service"));
    assert!(out.text.contains("new_data_provider"));
}

#[test]
fn test_library_strip_and_add_prefix() {
    let c = converter(CaseFormat::PascalCase, CaseFormat::SnakeCase, "new_", "", Some("Old"), None, None, None, None);
    let out = c.rewrite("OldUserName userName;\nOldUserId userId;");
    assert!(out.text.contains("new_user_name"));
    assert!(out.text.contains("new_user_id"));
}

#[test]
fn scenario_camel_to_snake() {
    let c = plain(CaseFormat::CamelCase, CaseFormat::SnakeCase);
    let out = c.rewrite("myVariable = 'test'");
    assert_eq!(out.text, "my_variable = 'test'");
    assert!(out.changed);
}

#[test]
fn scenario_pascal_strip_prefix() {
    let c = converter(CaseFormat::PascalCase, CaseFormat::SnakeCase, "", "", Some("My"), None, None, None, None);
    assert_eq!(c.rewrite("MyUserName").text, "user_name");
}

#[test]
fn scenario_snake_strip_suffix() {
    let c = converter(CaseFormat::SnakeCase, CaseFormat::CamelCase, "", "", None, Some("_tmp"), None, None, None);
    assert_eq!(c.rewrite("user_name_tmp").text, "userName");
}

#[test]
fn scenario_word_filter() {
    let c = converter(CaseFormat::CamelCase, CaseFormat::SnakeCase, "", "", None, None, None, None, Some("^get.*"));
    let out = c.rewrite("getUserName = 1\nmyVariable = 2");
    assert_eq!(out.text, "get_user_name = 1\nmyVariable = 2");
}

#[test]
fn scenario_kebab_to_screaming_snake() {
    let c = plain(CaseFormat::KebabCase, CaseFormat::ScreamingSnakeCase);
    assert_eq!(c.rewrite("first-name").text, "FIRST_NAME");
}

#[test]
fn filter_rejection_keeps_raw_token() {
    let c = converter(CaseFormat::PascalCase, CaseFormat::SnakeCase, "x_", "", Some("My"), None, None, None, Some("^Zzz"));
    let out = c.rewrite("MyUserName here");
    assert_eq!(out.text, "MyUserName here");
    assert!(!out.changed);
    assert_eq!(c.convert("MyUserName"), "MyUserName");
    let c = converter(CaseFormat::PascalCase, CaseFormat::SnakeCase, "", "", Some("My"), None, None, None, Some("^User"));
    assert_eq!(c.convert("MyUserName"), "user_name");
}

#[test]
fn filter_tests_processed_name() {
    let c = converter(CaseFormat::PascalCase, CaseFormat::SnakeCase, "", "", Some("My"), None, None, None, Some("^User"));
    assert_eq!(c.rewrite("MyUserName MyDataBase").text, "user_name MyDataBase");
}

#[test]
fn same_style_text_is_unchanged() {
    let c = plain(CaseFormat::SnakeCase, CaseFormat::SnakeCase);
    let input = "let user_name = other_value_2; plain words";
    let out = c.rewrite(input);
    assert_eq!(out.text, input);
    assert!(!out.changed);
    let c = plain(CaseFormat::CamelCase, CaseFormat::SnakeCase);
    let out = c.rewrite("already_snake and more_text");
    assert_eq!(out.text, "already_snake and more_text");
    assert!(!out.changed);
}

#[test]
fn replace_prefix_to_without_from_is_rejected() {
    for f in [CaseFormat::CamelCase, CaseFormat::KebabCase] {
        let r = CaseConverter::new(
            f, CaseFormat::SnakeCase, None, false, false, String::new(), String::new(),
            None, None, None, Some("New".to_string()), None, None,
            Some("[".to_string()), Some("(".to_string()),
        );
        assert_eq!(r.err(), Some(ConvertError::ReplacePrefixWithoutFrom));
    }
}

#[test]
fn replace_suffix_to_without_from_is_rejected() {
    let r = CaseConverter::new(
        CaseFormat::CamelCase, CaseFormat::SnakeCase, None, false, false, String::new(), String::new(),
        None, None, None, None, None, Some("_new".to_string()), None, None,
    );
    assert_eq!(r.err(), Some(ConvertError::ReplaceSuffixWithoutFrom));
}

#[test]
fn invalid_word_filter_is_rejected() {
    let r = CaseConverter::new(
        CaseFormat::CamelCase, CaseFormat::SnakeCase, None, false, false, String::new(), String::new(),
        None, None, None, None, None, None, None, Some("(unclosed".to_string()),
    );
    assert_eq!(r.err(), Some(ConvertError::InvalidWordFilter));
}

#[test]
fn invalid_glob_is_rejected() {
    let r = CaseConverter::new(
        CaseFormat::CamelCase, CaseFormat::SnakeCase, None, false, false, String::new(), String::new(),
        None, None, None, None, None, None, Some("a[".to_string()), None,
    );
    assert_eq!(r.err(), Some(ConvertError::InvalidGlob));
}

#[test]
fn replace_suffix_applies() {
    let c = converter(CaseFormat::SnakeCase, CaseFormat::PascalCase, "", "", None, None, None, Some(("_old", "_new")), None);
    assert_eq!(c.rewrite("user_id_old").text, "UserIdNew");
    assert_eq!(c.prepare("user_id_old"), "user_id_new");
}

#[test]
fn prepare_applies_steps_in_order() {
    let c = converter(
        CaseFormat::SnakeCase, CaseFormat::CamelCase, "", "",
        Some("m_"), Some("_t"), Some(("old", "new")), Some(("_x", "_y")), None,
    );
    assert_eq!(c.prepare("m_old_name_x_t"), "new_name_y");
    assert_eq!(c.prepare("plain_name"), "plain_name");
}

#[test]
fn default_extensions_are_used() {
    let c = plain(CaseFormat::CamelCase, CaseFormat::SnakeCase);
    assert!(c.accepts_extension(Some("py")));
    assert!(c.accepts_extension(Some("hpp")));
    assert!(!c.accepts_extension(Some("txt")));
    assert!(!c.accepts_extension(None));
}

#[test]
fn given_extensions_replace_defaults() {
    let c = CaseConverter::new(
        CaseFormat::CamelCase, CaseFormat::SnakeCase, Some(vec![".txt".to_string()]), true, true,
        String::new(), String::new(), None, None, None, None, None, None, None, None,
    )
    .unwrap();
    assert!(c.accepts_extension(Some("txt")));
    assert!(!c.accepts_extension(Some("py")));
    assert!(c.recursive && c.dry_run);
}

#[test]
fn glob_filter_on_name_or_relative_path() {
    let c = CaseConverter::new(
        CaseFormat::CamelCase, CaseFormat::SnakeCase, None, false, false, String::new(), String::new(),
        None, None, None, None, None, None, Some("*.py".to_string()), None,
    )
    .unwrap();
    assert!(c.matches_glob(Some("a.py"), Some("sub/a.py")));
    assert!(!c.matches_glob(Some("a.js"), Some("sub/a.js")));
    assert!(!c.matches_glob(None, None));
    let c = CaseConverter::new(
        CaseFormat::CamelCase, CaseFormat::SnakeCase, None, false, false, String::new(), String::new(),
        None, None, None, None, None, None, Some("sub/*".to_string()), None,
    )
    .unwrap();
    assert!(c.matches_glob(Some("a.py"), Some("sub/a.py")));
    let none = plain(CaseFormat::CamelCase, CaseFormat::SnakeCase);
    assert!(none.matches_glob(None, None));
}

#[test]
fn rewrite_at_uses_given_spans_and_verdicts() {
    let c = converter(CaseFormat::CamelCase, CaseFormat::SnakeCase, "", "", None, None, None, None, Some("^zz"));
    let text = "aB cD";
    let out = c.rewrite_at(text, &vec![(0, 2), (3, 5)], &vec![true, false]);
    assert_eq!(out, "a_b cD");
    let out = c.rewrite_at(text, &vec![], &vec![]);
    assert_eq!(out, text);
}

#[test]
fn rewrite_handles_non_ascii_text_around_matches() {
    let c = plain(CaseFormat::CamelCase, CaseFormat::KebabCase);
    assert_eq!(c.rewrite("été: userName → ok").text, "été: user-name → ok");
}

#[test]
fn finish_without_filter_ignores_verdict() {
    let c = plain(CaseFormat::CamelCase, CaseFormat::PascalCase);
    assert_eq!(c.finish("fooBar", "fooBar", false), "FooBar");
}
