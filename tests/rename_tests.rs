use refmt::rename::split_file_name;
use refmt::{CaseTransform, FileRenamer, RenameOptions, SpaceReplace};

fn renamer(f: impl FnOnce(&mut RenameOptions)) -> FileRenamer {
    let mut o = RenameOptions::default();
    f(&mut o);
    FileRenamer::new(o)
}

#[test]
fn test_lowercase_transform() {
    let r = renamer(|o| o.case_transform = CaseTransform::Lowercase);
    assert_eq!(r.new_file_name("TestFile.txt"), Some("testfile.txt".to_string()));
}

#[test]
fn test_uppercase_transform() {
    let r = renamer(|o| o.case_transform = CaseTransform::Uppercase);
    assert_eq!(r.new_file_name("testfile.txt"), Some("TESTFILE.txt".to_string()));
}

#[test]
fn test_capitalize_transform() {
    let r = renamer(|o| o.case_transform = CaseTransform::Capitalize);
    assert_eq!(r.new_file_name("testFile.txt"), Some("Testfile.txt".to_string()));
}

#[test]
fn test_separators_to_underscore() {
    let r = renamer(|o| o.space_replace = SpaceReplace::Underscore);
    assert_eq!(r.new_file_name("test file.txt"), Some("test_file.txt".to_string()));
    assert_eq!(r.new_file_name("test-file2.txt"), Some("test_file2.txt".to_string()));
    assert_eq!(r.new_file_name("test-file 3.txt"), Some("test_file_3.txt".to_string()));
}

#[test]
fn test_separators_to_hyphen() {
    let r = renamer(|o| o.space_replace = SpaceReplace::Hyphen);
    assert_eq!(r.new_file_name("test file.txt"), Some("test-file.txt".to_string()));
    assert_eq!(r.new_file_name("test_file2.txt"), Some("test-file2.txt".to_string()));
    assert_eq!(r.new_file_name("test_file 3.txt"), Some("test-file-3.txt".to_string()));
}

#[test]
fn test_add_prefix() {
    let r = renamer(|o| o.add_prefix = Some("new_".to_string()));
    assert_eq!(r.new_file_name("file.txt"), Some("new_file.txt".to_string()));
}

#[test]
fn test_remove_prefix() {
    let r = renamer(|o| o.remove_prefix = Some("old_".to_string()));
    assert_eq!(r.new_file_name("old_file.txt"), Some("file.txt".to_string()));
}

#[test]
fn test_add_suffix() {
    let r = renamer(|o| o.add_suffix = Some("_backup".to_string()));
    assert_eq!(r.new_file_name("file.txt"), Some("file_backup.txt".to_string()));
}

#[test]
fn test_remove_suffix() {
    let r = renamer(|o| o.remove_suffix = Some("_old".to_string()));
    assert_eq!(r.new_file_name("file_old.txt"), Some("file.txt".to_string()));
}

#[test]
fn test_combined_transforms() {
    let r = renamer(|o| {
        o.remove_prefix = Some("old_".to_string());
        o.space_replace = SpaceReplace::Underscore;
        o.case_transform = CaseTransform::Lowercase;
        o.add_suffix = Some("_new".to_string());
    });
    assert_eq!(r.new_file_name("old_Test File.txt"), Some("test_file_new.txt".to_string()));
}

#[test]
fn rename_test_skip_hidden_files() {
    let r = renamer(|o| o.case_transform = CaseTransform::Uppercase);
    assert!(!r.should_process(Some(".hidden.txt")));
    assert!(r.should_process(Some("visible.txt")));
    assert!(r.should_process(None));
}

#[test]
fn test_no_extension_file() {
    let r = renamer(|o| o.case_transform = CaseTransform::Lowercase);
    assert_eq!(r.new_file_name("TestFile"), Some("testfile".to_string()));
}

#[test]
fn unchanged_name_gives_none() {
    let r = renamer(|o| o.case_transform = CaseTransform::Lowercase);
    assert_eq!(r.new_file_name("file.txt"), None);
    assert_eq!(FileRenamer::with_defaults().new_file_name("Any Name.TXT"), None);
}

#[test]
fn name_is_cut_at_last_dot() {
    assert_eq!(split_file_name("a.tar.gz"), ("a.tar".to_string(), Some("gz".to_string())));
    assert_eq!(split_file_name("noext"), ("noext".to_string(), None));
    assert_eq!(split_file_name("trailing."), ("trailing".to_string(), Some(String::new())));
    let r = renamer(|o| o.case_transform = CaseTransform::Uppercase);
    assert_eq!(r.new_file_name("a.tar.gz"), Some("A.TAR.gz".to_string()));
}

#[test]
fn transform_name_applies_rules_in_order() {
    let r = renamer(|o| {
        o.remove_prefix = Some("x".to_string());
        o.remove_suffix = Some("y".to_string());
        o.space_replace = SpaceReplace::Hyphen;
        o.case_transform = CaseTransform::Capitalize;
        o.add_prefix = Some("P_".to_string());
        o.add_suffix = Some("_S".to_string());
    });
    assert_eq!(r.transform_name("xmy_FILE namey", Some("md")), "P_My-file-name_S.md");
    assert_eq!(r.transform_name("", None), "P__S");
}
