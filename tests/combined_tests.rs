use refmt::{CaseTransform, CombinedOptions, CombinedProcessor, CombinedStats, FileRenamer, PluginManager};

#[test]
fn test_combined_processing() {
    let p = CombinedProcessor::with_defaults();
    assert_eq!(p.rename_options.case_transform, CaseTransform::Lowercase);
    let renamer = FileRenamer::new(p.rename_options.clone());
    assert_eq!(renamer.new_file_name("TestFile.txt"), Some("testfile.txt".to_string()));
    let emoji = refmt::EmojiTransformer::new(p.emoji_options.clone()).unwrap();
    let (text, n) = emoji.transform_text("Line 1   \nTask done \u{2705}\nLine 3\t\n");
    assert!(text.contains("[x]"));
    assert_eq!(n, 1);
    let cleaner = refmt::WhitespaceCleaner::new(p.whitespace_options.clone());
    let (text, lines) = cleaner.clean_text(&text);
    assert!(!text.contains("   \n"));
    assert!(!text.contains("\t\n"));
    assert_eq!(lines, 2);
}

#[test]
fn test_combined_dry_run() {
    let p = CombinedProcessor::new(CombinedOptions { recursive: false, dry_run: true });
    assert!(p.rename_options.dry_run && p.emoji_options.dry_run && p.whitespace_options.dry_run);
    assert!(!p.rename_options.recursive && !p.emoji_options.recursive && !p.whitespace_options.recursive);
}

#[test]
fn stats_count_each_file() {
    let mut s = CombinedStats::default();
    s.record_file(true, 3, 0);
    s.record_file(false, 0, 2);
    s.record_file(true, 1, 1);
    assert_eq!(s.files_renamed, 2);
    assert_eq!(s.files_emoji_transformed, 2);
    assert_eq!(s.emoji_changes, 4);
    assert_eq!(s.files_whitespace_cleaned, 2);
    assert_eq!(s.whitespace_lines_cleaned, 3);
    s.emoji_changes = usize::MAX;
    s.record_file(false, 5, 0);
    assert_eq!(s.emoji_changes, usize::MAX);
}

#[test]
fn plugin_manager_builds() {
    let _a = PluginManager::new();
    let _b = PluginManager::default();
}

#[test]
fn renamed_file_is_found_in_lowercase() {
    let p = CombinedProcessor::with_defaults();
    assert_eq!(p.name_after_rename("TestFile.TXT"), "testfile.txt");
}
