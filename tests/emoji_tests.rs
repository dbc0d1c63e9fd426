use refmt::emoji::replace_task_emoji;
use refmt::{EmojiOptions, EmojiTransformer};

fn transformer() -> EmojiTransformer {
    EmojiTransformer::with_defaults().unwrap()
}

#[test]
fn emoji_test_replace_task_emojis() {
    let t = transformer();
    let (text, n) = t.transform_text("- [x] Done task\n- [ ] Todo task\n- Task complete\n");
    assert_eq!(text, "- [x] Done task\n- [ ] Todo task\n- Task complete\n");
    assert_eq!(n, 0);
}

#[test]
fn emoji_test_checkmark_replacement() {
    let t = transformer();
    let (text, n) = t.transform_text("Task done \u{2705}\nTask pending \u{2610}\n");
    assert!(text.contains("[x]"));
    assert!(text.contains("[ ]"));
    assert!(!text.contains('\u{2705}'));
    assert!(!text.contains('\u{2610}'));
    assert_eq!(n, 2);
}

#[test]
fn test_star_and_circle_replacement() {
    let t = transformer();
    let (text, _) = t.transform_text("\u{2B50} Important task\n\u{1F7E1} In progress\n\u{1F7E2} Complete\n\u{1F534} Blocked\n");
    assert!(text.contains("[+]"), "Star emoji should be replaced with [+]");
    assert!(text.contains("[yellow]"), "Yellow circle should be replaced with [yellow]");
    assert!(text.contains("[green]"), "Green circle should be replaced with [green]");
    assert!(text.contains("[red]"), "Red circle should be replaced with [red]");
    assert!(!text.contains('\u{2B50}'), "Star emoji should be removed");
    assert!(!text.contains('\u{1F7E1}'), "Yellow circle should be removed");
    assert!(!text.contains('\u{1F7E2}'), "Green circle should be removed");
    assert!(!text.contains('\u{1F534}'), "Red circle should be removed");
}

#[test]
fn test_yellow_square_replacement() {
    let t = transformer();
    let (text, _) = t.transform_text("\u{1F7E8} In progress task\n\u{1F7E1} Another yellow\n");
    assert!(text.contains("[yellow]"), "Yellow square should be replaced with [yellow]");
    assert!(!text.contains('\u{1F7E8}'), "Yellow square emoji should be removed");
    assert!(!text.contains('\u{1F7E1}'), "Yellow circle emoji should be removed");
}

#[test]
fn other_emojis_are_removed() {
    let t = transformer();
    let (text, n) = t.transform_text("Hi \u{1F600} there \u{1F680}!");
    assert_eq!(text, "Hi  there !");
    assert_eq!(n, 2);
}

#[test]
fn options_turn_passes_off() {
    let mut o = EmojiOptions::default();
    o.remove_other_emojis = false;
    let t = EmojiTransformer::new(o).unwrap();
    assert_eq!(t.transform_text("\u{2705} \u{1F600}"), ("[x] \u{1F600}".to_string(), 1));
    let mut o = EmojiOptions::default();
    o.replace_task_emojis = false;
    let t = EmojiTransformer::new(o).unwrap();
    assert_eq!(t.transform_text("\u{1F600}\u{1F600}ok"), ("ok".to_string(), 2));
}

#[test]
fn emoji_test_extension_filtering() {
    let mut o = EmojiOptions::default();
    o.file_extensions = vec![".md".to_string()];
    let t = EmojiTransformer::new(o).unwrap();
    let parts = |v: &[&str]| v.iter().map(|s| s.to_string()).collect::<Vec<String>>();
    assert!(t.should_process(&parts(&["d", "test.md"]), Some("md")));
    assert!(!t.should_process(&parts(&["d", "test.xyz"]), Some("xyz")));
}

#[test]
fn emoji_test_skip_hidden_files() {
    let t = transformer();
    let parts = |v: &[&str]| v.iter().map(|s| s.to_string()).collect::<Vec<String>>();
    assert!(!t.should_process(&parts(&["d", ".hidden.txt"]), Some("txt")));
}

#[test]
fn task_emoji_table() {
    assert_eq!(replace_task_emoji("\u{2705}"), "[x]");
    assert_eq!(replace_task_emoji("\u{2612}"), "[X]");
    assert_eq!(replace_task_emoji("\u{26A0}"), "[!]");
    assert_eq!(replace_task_emoji("\u{1F7E0}"), "[orange]");
    assert_eq!(replace_task_emoji("\u{1F5D3}"), "[cal]");
    assert_eq!(replace_task_emoji("\u{1F4CE}"), "[clip]");
    assert_eq!(replace_task_emoji("a"), "");
    assert_eq!(replace_task_emoji("\u{2705}\u{2705}"), "");
}
