use terminal_input::completion::{
    cursor_positioned_for_completion, tab_in_completions_menu, MatchType, TabInMenu,
};

fn prefix(text: &str) -> (String, MatchType) {
    (text.to_string(), MatchType::Prefix { is_case_sensitive: true })
}

fn expect_insert(res: TabInMenu, expected: &str, close: bool) {
    match res {
        TabInMenu::InsertCommonPrefix { prefix, close_menu } => {
            assert_eq!(prefix, expected);
            assert_eq!(close_menu, close);
        }
        TabInMenu::SelectNext => panic!("expected the common prefix to be inserted"),
    }
}

#[test]
fn tab_in_menu_fills_the_longest_common_prefix_of_filtered_results() {
    let items = vec![
        prefix("Charlie111_1.txt"),
        prefix("Charlie111_2.txt"),
        prefix("Charlie111_3.txt"),
    ];
    expect_insert(tab_in_completions_menu(&items, "Charlie11"), "Charlie111_", false);
    // Once the word is the common prefix, tab moves through the suggestions.
    assert!(matches!(tab_in_completions_menu(&items, "Charlie111_"), TabInMenu::SelectNext));
}

#[test]
fn tab_in_menu_uses_case_sensitive_prefixes_only() {
    let items = vec![
        prefix("abcdef.txt"),
        prefix("abcdag.txt"),
        ("Abcd.txt".to_string(), MatchType::Prefix { is_case_sensitive: false }),
    ];
    expect_insert(tab_in_completions_menu(&items, "ab"), "abcd", false);
}

#[test]
fn tab_in_menu_ignores_a_case_insensitive_exact_match() {
    let exact_insensitive = ("Abc".to_string(), MatchType::Exact { is_case_sensitive: false });
    let one = vec![prefix("abcdef"), exact_insensitive.clone()];
    expect_insert(tab_in_completions_menu(&one, "abc"), "abcdef", true);
    let two = vec![prefix("abcdef"), prefix("abcdeg"), exact_insensitive];
    expect_insert(tab_in_completions_menu(&two, "abc"), "abcde", false);
    let fuzzy = vec![("xabc".to_string(), MatchType::Fuzzy)];
    assert!(matches!(tab_in_completions_menu(&fuzzy, "abc"), TabInMenu::SelectNext));
}

#[test]
fn tab_completes_only_with_a_single_cursor_in_a_non_blank_buffer() {
    assert!(cursor_positioned_for_completion("open Cha", false, 1, false));
    assert!(cursor_positioned_for_completion("  gi", false, 1, false));
    assert!(!cursor_positioned_for_completion("", false, 1, false));
    assert!(!cursor_positioned_for_completion("   \t", false, 1, false));
    assert!(!cursor_positioned_for_completion("open Cha", true, 1, false));
    assert!(!cursor_positioned_for_completion("open Cha", false, 2, false));
    assert!(!cursor_positioned_for_completion("open Cha", false, 1, true));
}
