use terminal_input::completion::{
    update_tab_completion_menu, CompletionsTrigger, MatchStrategy, Span, SuggestionResults,
    TabMenuUpdate,
};
use terminal_input::expansion::{expanded_command_on_execute, expansion_value, Executing};
use terminal_input::history::{get_last_word_of_command_in_history, LastWordInsertion};
use terminal_input::input_state::{
    HistorySearchMode, InputSuggestionsMode, TabCompletionsMenuPosition,
};
use terminal_input::key_handling::{
    editor_escape_action, input_enter_action, page_key_scrolls_block_list,
    should_insert_newline_on_enter, EnterAction, EscapeAction, ShellFamily, VimMode,
};

type Mode = InputSuggestionsMode<String>;

/// The text before a cursor at the end of line `line` of `text`.
fn before_end_of_line(text: &str, line: usize) -> String {
    text.split('\n').take(line + 1).collect::<Vec<_>>().join("\n")
}

#[test]
fn test_newline_insertion() {
    let continues = should_insert_newline_on_enter(&[r"ls \".to_string()], Some(ShellFamily::Posix));
    assert!(continues);
    assert_eq!(
        input_enter_action(false, false, continues, &Mode::Closed, false, false),
        EnterAction::InsertNewline
    );
}

#[test]
fn test_should_not_insert_newline_on_enter_in_empty_buffer() {
    assert!(!should_insert_newline_on_enter(&[String::new()], Some(ShellFamily::Posix)));
}

#[test]
fn test_should_insert_newline_on_enter() {
    let base_text = "1 slash \\\n2 slashes \\\\\n3 slashes \\\\\\\n4 slashes \\\\\\\\\nno slashes\n";
    let expected = [true, false, true, false, false];
    for (line, expected) in expected.iter().enumerate() {
        let before = before_end_of_line(base_text, line);
        assert_eq!(
            should_insert_newline_on_enter(&[before], Some(ShellFamily::Posix)),
            *expected,
            "line {line}"
        );
    }
}

#[test]
fn test_powershell_should_insert_newline_on_enter() {
    let base_text = "1 slash \\\n1 backtick with space `\n1 backtick no space f`\nno backtick\n2 backticks ``\n3 backticks ```\n";
    let expected = [false, true, false, false, false, false];
    for (line, expected) in expected.iter().enumerate() {
        let before = before_end_of_line(base_text, line);
        assert_eq!(
            should_insert_newline_on_enter(&[before], Some(ShellFamily::PowerShell)),
            *expected,
            "line {line}"
        );
    }
}

/// Inserts the last word for the current state, as the input does.
fn insert_last_word(state: &mut LastWordInsertion, history: &[String]) -> String {
    let word = get_last_word_of_command_in_history(history, state.insert_command_from_history_index)
        .unwrap();
    state.mark_inserted();
    word
}

#[test]
fn test_last_word_insertions() {
    let history = vec![
        "https://app.warp.dev".to_string(),
        "cargo check\ncargo run --features".to_string(),
    ];
    let mut state = LastWordInsertion::new();

    // Typing `git test` is an edit.
    state.update_last_word_insertion_state();
    let word = insert_last_word(&mut state, &history);
    assert_eq!(format!("git {word}"), "git --features");

    // The insertion's own edit event, then a consecutive insertion.
    state.update_last_word_insertion_state();
    let word = insert_last_word(&mut state, &history);
    assert_eq!(format!("git {word}"), "git https://app.warp.dev");

    // Its edit event, then undo (another editor event): back to the latest command.
    state.update_last_word_insertion_state();
    state.update_last_word_insertion_state();
    let word = insert_last_word(&mut state, &history);
    assert_eq!(format!("git {word}"), "git --features");

    // Its edit event, then the user types `f`.
    state.update_last_word_insertion_state();
    state.update_last_word_insertion_state();
    let word = insert_last_word(&mut state, &history);
    assert_eq!(format!("git f{word}"), "git f--features");

    // Its edit event, then two cursor moves.
    state.update_last_word_insertion_state();
    state.update_last_word_insertion_state();
    state.update_last_word_insertion_state();
    let word = insert_last_word(&mut state, &history);
    assert_eq!(format!("git {word}f--features"), "git --featuresf--features");
}

#[test]
fn test_last_word_insertions_multiline() {
    let history = vec!["git status".to_string(), "cargo check\ncargo run".to_string()];
    let mut state = LastWordInsertion::new();
    state.update_last_word_insertion_state();
    let word = insert_last_word(&mut state, &history);
    assert_eq!(word, "run");
    state.update_last_word_insertion_state();
    let word = insert_last_word(&mut state, &history);
    assert_eq!(word, "status");
    // A selection change and a delete reset to the latest command.
    state.update_last_word_insertion_state();
    state.update_last_word_insertion_state();
    state.update_last_word_insertion_state();
    let word = insert_last_word(&mut state, &history);
    assert_eq!(word, "run");
}

#[test]
fn test_get_expanded_command_on_execute() {
    let alias = Some("git checkout".to_string());
    let value = expansion_value(3, 3, Executing::Yes, None, true, alias.clone(), true).unwrap();
    assert_eq!(expanded_command_on_execute("gco", 0, 3, &value), Some("git checkout".into()));

    let value = expansion_value(3, 3, Executing::Yes, None, true, alias, true).unwrap();
    assert_eq!(
        expanded_command_on_execute("gco test", 0, 3, &value),
        Some("git checkout test".into())
    );

    assert_eq!(expansion_value(4, 10, Executing::Yes, None, true, None, false), None);
}

#[test]
fn test_classic_tab_completions_close_after_user_backspace() {
    assert!(matches!(
        update_tab_completion_menu("cd ", 3, 3, "cd Do", true, true, Some("Downloads")),
        TabMenuUpdate::Close
    ));
}

#[test]
fn test_classic_tab_completions_keep_menu_open_while_cycling() {
    assert!(matches!(
        update_tab_completion_menu("cd Documents", 12, 3, "cd Do", true, false, Some("Documents")),
        TabMenuUpdate::KeepOpen
    ));
}

#[test]
fn test_vim_escape_with_history_menu() {
    let history: Mode = InputSuggestionsMode::HistoryUp {
        original_buffer: String::new(),
        original_cursor_point: None,
        search_mode: HistorySearchMode::Prefix,
    };
    assert_eq!(
        editor_escape_action(Some(VimMode::Insert), &history, false, false),
        EscapeAction::VimEscape
    );
    assert_eq!(
        editor_escape_action(Some(VimMode::Normal), &history, false, false),
        EscapeAction::ExitSuggestions
    );
}

#[test]
fn test_vim_escape_with_completions() {
    let completions: Mode = InputSuggestionsMode::CompletionSuggestions {
        replacement_start: 3,
        buffer_text_original: "cd ".to_string(),
        completion_results: SuggestionResults {
            replacement_span: Span::new(3, 3),
            suggestions: vec!["Documents".to_string(), "Pictures".to_string()],
            match_strategy: MatchStrategy::CaseInsensitive,
        },
        trigger: CompletionsTrigger::Keybinding,
        menu_position: TabCompletionsMenuPosition::AtLastCursor,
    };
    assert_eq!(
        editor_escape_action(Some(VimMode::Insert), &completions, false, false),
        EscapeAction::ExitSuggestions
    );
    assert_eq!(
        editor_escape_action(Some(VimMode::Insert), &Mode::Closed, false, false),
        EscapeAction::VimEscape
    );
}

#[test]
fn test_page_up_and_down_scroll_terminal_from_prompt() {
    assert!(page_key_scrolls_block_list(&Mode::Closed));
}

#[test]
fn test_page_up_and_down_do_not_scroll_terminal_when_suggestions_are_visible() {
    let history: Mode = InputSuggestionsMode::HistoryUp {
        original_buffer: String::new(),
        original_cursor_point: None,
        search_mode: HistorySearchMode::Prefix,
    };
    assert!(!page_key_scrolls_block_list(&history));
}
