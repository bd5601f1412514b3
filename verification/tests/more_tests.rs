use terminal_input::completion::{
    completions_menu_anchor_offset, input_tab_action, should_enter_accept_completion_suggestion,
    MatchType, Span, TabAction, TabInMenu,
};
use terminal_input::event_loop::EventLoop;
use terminal_input::execution::{
    loading_state_text, viewer_execution_failure, ViewerCommandExecutionRequest,
};
use terminal_input::history::{completion_autosuggestions, InlineHistoryResult};
use terminal_input::input_state::{
    BufferPoint, CommandMatchesWorkflowTemplate, HistorySearchMode, InputSuggestionsMode,
};
use terminal_input::key_handling::{
    ctrl_enter_submits_agent_input, history_up_mode, page_key_scrolls_block_list,
    should_generate_autosuggestion, should_open_completions_on_keybinding, InputMode,
};
use terminal_input::layout::{
    input_overlays, terminal_input_layout, universal_input_frame, InlineMenuShown, Overlays,
    TerminalInputLayout, UniversalInputFrame,
};
use terminal_input::key_handling::{should_send_input_sync, EditOrigin};
use terminal_input::prompt::selected_argument_a11y_text;
use terminal_input::shared_session::{InteractionState, SharedSessionStatus};
use terminal_input::terminal_events::{pty_bytes_action, ViewerEventAction};
use terminal_input::shell_quote::{
    input_to_restore_after_prompt_chip, prompt_chip_command, PromptChipShellCommand, ShellType,
};
use terminal_input::suggestion_modes::{
    clears_autosuggestion_for_tab_menu, suggestion_select_action, workflow_insertion,
    zero_state_placeholder, Placeholder, SelectAction, WorkflowInsertion,
};

type Mode = InputSuggestionsMode<String>;

#[test]
fn tab_opens_completions_or_indents() {
    let items = vec![
        ("checkout".to_string(), MatchType::Prefix { is_case_sensitive: true }),
        ("cherry-pick".to_string(), MatchType::Prefix { is_case_sensitive: true }),
    ];
    match input_tab_action(Some((&items, "ch")), false, true, true) {
        TabAction::InCompletionsMenu(TabInMenu::InsertCommonPrefix { prefix, close_menu }) => {
            assert_eq!(prefix, "che");
            assert!(!close_menu);
        }
        _ => panic!("expected the common prefix"),
    }
    assert!(matches!(
        input_tab_action(Some((&items, "che")), false, true, true),
        TabAction::InCompletionsMenu(TabInMenu::SelectNext)
    ));
    assert!(matches!(input_tab_action(None, true, true, true), TabAction::SelectNextSuggestion));
    assert!(matches!(input_tab_action(None, false, true, true), TabAction::OpenCompletions));
    assert!(matches!(input_tab_action(None, false, false, true), TabAction::PassToEditor));
}

#[test]
fn enter_accepts_a_completion_unless_it_is_already_typed() {
    let seps = ['/'];
    assert!(!should_enter_accept_completion_suggestion(None, true, true, true, Some("x"), "x", &seps));
    assert!(should_enter_accept_completion_suggestion(Some(3), true, true, true, None, "cd a", &seps));
    assert!(should_enter_accept_completion_suggestion(Some(3), false, false, false, Some("app"), "cd a", &seps));
    assert!(!should_enter_accept_completion_suggestion(Some(3), false, false, true, Some("app/"), "cd app", &seps));
    assert!(!should_enter_accept_completion_suggestion(Some(3), false, false, true, Some("app"), "cd app", &seps));
    assert!(should_enter_accept_completion_suggestion(Some(3), false, false, true, Some("apple"), "cd app", &seps));
}

#[test]
fn file_completions_anchor_after_the_last_separator() {
    let seps = ['/'];
    assert_eq!(completions_menu_anchor_offset(false, Span::new(3, 8), true, "cd app/D", &seps), None);
    assert_eq!(completions_menu_anchor_offset(true, Span::new(3, 8), true, "cd app/D", &seps), Some(7));
    assert_eq!(completions_menu_anchor_offset(true, Span::new(3, 8), false, "cd app/D", &seps), Some(3));
    assert_eq!(completions_menu_anchor_offset(true, Span::new(3, 5), true, "cd ap", &seps), Some(3));
}

#[test]
fn completion_autosuggestions_complete_the_buffer() {
    let out = completion_autosuggestions("git ch", 4, &["checkout".to_string(), "cherry-pick".to_string()]);
    assert_eq!(out, vec!["git checkout".to_string(), "git cherry-pick".to_string()]);
}

#[test]
fn inline_history_rows_describe_themselves() {
    let row = InlineHistoryResult { command: "git log".to_string(), prefix_match_len: 3, rank: 0 };
    assert_eq!(row.accessibility_label(), "Command: git log");
    assert_eq!(row.bold_prefix_len(), Some(3));
    let plain = InlineHistoryResult { command: "ls".to_string(), prefix_match_len: 0, rank: 1 };
    assert_eq!(plain.bold_prefix_len(), None);
}

#[test]
fn viewer_requests_come_back_after_a_failure() {
    assert_eq!(loading_state_text("make"), "make \u{25CC}");

    let mut pending = Some(ViewerCommandExecutionRequest { original_buffer: "make".to_string() });
    let restore = viewer_execution_failure(&mut pending, SharedSessionStatus::executor()).unwrap();
    assert!(pending.is_none());
    assert_eq!(restore.buffer, "make");
    assert_eq!(restore.interaction, InteractionState::Editable);

    let mut pending = Some(ViewerCommandExecutionRequest { original_buffer: "make".to_string() });
    assert!(viewer_execution_failure(&mut pending, SharedSessionStatus::FinishedViewer).is_none());
    assert!(pending.is_none());

    let mut nothing = None;
    assert!(viewer_execution_failure(&mut nothing, SharedSessionStatus::reader()).is_none());
}

#[test]
fn event_loop_reports_its_state() {
    let mut caught_up: EventLoop<u8> = EventLoop::new(None);
    assert!(caught_up.starts_caught_up());
    assert!(!EventLoop::<u8>::new(Some(3)).starts_caught_up());
    assert_eq!(caught_up.last_received_event_no(), None);
    for n in 1..=50usize {
        caught_up.process_ordered_terminal_event(n, 0);
    }
    assert!(caught_up.is_too_far_ahead());
    assert_eq!(caught_up.process_ordered_terminal_event(0, 0).len(), 51);
    assert!(!caught_up.is_too_far_ahead());
}

#[test]
fn key_decisions() {
    assert!(ctrl_enter_submits_agent_input(true, true));
    assert!(!ctrl_enter_submits_agent_input(true, false));
    assert!(should_generate_autosuggestion(false, true));
    assert!(!should_generate_autosuggestion(true, true));
    assert!(should_open_completions_on_keybinding(&Mode::Closed, true));
    assert!(!should_open_completions_on_keybinding(&Mode::Closed, false));
    assert!(page_key_scrolls_block_list(&Mode::Closed));
    assert!(!page_key_scrolls_block_list(&Mode::InlineHistoryMenu));
    let mode: Mode = history_up_mode("ls".to_string(), None, HistorySearchMode::Fuzzy);
    assert!(matches!(
        mode,
        InputSuggestionsMode::HistoryUp { search_mode: HistorySearchMode::Fuzzy, ref original_buffer, .. }
            if original_buffer == "ls"
    ));
}

#[test]
fn layout_decisions() {
    assert_eq!(
        input_overlays(true, true, false, true),
        Overlays { workflow_info: true, voltron: false, suggestions: false, command_xray: true }
    );
    assert_eq!(
        terminal_input_layout(InputMode::PinnedToTop, &Mode::InlineHistoryMenu, false, false, false),
        TerminalInputLayout {
            bottom_spacer: false,
            inline_menu: Some(InlineMenuShown::History),
            inline_menu_below: true
        }
    );
    assert_eq!(
        terminal_input_layout(InputMode::Waterfall, &Mode::IndexedReposMenu, false, false, true),
        TerminalInputLayout {
            bottom_spacer: true,
            inline_menu: Some(InlineMenuShown::Repos),
            inline_menu_below: true
        }
    );
    assert_eq!(
        terminal_input_layout(InputMode::PinnedToBottom, &Mode::InlineHistoryMenu, false, true, false),
        TerminalInputLayout { bottom_spacer: true, inline_menu: None, inline_menu_below: false }
    );
    assert_eq!(
        universal_input_frame(true, false, true, true, true),
        UniversalInputFrame { vim_status: false, flush_top: true, background: true }
    );
}

#[test]
fn prompt_chip_commands_need_a_session() {
    let command = PromptChipShellCommand::ChangeDirectory { dir_name: "src".to_string() };
    assert_eq!(prompt_chip_command(&command, Some(ShellType::Bash)), Some("cd 'src'".to_string()));
    assert_eq!(prompt_chip_command(&command, None), None);
    assert_eq!(input_to_restore_after_prompt_chip(true, "draft".to_string()), Some("draft".to_string()));
    assert_eq!(input_to_restore_after_prompt_chip(false, "draft".to_string()), None);
    assert_eq!(input_to_restore_after_prompt_chip(true, String::new()), None);
}

#[test]
fn suggestion_mode_helpers() {
    assert!(clears_autosuggestion_for_tab_menu(true, false));
    assert!(!clears_autosuggestion_for_tab_menu(true, true));
    assert!(matches!(zero_state_placeholder(true, &Mode::IndexedReposMenu), Placeholder::AgentHint));
    assert!(matches!(
        zero_state_placeholder(false, &Mode::IndexedReposMenu),
        Placeholder::Mode("Search indexed repos")
    ));
    assert!(matches!(zero_state_placeholder(false, &Mode::Closed), Placeholder::Clear));

    let history: Mode = InputSuggestionsMode::HistoryUp {
        original_buffer: String::new(),
        original_cursor_point: Some(BufferPoint { row: 0, column: 0 }),
        search_mode: HistorySearchMode::Prefix,
    };
    assert!(matches!(suggestion_select_action(&history, Some(9u8), false), SelectAction::LoadWorkflow { workflow: 9 }));
    assert!(matches!(suggestion_select_action::<String, u8>(&history, None, false), SelectAction::SetBuffer));
    assert!(matches!(suggestion_select_action::<String, u8>(&Mode::Closed, None, true), SelectAction::Nothing));

    assert!(matches!(
        workflow_insertion(Some("deploy prod".to_string()), CommandMatchesWorkflowTemplate::Yes(5u8)),
        WorkflowInsertion::Highlighted { display: 5 }
    ));
    assert!(matches!(
        workflow_insertion::<u8>(Some("deploy prod".to_string()), CommandMatchesWorkflowTemplate::No),
        WorkflowInsertion::Plain { command } if command == "deploy prod"
    ));
}

#[test]
fn synced_inputs_and_argument_announcements() {
    assert!(should_send_input_sync(true, EditOrigin::UserTyped, true));
    assert!(!should_send_input_sync(true, EditOrigin::SyncedTerminalInput, true));
    assert!(!should_send_input_sync(true, EditOrigin::UserTyped, false));
    assert!(!should_send_input_sync(false, EditOrigin::UserTyped, true));
    assert_eq!(
        selected_argument_a11y_text(Some("branch")),
        Some("Selected Workflow argument branch".to_string())
    );
    assert_eq!(selected_argument_a11y_text(None), None);
}

#[test]
fn decompressed_bytes_become_the_parse_action() {
    assert!(matches!(
        pty_bytes_action(Some(vec![1, 2, 3])),
        ViewerEventAction::ParseBytes { bytes } if bytes == vec![1, 2, 3]
    ));
    assert!(matches!(pty_bytes_action(None), ViewerEventAction::CorruptPtyBytes));
}
