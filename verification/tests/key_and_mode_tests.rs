use terminal_input::completion::{CompletionsTrigger, MatchStrategy, Span, SuggestionResults};
use terminal_input::input_state::{
    BufferPoint, BufferState, Corner, DynamicEnumSuggestionStatus, HistorySearchMode,
    HistoryUpMode, InputRenderStateModel, InputSuggestionsMode, MenuPositioning,
    TabCompletionsMenuPosition, TelemetryInputSuggestionsMode, YAxisAnchor,
};
use terminal_input::key_handling::{
    ctrl_r_action, edit_effects, edit_reaction, editor_down_action, editor_escape_action,
    editor_up_action, input_cmd_enter_action, input_enter_action, input_shift_tab_action,
    is_input_at_top, keymap_context_keys, next_autosuggestion_accepted_count,
    should_insert_newline_on_enter, should_show_completions_while_typing, CmdEnterAction,
    CtrlRAction, DownAction, EditObservation, EditOrigin, EditReaction, EditorActionKind,
    EnterAction, EscapeAction, InputMode, KeymapKey, KeymapState, ShellFamily, ShiftTabAction,
    UpAction, VimMode,
};
use terminal_input::suggestion_modes::{
    apply_dynamic_enum_results, close_input_suggestions, completion_results_step,
    completion_suggestions_mode, confirm_suggestion_action, enum_suggestions_menu,
    history_up_restore, CloseEffect, ConfirmAction, EnumVariants, ResultsStep,
};
use terminal_input::workflow_ranges::ByteRange;

type Mode = InputSuggestionsMode<String>;

fn point(row: usize, column: usize) -> BufferPoint {
    BufferPoint { row, column }
}

fn history_up(buffer: &str) -> Mode {
    InputSuggestionsMode::HistoryUp {
        original_buffer: buffer.to_string(),
        original_cursor_point: Some(point(0, 2)),
        search_mode: HistorySearchMode::Prefix,
    }
}

fn completions(trigger: CompletionsTrigger) -> Mode {
    InputSuggestionsMode::CompletionSuggestions {
        replacement_start: 3,
        buffer_text_original: "cd ap".to_string(),
        completion_results: SuggestionResults {
            replacement_span: Span::new(3, 5),
            suggestions: vec!["app/".to_string()],
            match_strategy: MatchStrategy::Fuzzy,
        },
        trigger,
        menu_position: TabCompletionsMenuPosition::AtLastCursor,
    }
}

fn dynamic_enum() -> Mode {
    InputSuggestionsMode::DynamicWorkflowEnumSuggestions {
        suggestions: vec![],
        menu_position: TabCompletionsMenuPosition::AtFirstCursor,
        selected_ranges: vec![ByteRange { start: 4, end: 8 }],
        cursor_point: point(0, 8),
        dynamic_enum_status: DynamicEnumSuggestionStatus::Unapproved,
        command: "ls".to_string(),
    }
}

#[test]
fn suggestion_mode_queries() {
    assert!(!Mode::Closed.is_visible());
    assert!(history_up("").is_visible());
    assert!(Mode::InlineHistoryMenu.is_inline_menu(false));
    assert!(!Mode::IndexedReposMenu.is_inline_menu(false));
    assert!(Mode::IndexedReposMenu.is_inline_menu(true));
    assert!(Mode::IndexedReposMenu.should_snapshot_and_restore_buffer(true));
    assert_eq!(Mode::IndexedReposMenu.placeholder_text(), Some("Search indexed repos"));
    assert_eq!(history_up("").placeholder_text(), None);
    assert_eq!(history_up("").to_telemetry_mode(), TelemetryInputSuggestionsMode::HistoryUp);
    let fuzzy: Mode = InputSuggestionsMode::HistoryUp {
        original_buffer: String::new(),
        original_cursor_point: None,
        search_mode: HistorySearchMode::Fuzzy,
    };
    assert_eq!(fuzzy.to_telemetry_mode(), TelemetryInputSuggestionsMode::HistoryFuzzySearch);
    assert_eq!(
        dynamic_enum().to_telemetry_mode(),
        TelemetryInputSuggestionsMode::DynamicWorkflowEnumSuggestions
    );
}

#[test]
fn history_up_modes_have_telemetry_names() {
    assert_eq!(HistoryUpMode::Prefixed.as_str(), "prefixed history up");
    assert_eq!(HistoryUpMode::RegularNoQuery.as_str(), "regular history up (no query)");
    assert_eq!(HistoryUpMode::RegularWithQuery.as_str(), "regular history up (with query)");
    assert_eq!(HistoryUpMode::NotApplicable.as_str(), "history up");
}

#[test]
fn buffer_state_and_render_state_keep_what_they_are_given() {
    let state = BufferState::new("ls -la".to_string(), Some(point(0, 3)));
    assert_eq!(state.buffer, "ls -la");
    assert_eq!(state.cursor_point, Some(point(0, 3)));

    let mut model = InputRenderStateModel::new(false, (24u16, 80u16));
    assert!(!model.editor_modified_since_block_finished());
    model.set_editor_modified_since_block_finished(true);
    model.set_size_info((40, 120));
    assert!(model.editor_modified_since_block_finished());
    assert_eq!(model.size_info(), (40, 120));
}

#[test]
fn menus_anchor_by_position() {
    assert_eq!(MenuPositioning::default(), MenuPositioning::AboveInputBox);
    assert_eq!(MenuPositioning::AboveInputBox.y_anchor(), (YAxisAnchor::Top, YAxisAnchor::Bottom));
    assert_eq!(MenuPositioning::BelowInputBox.y_anchor(), (YAxisAnchor::Bottom, YAxisAnchor::Top));
    assert_eq!(MenuPositioning::BelowInputBox.voltron_parent_anchor(), Corner::TopLeft);
    assert_eq!(MenuPositioning::AboveInputBox.voltron_child_anchor(), Corner::BottomLeft);
}

#[test]
fn backslash_continuation_needs_an_odd_run() {
    let posix = Some(ShellFamily::Posix);
    assert!(should_insert_newline_on_enter(&["echo a \\".to_string()], posix));
    assert!(!should_insert_newline_on_enter(&["echo a \\\\".to_string()], posix));
    assert!(should_insert_newline_on_enter(&["\\\\\\".to_string()], None));
    assert!(!should_insert_newline_on_enter(&["".to_string()], posix));
    assert!(should_insert_newline_on_enter(
        &["ls".to_string(), "ls \\".to_string()],
        posix
    ));
}

#[test]
fn powershell_continues_after_a_spaced_backtick() {
    let ps = Some(ShellFamily::PowerShell);
    assert!(should_insert_newline_on_enter(&["Get-Item `".to_string()], ps));
    assert!(should_insert_newline_on_enter(&["`".to_string()], ps));
    assert!(!should_insert_newline_on_enter(&["Get-Item`".to_string()], ps));
    assert!(!should_insert_newline_on_enter(&["Get-Item \\".to_string()], ps));
}

#[test]
fn enter_runs_the_command_unless_something_else_claims_it() {
    let closed = Mode::Closed;
    assert_eq!(input_enter_action(true, true, false, &closed, false, false), EnterAction::AgentNewline);
    assert_eq!(input_enter_action(true, false, true, &closed, false, false), EnterAction::AgentSubmit);
    assert_eq!(input_enter_action(false, false, true, &closed, false, false), EnterAction::InsertNewline);
    assert_eq!(
        input_enter_action(false, false, false, &Mode::InlineHistoryMenu, true, false),
        EnterAction::AcceptInlineHistoryItem
    );
    assert_eq!(
        input_enter_action(false, false, false, &Mode::InlineHistoryMenu, false, false),
        EnterAction::ExecuteCommand
    );
    assert_eq!(
        input_enter_action(false, false, false, &completions(CompletionsTrigger::Keybinding), false, true),
        EnterAction::ConfirmSuggestion
    );
    assert_eq!(
        input_enter_action(false, false, false, &completions(CompletionsTrigger::Keybinding), false, false),
        EnterAction::ExecuteCommand
    );
    assert_eq!(
        input_enter_action(false, false, false, &dynamic_enum(), false, false),
        EnterAction::ConfirmSuggestion
    );
    assert_eq!(
        input_enter_action(false, false, false, &Mode::IndexedReposMenu, false, false),
        EnterAction::AcceptRepo
    );
}

#[test]
fn cmd_enter_runs_an_unapproved_enum_command() {
    assert_eq!(input_cmd_enter_action(&dynamic_enum()), CmdEnterAction::RunEnumCommand);
    assert_eq!(input_cmd_enter_action(&history_up("")), CmdEnterAction::ConfirmAndExecute);
    assert_eq!(input_cmd_enter_action(&Mode::IndexedReposMenu), CmdEnterAction::AcceptRepo);
    assert_eq!(input_cmd_enter_action(&Mode::Closed), CmdEnterAction::Unhandled);
}

#[test]
fn arrow_up_opens_history_on_the_first_row() {
    let closed = Mode::Closed;
    assert_eq!(editor_up_action(true, false, &closed, true, true, true), UpAction::Ignore);
    assert_eq!(
        editor_up_action(false, false, &Mode::InlineHistoryMenu, true, true, true),
        UpAction::InlineHistorySelectUp
    );
    assert_eq!(
        editor_up_action(false, false, &history_up(""), true, true, false),
        UpAction::SelectPreviousSuggestion
    );
    assert_eq!(
        editor_up_action(false, false, &closed, true, true, true),
        UpAction::OpenInlineHistoryMenu
    );
    assert_eq!(
        editor_up_action(false, true, &closed, true, true, false),
        UpAction::OpenHistoryUp { shared_session_history: true }
    );
    assert_eq!(editor_up_action(false, false, &closed, true, false, true), UpAction::MoveCursorUp);
}

#[test]
fn arrow_down_closes_an_empty_menu() {
    assert_eq!(editor_down_action(&history_up(""), true), DownAction::CloseAndRestore);
    assert_eq!(editor_down_action(&history_up(""), false), DownAction::SelectNextSuggestion);
    assert_eq!(editor_down_action(&Mode::Closed, true), DownAction::MoveCursorDown);
    assert_eq!(editor_down_action(&Mode::IndexedReposMenu, true), DownAction::ReposSelectDown);
}

#[test]
fn escape_closes_the_innermost_thing() {
    assert_eq!(
        editor_escape_action(Some(VimMode::Insert), &history_up(""), false, false),
        EscapeAction::VimEscape
    );
    assert_eq!(
        editor_escape_action(None, &Mode::InlineHistoryMenu, false, false),
        EscapeAction::CloseInlineMenu
    );
    assert_eq!(editor_escape_action(None, &history_up(""), false, false), EscapeAction::ExitSuggestions);
    assert_eq!(editor_escape_action(None, &Mode::Closed, false, true), EscapeAction::ClearWorkflow);
    assert_eq!(
        editor_escape_action(Some(VimMode::Other), &Mode::Closed, false, false),
        EscapeAction::VimEscape
    );
    assert_eq!(
        editor_escape_action(Some(VimMode::Normal), &Mode::Closed, false, false),
        EscapeAction::Propagate
    );
}

#[test]
fn shift_tab_cycles_workflow_arguments() {
    assert_eq!(
        input_shift_tab_action(&Mode::InlineHistoryMenu, true, true, None),
        ShiftTabAction::InlineMenuNextTab
    );
    assert_eq!(
        input_shift_tab_action(&completions(CompletionsTrigger::Keybinding), false, true, Some(1)),
        ShiftTabAction::SelectPreviousSuggestion
    );
    assert_eq!(input_shift_tab_action(&Mode::Closed, false, false, None), ShiftTabAction::Unindent);
    assert_eq!(
        input_shift_tab_action(&Mode::Closed, false, true, Some(2)),
        ShiftTabAction::SelectArgument { argument: 2 }
    );
    assert_eq!(
        input_shift_tab_action(&history_up(""), false, true, None),
        ShiftTabAction::SelectFirstArgument
    );
    assert_eq!(
        input_shift_tab_action(&Mode::InlineHistoryMenu, false, true, None),
        ShiftTabAction::SelectNextArgument
    );
}

fn observation(buffer: &str) -> EditObservation {
    EditObservation {
        origin: EditOrigin::UserTyped,
        classic_completions_enabled: false,
        selected_item_text: None,
        buffer_text: buffer.to_string(),
        cursor: buffer.len(),
        first_selection_end: point(0, buffer.len()),
        can_query_history: true,
        workflow_selected: false,
        completions_while_typing: true,
        inline_selected_command: None,
    }
}

#[test]
fn edits_update_the_open_menu() {
    let obs = observation("cd app");
    assert_eq!(
        edit_reaction(&completions(CompletionsTrigger::AsYouType), &obs),
        EditReaction::RecomputeCompletions
    );
    assert_eq!(
        edit_reaction(&completions(CompletionsTrigger::Keybinding), &obs),
        EditReaction::NarrowCompletions
    );

    // Classic cycling put the selected item in the buffer: keep the results.
    let mut cycling = observation("cd app/");
    cycling.classic_completions_enabled = true;
    cycling.selected_item_text = Some("app/".to_string());
    assert_eq!(
        edit_reaction(&completions(CompletionsTrigger::AsYouType), &cycling),
        EditReaction::NarrowCompletions
    );

    let mut selected = observation("git status");
    selected.selected_item_text = Some("git status".to_string());
    assert_eq!(edit_reaction(&history_up(""), &selected), EditReaction::Keep);
    selected.buffer_text = "git stat".to_string();
    assert_eq!(edit_reaction(&history_up(""), &selected), EditReaction::CloseMenu);

    let mut moved = observation("echo x");
    moved.first_selection_end = point(0, 3);
    assert_eq!(edit_reaction(&dynamic_enum(), &moved), EditReaction::CloseMenu);
    moved.first_selection_end = point(0, 8);
    assert_eq!(edit_reaction(&dynamic_enum(), &moved), EditReaction::Keep);

    let mut inline = observation("ls");
    inline.inline_selected_command = Some("ls -la".to_string());
    assert_eq!(edit_reaction(&Mode::InlineHistoryMenu, &inline), EditReaction::DropInlineMenu);

    let mut idle = observation("");
    idle.workflow_selected = true;
    assert_eq!(
        edit_reaction(&Mode::Closed, &idle),
        EditReaction::Idle { clear_workflow: true, open_completions: true }
    );
    idle.can_query_history = false;
    assert_eq!(edit_reaction(&Mode::Closed, &idle), EditReaction::Keep);
}

#[test]
fn edit_bookkeeping() {
    let typed = edit_effects(EditOrigin::UserTyped, false, false, true, Some(EditorActionKind::Space));
    assert!(typed.mark_input_dirty);
    assert!(typed.mark_modified_since_block_finished);
    assert!(typed.empty_state_changed);
    assert!(typed.check_alias_expansion);
    assert!(typed.decorate_now);
    assert!(typed.is_user_edit);

    let system = edit_effects(
        EditOrigin::SystemEdit,
        true,
        true,
        true,
        Some(EditorActionKind::CycleCompletionSuggestion),
    );
    assert!(!system.mark_input_dirty);
    assert!(!system.mark_modified_since_block_finished);
    assert!(!system.empty_state_changed);
    assert!(!system.check_alias_expansion);
    assert!(!system.decorate_now);
    assert!(!system.is_user_edit);
}

#[test]
fn accepted_autosuggestion_count_saturates() {
    assert_eq!(next_autosuggestion_accepted_count(0, 3), Some(1));
    assert_eq!(next_autosuggestion_accepted_count(2, 3), Some(3));
    assert_eq!(next_autosuggestion_accepted_count(3, 3), None);
    assert_eq!(next_autosuggestion_accepted_count(-128, 3), Some(3));
}

#[test]
fn small_decisions() {
    assert!(should_show_completions_while_typing(true, 2, true));
    assert!(!should_show_completions_while_typing(true, 1, true));
    assert_eq!(ctrl_r_action(&history_up("")), CtrlRAction::SelectPrevious);
    assert_eq!(ctrl_r_action(&Mode::Closed), CtrlRAction::FuzzySearch);
    assert!(is_input_at_top(InputMode::PinnedToTop, false));
    assert!(!is_input_at_top(InputMode::PinnedToBottom, true));
    assert!(is_input_at_top(InputMode::Waterfall, true));
    assert!(!is_input_at_top(InputMode::Waterfall, false));
}

#[test]
fn keymap_context_lists_keys_in_order() {
    let state = KeymapState {
        voltron_open: false,
        universal_developer_input: true,
        cli_agent_session: false,
        buffer_empty: true,
        workflow_info_box_shown: false,
        prompt_chip_menu_open: false,
        vim_mode_enabled: true,
        vim_normal_mode: false,
        long_running_command: false,
        block_list_empty: false,
    };
    assert_eq!(
        keymap_context_keys(state),
        vec![
            KeymapKey::UniversalDeveloperInput,
            KeymapKey::EmptyInputBuffer,
            KeymapKey::VimModeEnabled,
            KeymapKey::SharedSessionStatus,
            KeymapKey::NonEmptyBlockList,
        ]
    );
}

#[test]
fn workflow_enum_menus_open_with_their_variants() {
    let menu = enum_suggestions_menu::<String>(
        EnumVariants::Static(vec!["dev".to_string(), "prod".to_string()]),
        vec![ByteRange { start: 7, end: 12 }],
        point(0, 12),
        false,
    );
    assert_eq!(menu.listed, vec!["dev".to_string(), "prod".to_string()]);
    assert!(matches!(
        menu.mode,
        Some(InputSuggestionsMode::StaticWorkflowEnumSuggestions {
            menu_position: TabCompletionsMenuPosition::AtFirstCursor,
            ..
        })
    ));

    let off = enum_suggestions_menu::<String>(
        EnumVariants::Dynamic("kubectl get ns".to_string()),
        vec![],
        point(0, 0),
        false,
    );
    assert!(off.mode.is_none());
    assert!(off.listed.is_empty());

    let on = enum_suggestions_menu::<String>(
        EnumVariants::Dynamic("kubectl get ns".to_string()),
        vec![],
        point(0, 0),
        true,
    );
    assert!(matches!(
        on.mode,
        Some(InputSuggestionsMode::DynamicWorkflowEnumSuggestions {
            dynamic_enum_status: DynamicEnumSuggestionStatus::Unapproved,
            ..
        })
    ));
}

#[test]
fn dynamic_enum_results_update_the_menu() {
    let mut mode = dynamic_enum();
    let listed = apply_dynamic_enum_results(&mut mode, Ok::<_, ()>(vec!["a".to_string()]), true);
    assert_eq!(listed, Some(vec!["a".to_string()]));
    match &mode {
        InputSuggestionsMode::DynamicWorkflowEnumSuggestions {
            suggestions,
            dynamic_enum_status,
            command,
            ..
        } => {
            assert_eq!(suggestions, &vec!["a".to_string()]);
            assert_eq!(*dynamic_enum_status, DynamicEnumSuggestionStatus::Success);
            assert_eq!(command, "ls");
        }
        _ => panic!("the mode must stay a dynamic enum"),
    }

    let mut failed = dynamic_enum();
    let listed = apply_dynamic_enum_results(&mut failed, Err::<Vec<String>, _>("boom"), true);
    assert_eq!(listed, Some(vec![]));
    assert!(matches!(
        failed,
        InputSuggestionsMode::DynamicWorkflowEnumSuggestions {
            dynamic_enum_status: DynamicEnumSuggestionStatus::Failure,
            ..
        }
    ));

    let mut stale = dynamic_enum();
    assert_eq!(apply_dynamic_enum_results(&mut stale, Ok::<_, ()>(vec![]), false), None);
}

#[test]
fn confirming_depends_on_the_mode() {
    assert!(matches!(confirm_suggestion_action(&Mode::Closed), ConfirmAction::Refuse));
    assert!(matches!(confirm_suggestion_action(&history_up("")), ConfirmAction::Keep));
    assert!(matches!(
        confirm_suggestion_action(&completions(CompletionsTrigger::Keybinding)),
        ConfirmAction::InsertCompletion { replacement_start: 3 }
    ));
    match confirm_suggestion_action(&dynamic_enum()) {
        ConfirmAction::ReplaceArguments { ranges } => {
            assert_eq!(ranges, vec![ByteRange { start: 4, end: 8 }])
        }
        _ => panic!("expected the argument ranges"),
    }
}

#[test]
fn closing_history_up_restores_the_buffer() {
    let restored = history_up_restore(&history_up("git st"), true).unwrap();
    assert_eq!(restored.buffer, "git st");
    assert_eq!(restored.cursor_point, Some(point(0, 2)));
    assert!(history_up_restore(&history_up("git st"), false).is_none());
    assert!(history_up_restore(&Mode::Closed, true).is_none());

    let mut mode = history_up("x");
    assert_eq!(close_input_suggestions(&mut mode, true), CloseEffect::FocusInput);
    assert!(matches!(mode, InputSuggestionsMode::Closed));
    assert_eq!(close_input_suggestions(&mut mode, true), CloseEffect::AlreadyClosed);
    let mut other = dynamic_enum();
    assert_eq!(close_input_suggestions(&mut other, false), CloseEffect::Notify);
}

#[test]
fn completion_results_open_the_menu() {
    assert_eq!(completion_results_step(false, Some(3)), ResultsStep::Ignore);
    assert_eq!(completion_results_step(true, None), ResultsStep::Close);
    assert_eq!(completion_results_step(true, Some(0)), ResultsStep::Close);
    assert_eq!(completion_results_step(true, Some(2)), ResultsStep::Decide);

    let results = SuggestionResults {
        replacement_span: Span::new(3, 6),
        suggestions: vec!["app/".to_string()],
        match_strategy: MatchStrategy::Fuzzy,
    };
    let mode = completion_suggestions_mode(results, CompletionsTrigger::Keybinding, "cd app x", 6, true);
    match mode {
        InputSuggestionsMode::CompletionSuggestions {
            replacement_start,
            buffer_text_original,
            menu_position,
            ..
        } => {
            assert_eq!(replacement_start, 3);
            assert_eq!(buffer_text_original, "cd app");
            assert_eq!(menu_position, TabCompletionsMenuPosition::AtStartOfReplacementSpan);
        }
        _ => panic!("expected the completions mode"),
    }
}
