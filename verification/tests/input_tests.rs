use terminal_input::completion::{native_shell_suggestion_results, Span};
use terminal_input::execution::{
    can_execute_command, can_query_history, execution_route, shell_widget_handoff_command,
    user_block_completed_plan, BlockId, BufferReset, ByteOffset, CanExecuteCommand,
    CommandExecutionSource, CursorRestore, DenyExecutionReason, ExecutionRoute,
    PendingShellWidgetHandoff, SessionId, ShellWidgetApplyMode,
};
use terminal_input::shared_session::{Role, SharedSessionStatus};

fn pending_ctrl_r_handoff() -> PendingShellWidgetHandoff {
    PendingShellWidgetHandoff {
        session_id: SessionId::from(1),
        original_buffer: "draft".to_string(),
        selection: None,
        block_id: BlockId::from(7),
        apply_mode: ShellWidgetApplyMode::Replace,
        cursor_offset: None,
    }
}

fn pending_ctrl_t_handoff() -> PendingShellWidgetHandoff {
    PendingShellWidgetHandoff {
        session_id: SessionId::from(1),
        original_buffer: "echo ".to_string(),
        selection: None,
        block_id: BlockId::from(7),
        apply_mode: ShellWidgetApplyMode::Splice,
        cursor_offset: Some(ByteOffset::from(5)),
    }
}

#[test]
fn matching_shell_widget_handoff_selection_is_applied() {
    let mut handoff = pending_ctrl_r_handoff();
    handoff.maybe_apply_selection(SessionId::from(1), "echo selected");
    assert_eq!(handoff.restore_text(), "echo selected");

    let mut handoff = pending_ctrl_t_handoff();
    handoff.maybe_apply_selection(SessionId::from(1), "selected/file.txt");
    assert_eq!(handoff.selection, Some("selected/file.txt".to_string()));
}

#[test]
fn unsolicited_or_stale_shell_widget_handoff_selection_is_ignored() {
    let mut handoff = pending_ctrl_r_handoff();
    handoff.maybe_apply_selection(SessionId::from(2), "echo selected");
    assert_eq!(handoff.restore_text(), "draft");
}

#[test]
fn empty_shell_widget_handoff_selection_keeps_original_buffer() {
    let mut handoff = pending_ctrl_r_handoff();
    handoff.maybe_apply_selection(SessionId::from(1), "");
    assert_eq!(handoff.restore_text(), "draft");

    let mut handoff = pending_ctrl_t_handoff();
    handoff.maybe_apply_selection(SessionId::from(1), "");
    assert_eq!(handoff.selection, None);
}

#[test]
fn native_shell_replacement_span_is_clamped_into_the_buffer_before_the_cursor() {
    let buffer_text = "cd app/D";
    let cursor_position = buffer_text.len();

    let honored = native_shell_suggestion_results(
        Vec::<String>::new(),
        Some(Span::new(3, 8)),
        buffer_text,
        cursor_position,
    );
    assert_eq!(
        honored.replacement_span,
        Span::new(3, 8),
        "a span a shell can really report must survive untouched"
    );

    let out_of_range = native_shell_suggestion_results(
        Vec::<String>::new(),
        Some(Span::new(1_000_000, 1_000_001)),
        buffer_text,
        cursor_position,
    );
    assert_eq!(out_of_range.replacement_span, Span::new(8, 8));

    let saturated = native_shell_suggestion_results(
        Vec::<String>::new(),
        Some(Span::new(usize::MAX, usize::MAX)),
        buffer_text,
        cursor_position,
    );
    assert_eq!(saturated.replacement_span, Span::new(8, 8));
}

#[test]
fn native_shell_replacement_span_is_clamped_to_the_cursor_not_the_whole_buffer() {
    let buffer_text = "cd app/Documents";
    let cursor_position = "cd app/D".len();

    let results = native_shell_suggestion_results(
        Vec::<String>::new(),
        Some(Span::new(12, 16)),
        buffer_text,
        cursor_position,
    );

    assert_eq!(results.replacement_span, Span::new(8, 8));
}

#[test]
fn native_shell_replacement_span_falls_back_to_the_whitespace_token_when_none_is_reported() {
    let buffer_text = "cd app/D";

    let results =
        native_shell_suggestion_results(Vec::<String>::new(), None, buffer_text, buffer_text.len());

    assert_eq!(results.replacement_span, Span::new(3, 8));
}

#[test]
fn replace_widget_command_carries_cursor_and_hex_buffer() {
    // "héllo": the cursor after "hé" is byte 3 but character 2.
    let command = shell_widget_handoff_command(
        "__warp_ctrl_r",
        ShellWidgetApplyMode::Replace,
        "héllo",
        Some(ByteOffset::from(3)),
    );
    assert_eq!(command, " __warp_ctrl_r 2:68c3a96c6c6f");
}

#[test]
fn splice_widget_command_is_the_bare_helper() {
    let command = shell_widget_handoff_command(
        "__warp_ctrl_t",
        ShellWidgetApplyMode::Splice,
        "echo ",
        Some(ByteOffset::from(5)),
    );
    assert_eq!(command, " __warp_ctrl_t");

    let no_cursor =
        shell_widget_handoff_command("__warp_ctrl_r", ShellWidgetApplyMode::Replace, "ls", None);
    assert_eq!(no_cursor, " __warp_ctrl_r");
}

#[test]
fn replace_widget_command_counts_a_long_buffer_in_decimal() {
    let buffer = "a".repeat(123);
    let command = shell_widget_handoff_command(
        "w",
        ShellWidgetApplyMode::Replace,
        &buffer,
        Some(ByteOffset::from(120)),
    );
    assert_eq!(command, format!(" w 120:{}", "61".repeat(123)));
}

#[test]
fn command_execution_requires_a_ready_session() {
    assert_eq!(
        can_execute_command(false, false, false, false, Some(true)),
        CanExecuteCommand::No(DenyExecutionReason::NotBootstrapped)
    );
    assert_eq!(
        can_execute_command(true, true, false, false, Some(true)),
        CanExecuteCommand::No(DenyExecutionReason::ExistingActiveCommand)
    );
    assert_eq!(can_execute_command(true, true, true, false, Some(true)), CanExecuteCommand::Yes);
    assert_eq!(
        can_execute_command(true, false, false, false, None),
        CanExecuteCommand::No(DenyExecutionReason::HistoryNotAppendable)
    );
    assert_eq!(
        can_execute_command(true, false, false, false, Some(false)),
        CanExecuteCommand::No(DenyExecutionReason::HistoryNotAppendable)
    );
    assert_eq!(can_execute_command(true, false, false, true, None), CanExecuteCommand::Yes);
    assert!(DenyExecutionReason::ExistingActiveCommand.is_existing_active_command());
    assert!(!DenyExecutionReason::NotBootstrapped.is_existing_active_command());
    assert!(CanExecuteCommand::No(DenyExecutionReason::NotBootstrapped).is_no());
    assert!(!CanExecuteCommand::Yes.is_no());
}

#[test]
fn history_is_queryable_only_with_a_bootstrapped_session() {
    assert!(!can_query_history(None, true, true));
    assert!(!can_query_history(Some(true), false, false));
    assert!(can_query_history(Some(true), true, false));
    assert!(!can_query_history(Some(false), true, false));
    assert!(can_query_history(Some(false), true, true));
}

#[test]
fn execution_requests_are_routed_by_role() {
    assert_eq!(execution_route(&SharedSessionStatus::NotShared), ExecutionRoute::RunLocally);
    assert_eq!(execution_route(&SharedSessionStatus::reader()), ExecutionRoute::Refuse);
    assert_eq!(
        execution_route(&SharedSessionStatus::executor()),
        ExecutionRoute::FreezeAndRequest
    );
    assert_eq!(
        execution_route(&SharedSessionStatus::ActiveViewer { role: Role::Full }),
        ExecutionRoute::FreezeAndRequest
    );
    assert_eq!(execution_route(&SharedSessionStatus::ViewPending), ExecutionRoute::Request);
}

#[test]
fn queued_rows_preserve_the_draft() {
    let queued: CommandExecutionSource<u64, ()> = CommandExecutionSource::SharedSession {
        participant_id: 3,
        block_id: BlockId::from(1),
        preserve_input: true,
    };
    assert!(queued.should_preserve_input());
    let typed: CommandExecutionSource<u64, ()> = CommandExecutionSource::User;
    assert!(!typed.should_preserve_input());
}

#[test]
fn completed_replace_handoff_restores_the_selected_line() {
    let mut handoff = pending_ctrl_r_handoff();
    handoff.cursor_offset = Some(ByteOffset::from(2));
    handoff.maybe_apply_selection(SessionId::from(1), "git status");
    let plan =
        user_block_completed_plan(BlockId::from(7), BlockId::from(8), BlockId::from(7), Some(handoff), None);
    assert!(plan.remaining_handoff.is_none());
    assert_eq!(plan.hide_block, Some(BlockId::from(7)));
    match plan.reset {
        BufferReset::Restore { text, cursor } => {
            assert_eq!(text, "git status");
            assert!(matches!(cursor, CursorRestore::Leave));
        }
        _ => panic!("expected the selected line to be restored"),
    }
}

#[test]
fn completed_splice_handoff_inserts_at_the_cursor() {
    let mut handoff = pending_ctrl_t_handoff();
    handoff.maybe_apply_selection(SessionId::from(1), "src/main.rs");
    let plan =
        user_block_completed_plan(BlockId::from(7), BlockId::from(8), BlockId::from(7), Some(handoff), None);
    match plan.reset {
        BufferReset::Restore { text, cursor } => {
            assert_eq!(text, "echo ");
            match cursor {
                CursorRestore::InsertAt { insertion, offset } => {
                    assert_eq!(insertion, "src/main.rs");
                    assert_eq!(offset, ByteOffset::from(5));
                }
                _ => panic!("expected an insertion"),
            }
        }
        _ => panic!("expected the draft to be restored"),
    }
}

#[test]
fn cancelled_splice_handoff_puts_the_cursor_back() {
    let handoff = pending_ctrl_t_handoff();
    let plan =
        user_block_completed_plan(BlockId::from(7), BlockId::from(8), BlockId::from(7), Some(handoff), None);
    match plan.reset {
        BufferReset::Restore { text, cursor } => {
            assert_eq!(text, "echo ");
            assert!(matches!(cursor, CursorRestore::PlaceAt { offset } if offset == ByteOffset::from(5)));
        }
        _ => panic!("expected the draft to be restored"),
    }
}

#[test]
fn prompt_chip_restore_wins_over_the_handoff() {
    let mut handoff = pending_ctrl_r_handoff();
    handoff.maybe_apply_selection(SessionId::from(1), "git status");
    let plan = user_block_completed_plan(
        BlockId::from(7),
        BlockId::from(8),
        BlockId::from(7),
        Some(handoff),
        Some("cargo test".to_string()),
    );
    match plan.reset {
        BufferReset::Restore { text, .. } => assert_eq!(text, "cargo test"),
        _ => panic!("expected the prompt chip text"),
    }
}

#[test]
fn other_blocks_leave_the_handoff_pending() {
    let plan = user_block_completed_plan(
        BlockId::from(3),
        BlockId::from(8),
        BlockId::from(7),
        Some(pending_ctrl_r_handoff()),
        None,
    );
    assert!(plan.remaining_handoff.is_some());
    assert_eq!(plan.hide_block, None);
    assert!(matches!(plan.reset, BufferReset::Empty));

    let unchanged = user_block_completed_plan(BlockId::from(3), BlockId::from(8), BlockId::from(8), None, None);
    assert!(matches!(unchanged.reset, BufferReset::Keep));
}
