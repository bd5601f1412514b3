use terminal_input::completion::native_completion_request;
use terminal_input::event_loop::EventLoop;
use terminal_input::workflow_ranges::ByteRange;
use terminal_input::execution::{
    handle_block_completed_event, ignored_command_to_restore, BlockCompletionState, BlockId, BufferReset,
    PendingShellWidgetHandoff, SessionId, ShellWidgetApplyMode,
};
use terminal_input::history::{start_autosuggestion, AutosuggestionStart, HistoryEntry};
use terminal_input::input_state::InputRenderStateModel;
use terminal_input::remote_edits::DeferredRemoteOperations;
use terminal_input::terminal_events::{
    viewer_loop_steps, OrderedTerminalEventType, ViewerEventAction, ViewerLoopStep,
};

fn state(latest: u64) -> BlockCompletionState<u8, u8, u32> {
    BlockCompletionState {
        deferred_remote_operations: DeferredRemoteOperations::new(BlockId::from(latest)),
        latest_buffer_operations: vec![1, 2, 3],
        render_state: InputRenderStateModel::new(true, 40),
        pending_shell_widget_handoff: None,
        input_contents_before_prompt_chip_command: None,
    }
}

#[test]
fn completed_user_block_starts_a_fresh_buffer() {
    let mut s = state(7);
    let effects = handle_block_completed_event(&mut s, true, BlockId::from(7), BlockId::from(8))
        .expect("a user block has effects");
    assert!(matches!(effects.reset, BufferReset::Empty));
    assert_eq!(effects.hide_block, None);
    assert!(s.latest_buffer_operations.is_empty());
    assert!(!s.render_state.editor_modified_since_block_finished());
    assert_eq!(s.render_state.size_info(), 40);
    assert_eq!(s.deferred_remote_operations.latest_block_id(), BlockId::from(8));
}

#[test]
fn completed_user_block_in_the_same_block_keeps_the_buffer() {
    let mut s = state(8);
    s.input_contents_before_prompt_chip_command = Some("cd ..".to_string());
    let effects = handle_block_completed_event(&mut s, true, BlockId::from(7), BlockId::from(8))
        .expect("a user block has effects");
    assert!(matches!(effects.reset, BufferReset::Keep));
    assert_eq!(s.latest_buffer_operations, vec![1, 2, 3]);
    assert!(s.input_contents_before_prompt_chip_command.is_none());
    assert!(!s.render_state.editor_modified_since_block_finished());
}

#[test]
fn completed_user_block_restores_prompt_chip_text_and_settles_handoff() {
    let mut s = state(7);
    s.input_contents_before_prompt_chip_command = Some("git status".to_string());
    s.pending_shell_widget_handoff = Some(PendingShellWidgetHandoff {
        session_id: SessionId::from(1),
        original_buffer: "draft".to_string(),
        selection: None,
        block_id: BlockId::from(7),
        apply_mode: ShellWidgetApplyMode::Replace,
        cursor_offset: None,
    });
    let effects = handle_block_completed_event(&mut s, true, BlockId::from(7), BlockId::from(8))
        .expect("a user block has effects");
    assert_eq!(effects.hide_block, Some(BlockId::from(7)));
    assert!(s.pending_shell_widget_handoff.is_none());
    match effects.reset {
        BufferReset::Restore { text, .. } => assert_eq!(text, "git status"),
        _ => panic!("expected the saved text back"),
    }
}

#[test]
fn completed_non_user_block_only_clears_the_edited_mark() {
    let mut s = state(7);
    assert!(handle_block_completed_event(&mut s, false, BlockId::from(7), BlockId::from(8)).is_none());
    assert_eq!(s.latest_buffer_operations, vec![1, 2, 3]);
    assert_eq!(s.deferred_remote_operations.latest_block_id(), BlockId::from(7));
    assert!(!s.render_state.editor_modified_since_block_finished());
}

fn history() -> Vec<HistoryEntry> {
    vec![
        HistoryEntry { command: "git push -f".to_string(), pwd: Some("/b".to_string()) },
        HistoryEntry { command: "git pull".to_string(), pwd: Some("/a".to_string()) },
    ]
}

#[test]
fn no_autosuggestion_for_an_empty_buffer_or_without_a_session() {
    let ignored: Vec<String> = Vec::new();
    assert!(matches!(
        start_autosuggestion("", Some(SessionId::from(1)), &history(), Some("/b"), &ignored),
        AutosuggestionStart::Skip
    ));
    assert!(matches!(
        start_autosuggestion("git", None, &history(), Some("/b"), &ignored),
        AutosuggestionStart::Skip
    ));
}

#[test]
fn autosuggestion_takes_the_first_unignored_history_command() {
    let ignored = vec!["git push -f".to_string()];
    match start_autosuggestion("git", Some(SessionId::from(1)), &history(), Some("/b"), &ignored) {
        AutosuggestionStart::FromHistory(c) => assert_eq!(c, "git pull"),
        _ => panic!("expected a history command"),
    }
    match start_autosuggestion("git", Some(SessionId::from(1)), &history(), Some("/b"), &[]) {
        AutosuggestionStart::FromHistory(c) => assert_eq!(c, "git push -f"),
        _ => panic!("expected a history command"),
    }
    assert!(matches!(
        start_autosuggestion("cargo", Some(SessionId::from(1)), &history(), Some("/b"), &ignored),
        AutosuggestionStart::AskCompleter
    ));
}

#[test]
fn viewer_steps_bracket_each_event_in_a_remote_update() {
    let mut event_loop: EventLoop<OrderedTerminalEventType> = EventLoop::new(Some(1));
    assert!(event_loop
        .process_ordered_terminal_event(1, OrderedTerminalEventType::Resize { rows: 3, columns: 4 })
        .is_empty());
    let released =
        event_loop.process_ordered_terminal_event(0, OrderedTerminalEventType::CommandExecutionFinished);
    let steps = viewer_loop_steps(released);
    assert_eq!(steps.len(), 8);
    for (k, step) in steps.iter().enumerate() {
        match k % 4 {
            0 => assert!(matches!(step, ViewerLoopStep::StartRemoteUpdate)),
            1 => assert!(matches!(step, ViewerLoopStep::Apply { .. })),
            2 => assert!(matches!(step, ViewerLoopStep::Wakeup)),
            _ => assert!(matches!(step, ViewerLoopStep::EndRemoteUpdate)),
        }
    }
    assert!(matches!(
        steps[1],
        ViewerLoopStep::Apply { event_no: 0, action: ViewerEventAction::Ignore, caught_up: false }
    ));
    assert!(matches!(
        steps[5],
        ViewerLoopStep::Apply {
            event_no: 1,
            action: ViewerEventAction::Resize { rows: 3, columns: 4 },
            caught_up: true
        }
    ));
}

#[test]
fn warning_when_too_many_events_are_buffered() {
    let mut event_loop: EventLoop<u8> = EventLoop::new(None);
    for n in 1..50 {
        assert!(!event_loop.warns_on_arrival(n));
        event_loop.process_ordered_terminal_event(n, 0);
    }
    assert_eq!(event_loop.buffered_len(), 49);
    assert!(!event_loop.warns_on_arrival(49));
    assert!(event_loop.warns_on_arrival(50));
}

#[test]
fn stale_native_completion_requests_are_dropped() {
    let sel = vec![ByteRange { start: 6, end: 6 }];
    assert_eq!(
        native_completion_request("git ch main", 6, "git ch main", &sel, "git ch main", &sel),
        Some("git ch".to_string())
    );
    assert_eq!(
        native_completion_request("git ch main", 6, "git ch main", &sel, "git che main", &sel),
        None
    );
    let moved = vec![ByteRange { start: 2, end: 2 }];
    assert_eq!(
        native_completion_request("git ch main", 6, "git ch main", &sel, "git ch main", &moved),
        None
    );
}

#[test]
fn running_a_command_unignores_it() {
    assert_eq!(ignored_command_to_restore("git push -f"), Some("git push -f".to_string()));
    assert_eq!(ignored_command_to_restore(""), None);
}
