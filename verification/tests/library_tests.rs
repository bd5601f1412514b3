use terminal_input::completion::{
    completion_dispatch, completion_insertion_text, completions_fallback_strategy,
    longest_common_prefix, resolve_completion_sources, strip_control_characters,
    update_tab_completion_menu, use_spec_results, CompletionDispatch, CompletionSources,
    CompletionsFallbackStrategy, CompletionsTrigger, TabMenuUpdate,
};
use terminal_input::decorations::{
    decoration_step, error_underline_ranges, syntax_highlight_groups,
    valid_command_for_error_underline, DecorationStep, InputBackgroundJobOptions, ParsedToken,
    SuggestionTypeId,
};
use terminal_input::event_loop::EventLoop;
use terminal_input::expansion::{
    expanded_command_on_execute, expansion_on_space_text, expansion_value,
    is_potential_expansion, Executing,
};
use terminal_input::history::{
    autosuggestion_suffix, first_not_ignored, get_last_word_of_command_in_history,
    inline_history_query, reverse_chronological_potential_autosuggestions,
    select_down_closes_menu, sort_and_dedupe_suggestions, up_arrow_suggestions, HistoryEntry,
    HistorySuggestion, LastWordInsertion,
};
use terminal_input::inline_menu::{
    build_tab_configs, inline_history_menu_reaction, query_admits_commands, HistoryTab,
    InlineHistoryMenuEvent, InlineHistoryReaction, InlineMenuType, QueryFilter,
};
use terminal_input::input_state::InputSuggestionsMode;
use terminal_input::execution::{BlockId, SessionId};
use terminal_input::prompt::{
    current_argument, first_word_of, prompt_and_rprompt_text, select_workflow_argument,
    subshell_flag_render_state, workflow_arg_was_deleted, ArgumentHighlights, ArgumentSelection,
    SubshellInfo, SubshellRenderState, SubshellSource,
};
use terminal_input::remote_edits::DeferredRemoteOperations;
use terminal_input::shared_session::{
    cli_agent_sync, connect_endpoint, join_link, join_native_intent, BlockIndex,
    BlockListSummary, BlockSummary, CliAgentRemoteState, CliAgentSync, DeniedBody,
    RemoteUpdateGuard, SharedSessionScrollbackType, SharedSessionSource, SharedSessionStatus,
};
use terminal_input::terminal_events::{decode_pty_bytes, viewer_event_action, OrderedTerminalEventType, ViewerEventAction};
use terminal_input::text::decimal_string;
use terminal_input::workflow_ranges::{build_text_run_ranges_for_workflows, ByteRange};

fn suggestion(text: &str, in_current_session: bool, timestamp: i64) -> HistorySuggestion {
    HistorySuggestion { text: text.to_string(), in_current_session, timestamp }
}

fn texts(s: &[HistorySuggestion]) -> Vec<&str> {
    s.iter().map(|x| x.text.as_str()).collect()
}

#[test]
fn up_arrow_history_orders_other_sessions_first_and_keeps_latest() {
    let out = sort_and_dedupe_suggestions(vec![
        suggestion("ls", true, 5),
        suggestion("git status", false, 9),
        suggestion("ls", false, 1),
        suggestion("", true, 3),
        suggestion("cargo test", true, 2),
    ]);
    assert_eq!(texts(&out), vec!["git status", "cargo test", "ls"]);
}

#[test]
fn up_arrow_history_drops_ignored_commands() {
    let ignored = vec!["rm -rf target".to_string()];
    let out = up_arrow_suggestions(
        vec![suggestion("rm -rf target", true, 1), suggestion("make", true, 2)],
        Some(&ignored),
    );
    assert_eq!(texts(&out), vec!["make"]);
    let all = up_arrow_suggestions(
        vec![suggestion("rm -rf target", true, 1), suggestion("make", true, 2)],
        None,
    );
    assert_eq!(texts(&all), vec!["rm -rf target", "make"]);
}

#[test]
fn autosuggestions_prefer_the_working_directory() {
    let entries = vec![
        HistoryEntry { command: "git push".to_string(), pwd: Some("/a".to_string()) },
        HistoryEntry { command: "git pull".to_string(), pwd: Some("/b".to_string()) },
        HistoryEntry { command: "ls".to_string(), pwd: Some("/b".to_string()) },
        HistoryEntry { command: "git log".to_string(), pwd: None },
    ];
    let out = reverse_chronological_potential_autosuggestions("git", &entries, Some("/b"));
    let commands: Vec<&str> = out.iter().map(|e| e.command.as_str()).collect();
    assert_eq!(commands, vec!["git pull", "git log", "git push"]);
}

#[test]
fn autosuggestion_skips_ignored_and_shows_the_suffix() {
    let candidates = vec!["git push -f".to_string(), "git pull".to_string()];
    let ignored = vec!["git push -f".to_string()];
    assert_eq!(first_not_ignored(&candidates, &ignored), Some("git pull".to_string()));
    assert_eq!(first_not_ignored(&ignored, &ignored), None);
    assert_eq!(autosuggestion_suffix("git p", "git p", Some("git pull")), Some("ull".to_string()));
    assert_eq!(autosuggestion_suffix("git pu", "git p", Some("git pull")), None);
    assert_eq!(autosuggestion_suffix("git p", "git p", Some("ls")), None);
}

#[test]
fn last_word_insertion_walks_back_through_history() {
    let commands = vec!["echo one".to_string(), "cat two.txt".to_string()];
    assert_eq!(get_last_word_of_command_in_history(&commands, 0), Some("two.txt".to_string()));
    assert_eq!(get_last_word_of_command_in_history(&commands, 1), Some("one".to_string()));
    assert_eq!(get_last_word_of_command_in_history(&commands, 7), Some("one".to_string()));
    assert_eq!(get_last_word_of_command_in_history(&[], 0), None);

    let mut state = LastWordInsertion::new();
    state.mark_inserted();
    state.update_last_word_insertion_state();
    assert_eq!(state.insert_command_from_history_index, 1);
    state.update_last_word_insertion_state();
    assert_eq!(state.insert_command_from_history_index, 0);
}

#[test]
fn inline_history_query_matches_prefixes() {
    let commands = vec!["git status".to_string(), "ls".to_string(), "git log".to_string()];
    let rows = inline_history_query("  git ", true, &commands);
    let found: Vec<&str> = rows.iter().map(|r| r.command.as_str()).collect();
    assert_eq!(found, vec!["git status", "git log"]);
    assert_eq!(rows[1].rank, 1);
    assert_eq!(rows[0].prefix_match_len, 3);
    assert!(inline_history_query("git", false, &commands).is_empty());
    assert_eq!(inline_history_query("", true, &commands).len(), 3);
    assert!(select_down_closes_menu(0, None));
    assert!(select_down_closes_menu(3, Some(2)));
    assert!(!select_down_closes_menu(3, Some(1)));
}

#[test]
fn completion_sources_follow_the_toggles() {
    assert_eq!(
        resolve_completion_sources(false, false, CompletionsTrigger::Keybinding, false, true),
        CompletionSources::WarpOnly
    );
    assert_eq!(
        resolve_completion_sources(true, false, CompletionsTrigger::Keybinding, true, true),
        CompletionSources::WarpThenNative
    );
    assert_eq!(
        resolve_completion_sources(true, false, CompletionsTrigger::AsYouType, true, true),
        CompletionSources::WarpOnly
    );
    assert_eq!(
        resolve_completion_sources(true, true, CompletionsTrigger::Keybinding, false, true),
        CompletionSources::Disabled
    );
    assert_eq!(
        completions_fallback_strategy(CompletionSources::WarpOnly, CompletionsTrigger::Keybinding),
        CompletionsFallbackStrategy::FilePaths
    );
    assert_eq!(
        completions_fallback_strategy(CompletionSources::NativeOnly, CompletionsTrigger::Keybinding),
        CompletionsFallbackStrategy::NoFallback
    );
    assert_eq!(completion_dispatch(CompletionSources::NativeOnly), CompletionDispatch::ShellUpFront);
    assert!(use_spec_results(Some(2), CompletionSources::WarpThenNative));
    assert!(!use_spec_results(Some(0), CompletionSources::WarpThenNative));
    assert!(!use_spec_results(Some(2), CompletionSources::NativeOnly));
}

#[test]
fn completion_text_is_cleaned_and_spaced() {
    assert_eq!(strip_control_characters("a\u{7}b\nc"), "abc");
    assert_eq!(completion_insertion_text("ls", false, false, true, '/', false), "ls ");
    assert_eq!(completion_insertion_text("app/", false, false, true, '/', false), "app/");
    assert_eq!(completion_insertion_text("--flag=", false, false, true, '/', false), "--flag=");
    assert_eq!(completion_insertion_text("ls", true, false, true, '/', false), "ls");
    assert_eq!(completion_insertion_text("ls", false, false, true, '/', true), "ls");
    assert_eq!(
        longest_common_prefix(&["checkout".to_string(), "cherry-pick".to_string()]),
        Some("che".to_string())
    );
    assert_eq!(longest_common_prefix(&[]), None);
}

#[test]
fn tab_menu_follows_the_edited_word() {
    assert!(matches!(
        update_tab_completion_menu("cd a", 4, 3, "cd a", false, true, None),
        TabMenuUpdate::Filter { current_word } if current_word == "a"
    ));
    assert!(matches!(
        update_tab_completion_menu("cd", 2, 3, "cd a", false, true, None),
        TabMenuUpdate::Close
    ));
    assert!(matches!(
        update_tab_completion_menu("cd b", 4, 3, "cd a", false, true, None),
        TabMenuUpdate::Close
    ));
    assert!(matches!(
        update_tab_completion_menu("cd app/", 7, 3, "cd a", true, false, Some("app/")),
        TabMenuUpdate::KeepOpen
    ));
}

#[test]
fn shared_session_links_and_endpoints() {
    assert_eq!(join_native_intent("warp", "abc"), "warp://shared_session/abc");
    assert_eq!(
        join_link(true, "https://app.warp.dev", "warp", "abc", true),
        "https://app.warp.dev/session/abc?preview=true"
    );
    assert_eq!(join_link(false, "https://x", "warp", "abc", false), "warp://shared_session/abc");
    assert_eq!(
        connect_endpoint("/sessions/1".to_string(), Some("wss://s"), true, Some("v1.2")),
        Some("wss://s/sessions/1?version=v1.2".to_string())
    );
    assert_eq!(
        connect_endpoint("/s?x=1".to_string(), Some("wss://s"), true, None),
        Some("wss://s/s?x=1&version=v0.00.000".to_string())
    );
    assert_eq!(
        connect_endpoint("/s".to_string(), Some("wss://s"), false, Some("v1")),
        Some("wss://s/s".to_string())
    );
    assert_eq!(connect_endpoint("/s".to_string(), None, true, None), None);
}

#[test]
fn shared_session_status_keys() {
    assert_eq!(SharedSessionStatus::reader().as_keymap_context(), "SharedSessionStatus_Reader");
    assert_eq!(SharedSessionStatus::executor().as_keymap_context(), "SharedSessionStatus_Executor");
    assert!(SharedSessionStatus::ViewPending.is_viewer());
    assert!(!SharedSessionStatus::NotShared.is_sharer_or_viewer());
    assert!(SharedSessionStatus::executor().is_executor());
    assert!(!SharedSessionStatus::reader().is_executor());
}

#[test]
fn scrollback_starts_at_the_first_eligible_block() {
    let model = BlockListSummary {
        blocks: vec![
            BlockSummary { index: BlockIndex(0), is_scrollback_block_for_shared_session: false },
            BlockSummary { index: BlockIndex(1), is_scrollback_block_for_shared_session: true },
            BlockSummary { index: BlockIndex(2), is_scrollback_block_for_shared_session: true },
        ],
        active_block_index: BlockIndex(3),
    };
    assert_eq!(SharedSessionScrollbackType::All.first_block_index(&model), BlockIndex(1));
    assert_eq!(
        SharedSessionScrollbackType::FromBlock { block_index: BlockIndex(2) }.first_block_index(&model),
        BlockIndex(2)
    );
    assert_eq!(SharedSessionScrollbackType::NoScrollback.first_block_index(&model), BlockIndex(3));
    assert_eq!(
        SharedSessionScrollbackType::FromBlock { block_index: BlockIndex(9) }.first_block_index(&model),
        BlockIndex(3)
    );
}

#[test]
fn remote_updates_are_not_echoed() {
    let guard = RemoteUpdateGuard::new();
    assert!(guard.should_broadcast());
    let update = guard.start_remote_update();
    assert!(!update.should_broadcast());
    let guard = RemoteUpdateGuard::end_remote_update(update);
    assert!(guard.should_broadcast());
}

#[test]
fn agent_state_sync() {
    assert_eq!(
        cli_agent_sync(CliAgentRemoteState::Active { is_rich_input_open: true }, false, true),
        CliAgentSync { create_session: true, set_rich_input_open: Some(true) }
    );
    assert_eq!(
        cli_agent_sync(CliAgentRemoteState::Active { is_rich_input_open: false }, false, true),
        CliAgentSync { create_session: true, set_rich_input_open: None }
    );
    assert_eq!(
        cli_agent_sync(CliAgentRemoteState::Active { is_rich_input_open: false }, true, true),
        CliAgentSync { create_session: false, set_rich_input_open: Some(false) }
    );
    assert_eq!(
        cli_agent_sync(CliAgentRemoteState::Inactive, false, false),
        CliAgentSync { create_session: false, set_rich_input_open: None }
    );
}

#[test]
fn session_sources_and_denied_body() {
    let source = SharedSessionSource::ambient_agent(Some("task-1".to_string()));
    assert_eq!(source.orchestrator_task_id(), Some("task-1"));
    assert_eq!(SharedSessionSource::default().orchestrator_task_id(), None);
    assert_eq!(
        DeniedBody::new().subheader(),
        "This account has reached its limit on shared sessions."
    );
}

#[test]
fn events_are_released_in_order() {
    let mut event_loop: EventLoop<&str> = EventLoop::new(Some(2));
    assert!(event_loop.process_ordered_terminal_event(1, "b").is_empty());
    assert!(event_loop.process_ordered_terminal_event(2, "c").is_empty());
    assert_eq!(event_loop.buffered_len(), 2);
    let released = event_loop.process_ordered_terminal_event(0, "a");
    let numbers: Vec<usize> = released.iter().map(|e| e.event_no).collect();
    let events: Vec<&str> = released.iter().map(|e| e.event).collect();
    assert_eq!(numbers, vec![0, 1, 2]);
    assert_eq!(events, vec!["a", "b", "c"]);
    assert!(released[2].caught_up && !released[0].caught_up);
    assert_eq!(event_loop.last_received_event_no(), Some(2));
    assert_eq!(event_loop.buffered_len(), 0);
}

#[test]
fn pty_bytes_are_decompressed() {
    let payload = b"hello hello hello hello".to_vec();
    let compressed = lz4_flex::block::compress_prepend_size(&payload);
    assert_ne!(compressed, payload);
    assert_eq!(decode_pty_bytes(&compressed), Some(payload.clone()));
    assert_eq!(decode_pty_bytes(&[1, 2]), None);
    match viewer_event_action(OrderedTerminalEventType::PtyBytesRead { bytes: compressed }) {
        ViewerEventAction::ParseBytes { bytes } => assert_eq!(bytes, payload),
        _ => panic!("expected the decompressed bytes"),
    }
    assert!(matches!(
        viewer_event_action(OrderedTerminalEventType::PtyBytesRead { bytes: vec![9, 9] }),
        ViewerEventAction::CorruptPtyBytes
    ));
}

#[test]
fn workflow_runs_merge_into_argument_ranges() {
    let merged = build_text_run_ranges_for_workflows(&[
        ByteRange { start: 10, end: 12 },
        ByteRange { start: 0, end: 3 },
        ByteRange { start: 3, end: 5 },
    ]);
    assert_eq!(merged, vec![ByteRange { start: 0, end: 5 }, ByteRange { start: 10, end: 12 }]);
}

#[test]
fn decoration_underlines_only_plain_command_names() {
    assert!(valid_command_for_error_underline("gti"));
    assert!(!valid_command_for_error_underline("!!"));
    assert!(!valid_command_for_error_underline("a,b"));
    let tokens = vec![
        ParsedToken { text: "gti".to_string(), span: ByteRange { start: 0, end: 3 }, token_index: 0, suggestion_type: None },
        ParsedToken { text: "status".to_string(), span: ByteRange { start: 4, end: 10 }, token_index: 1, suggestion_type: None },
        ParsedToken { text: "ls".to_string(), span: ByteRange { start: 13, end: 15 }, token_index: 0, suggestion_type: Some(SuggestionTypeId(1)) },
        ParsedToken { text: "-la".to_string(), span: ByteRange { start: 16, end: 19 }, token_index: 1, suggestion_type: Some(SuggestionTypeId(2)) },
        ParsedToken { text: "cat".to_string(), span: ByteRange { start: 22, end: 25 }, token_index: 0, suggestion_type: Some(SuggestionTypeId(1)) },
    ];
    assert_eq!(error_underline_ranges(&tokens), vec![ByteRange { start: 0, end: 3 }]);
    let groups = syntax_highlight_groups(&tokens);
    assert_eq!(groups.len(), 2);
    let commands = groups.iter().find(|g| g.suggestion_type == SuggestionTypeId(1)).unwrap();
    assert_eq!(commands.spans, vec![ByteRange { start: 13, end: 15 }, ByteRange { start: 22, end: 25 }]);
    let on = InputBackgroundJobOptions::default().with_command_decoration();
    assert!(on.command_decoration());
    assert_eq!(decoration_step(InputBackgroundJobOptions::default(), true, false), DecorationStep::Skip);
    assert_eq!(decoration_step(on, false, false), DecorationStep::Skip);
    assert_eq!(decoration_step(on, true, true), DecorationStep::ApplyCached);
    assert_eq!(decoration_step(on, true, false), DecorationStep::Parse);
}

#[test]
fn inline_menus() {
    assert_eq!(InlineMenuType::InlineHistoryMenu.display_label(), "History");
    assert_eq!(InlineMenuType::IndexedReposMenu.display_label(), "/Repos");
    assert_eq!(
        InlineMenuType::from_suggestions_mode(&InputSuggestionsMode::<String>::IndexedReposMenu),
        Some(InlineMenuType::IndexedReposMenu)
    );
    assert_eq!(InlineMenuType::from_suggestions_mode(&InputSuggestionsMode::<String>::Closed), None);
    let tabs = build_tab_configs();
    assert_eq!(tabs.len(), 1);
    assert_eq!(tabs[0].id, HistoryTab::All);
    assert_eq!(tabs[0].label, "All");
    assert!(tabs[0].filters.is_empty());
    assert!(query_admits_commands(&[]));
    assert!(query_admits_commands(&[QueryFilter::Commands]));
    let accept: InlineHistoryMenuEvent<()> =
        InlineHistoryMenuEvent::AcceptCommand { command: "ls".to_string(), linked_workflow_data: None };
    assert!(matches!(
        inline_history_menu_reaction(accept, true),
        InlineHistoryReaction::Run { close_menu: true, command } if command == "ls"
    ));
    assert!(matches!(
        inline_history_menu_reaction(InlineHistoryMenuEvent::<()>::Close, false),
        InlineHistoryReaction::Nothing
    ));
    assert!(matches!(
        inline_history_menu_reaction(InlineHistoryMenuEvent::<()>::Close, true),
        InlineHistoryReaction::CloseAndRestore
    ));
}

#[test]
fn prompt_text_and_subshell_flag() {
    let (left, right) = prompt_and_rprompt_text(
        true,
        Some("~/code".to_string()),
        Some("$".to_string()),
        Some("main".to_string()),
    );
    assert_eq!(left, "~/code\n$");
    assert_eq!(right, Some("main".to_string()));
    assert_eq!(prompt_and_rprompt_text(false, None, Some("$".to_string()), None).0, "");
    assert_eq!(prompt_and_rprompt_text(true, None, Some("$".to_string()), None).0, "$");

    assert_eq!(first_word_of("  ssh host"), Some("ssh".to_string()));
    assert_eq!(first_word_of("   "), None);
    let info = SubshellInfo { env_var_collection_name: None, spawning_command: " bash -l".to_string() };
    let session = Some(SessionId::from(4));
    assert!(subshell_flag_render_state(true, session, Some(&info), None).is_none());
    assert!(matches!(
        subshell_flag_render_state(false, session, Some(&info), None),
        Some(SubshellRenderState::Flag(SubshellSource::Command(c))) if c == "bash"
    ));
    assert!(matches!(
        subshell_flag_render_state(false, session, Some(&info), Some(session)),
        Some(SubshellRenderState::Flagpole)
    ));
    let named = SubshellInfo {
        env_var_collection_name: Some("prod".to_string()),
        spawning_command: String::new(),
    };
    assert!(matches!(
        subshell_flag_render_state(false, session, Some(&named), Some(Some(SessionId::from(1)))),
        Some(SubshellRenderState::Flag(SubshellSource::EnvVarCollection(n))) if n == "prod"
    ));
}

#[test]
fn workflow_arguments_under_the_cursor() {
    let ranges = vec![ByteRange { start: 5, end: 9 }, ByteRange { start: 12, end: 15 }, ByteRange { start: 20, end: 24 }];
    let args = vec![
        ArgumentHighlights { argument: 0, highlights: vec![0, 2] },
        ArgumentHighlights { argument: 1, highlights: vec![1] },
    ];
    assert!(!workflow_arg_was_deleted(3, &args));
    assert!(workflow_arg_was_deleted(2, &args));
    assert_eq!(current_argument(13, &ranges, &args), Some(1));
    assert_eq!(current_argument(21, &ranges, &args), Some(0));
    assert_eq!(current_argument(10, &ranges, &args), None);
    match select_workflow_argument(&ranges, &args, 0) {
        ArgumentSelection::Select { ranges: Some(selected) } => {
            assert_eq!(selected, vec![ByteRange { start: 5, end: 9 }, ByteRange { start: 20, end: 24 }])
        }
        _ => panic!("expected the argument's ranges"),
    }
    assert!(matches!(select_workflow_argument(&ranges[..2], &args, 0), ArgumentSelection::PauseCycling));
}

#[test]
fn alias_expansion() {
    assert!(is_potential_expansion(2, 3, Executing::No));
    assert!(!is_potential_expansion(2, 2, Executing::No));
    assert!(is_potential_expansion(2, 2, Executing::Yes));
    assert_eq!(
        expansion_value(2, 3, Executing::No, Some("git status".to_string()), false, None, false),
        Some("git status".to_string())
    );
    assert_eq!(
        expansion_value(2, 2, Executing::Yes, Some("git status".to_string()), true, Some("ls -G".to_string()), true),
        Some("ls -G".to_string())
    );
    assert_eq!(
        expansion_value(2, 2, Executing::Yes, None, true, Some("ll -la".to_string()), false),
        None
    );
    assert_eq!(expansion_value(2, 2, Executing::Yes, None, false, Some("x".to_string()), true), None);
    assert_eq!(expansion_on_space_text("git status"), "git status ");
    assert_eq!(
        expanded_command_on_execute("ll /tmp", 0, 2, "ls -la"),
        Some("ls -la /tmp".to_string())
    );
    assert_eq!(expanded_command_on_execute("é x", 0, 1, "y"), None);
}

#[test]
fn deferred_remote_edits_wait_for_their_block() {
    let mut deferred: DeferredRemoteOperations<&str> = DeferredRemoteOperations::new(BlockId::from(1));
    assert_eq!(deferred.route(BlockId::from(1), vec!["now"]), Some(vec!["now"]));
    assert_eq!(deferred.route(BlockId::from(2), vec!["a", "b"]), None);
    deferred.defer(BlockId::from(3), vec!["x"]);
    deferred.defer(BlockId::from(2), vec!["c"]);
    assert_eq!(deferred.flush(), None);
    deferred.set_latest_block_id(BlockId::from(2));
    assert_eq!(deferred.latest_block_id(), BlockId::from(2));
    assert_eq!(deferred.flush(), Some(vec!["a", "b", "c"]));
    assert_eq!(deferred.flush(), None);
    deferred.set_latest_block_id(BlockId::from(3));
    assert_eq!(deferred.flush(), Some(vec!["x"]));
}

#[test]
fn decimal_formatting() {
    assert_eq!(decimal_string(0), "0");
    assert_eq!(decimal_string(7), "7");
    assert_eq!(decimal_string(1204), "1204");
    assert_eq!(decimal_string(usize::MAX), usize::MAX.to_string());
}
