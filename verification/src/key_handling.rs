//! What the input does on a key press or an edit, given the suggestion mode
//! it is in and what the editor reports. Each function decides; the view
//! performs the action it names.
use vstd::prelude::*;

use crate::input_state::{BufferPoint, InputSuggestionsMode};
use crate::completion::CompletionsTrigger;
use crate::text::str_get;
use vstd::string::StringSliceAdditionalSpecFns;

verus! {

broadcast use vstd::string::group_string_axioms;

/// The family of the session's shell, as far as line continuation goes.
#[derive(Clone, Copy, Debug, PartialEq, Eq, Structural)]
pub enum ShellFamily {
    Posix,
    PowerShell,
}

/// The characters `char::is_ascii_whitespace` accepts.
pub open spec fn is_ascii_whitespace(c: char) -> bool {
    c == ' ' || c == '\t' || c == '\n' || c == '\u{C}' || c == '\r'
}

/// The number of backslashes that end `s`.
pub open spec fn trailing_backslashes(s: Seq<char>) -> nat
    decreases s.len(),
{
    if s.len() > 0 && s.last() == '\\' {
        1 + trailing_backslashes(s.drop_last())
    } else {
        0
    }
}

/// Whether text ending in `s` continues on the next line: in PowerShell when
/// it ends in a backtick that starts the text or follows ASCII whitespace; in
/// a POSIX shell (the default) when it ends in an odd number of backslashes.
pub open spec fn continues_line(s: Seq<char>, family: Option<ShellFamily>) -> bool {
    match family {
        Some(ShellFamily::PowerShell) => s.len() > 0 && s.last() == '`' && (s.len() == 1
            || is_ascii_whitespace(s[s.len() - 2])),
        _ => trailing_backslashes(s) % 2 == 1,
    }
}

fn char_is_ascii_whitespace(c: char) -> (res: bool)
    ensures
        res == is_ascii_whitespace(c),
{
    c == ' ' || c == '\t' || c == '\n' || c == '\u{C}' || c == '\r'
}

proof fn lemma_trailing_backslashes_prefix(s: Seq<char>, k: int)
    requires
        0 <= k <= s.len(),
        forall|j: int| k <= j < s.len() ==> s[j] == '\\',
    ensures
        trailing_backslashes(s) == trailing_backslashes(s.take(k)) + (s.len() - k),
    decreases s.len() - k,
{
    if k < s.len() {
        lemma_trailing_backslashes_prefix(s.drop_last(), k);
        assert(s.drop_last().take(k) =~= s.take(k));
    } else {
        assert(s.take(k) =~= s);
    }
}

/// Whether the text before one cursor continues on the next line, read
/// backwards as the shell would.
fn continues_line_before(chars: &Vec<char>, family: Option<ShellFamily>) -> (res: bool)
    ensures
        res == continues_line(chars@, family),
{
    let n = chars.len();
    match family {
        Some(ShellFamily::PowerShell) => {
            if n == 0 || chars[n - 1] != '`' {
                return false;
            }
            if n >= 2 && !char_is_ascii_whitespace(chars[n - 2]) {
                return false;
            }
            true
        },
        _ => {
            // Consume backslashes in pairs from the end.
            let mut i: usize = n;
            while i >= 2 && chars[i - 1] == '\\' && chars[i - 2] == '\\'
                invariant
                    i <= n,
                    n == chars@.len(),
                    (n - i) % 2 == 0,
                    forall|j: int| i <= j < n ==> chars@[j] == '\\',
                decreases i,
            {
                i = i - 2;
            }
            proof {
                lemma_trailing_backslashes_prefix(chars@, i as int);
                let t = chars@.take(i as int);
                if i >= 1 && chars@[i - 1] == '\\' {
                    assert(t.last() == '\\');
                    if i >= 2 {
                        assert(t.drop_last().last() == chars@[i - 2]);
                    }
                    assert(trailing_backslashes(t.drop_last()) == 0);
                } else {
                    assert(trailing_backslashes(t) == 0);
                }
            }
            i >= 1 && chars[i - 1] == '\\'
        },
    }
}

/// Whether Enter inserts a newline instead of running the command: it does
/// when the text before any cursor continues on the next line.
/// `preceding_selections` holds, per cursor, the text before it.
pub fn should_insert_newline_on_enter(
    preceding_selections: &[String],
    family: Option<ShellFamily>,
) -> (res: bool)
    ensures
        res == exists|i: int|
            0 <= i < preceding_selections@.len() && continues_line(
                #[trigger] preceding_selections@[i]@,
                family,
            ),
{
    for i in 0..preceding_selections.len()
        invariant
            forall|k: int|
                0 <= k < i ==> !continues_line(#[trigger] preceding_selections@[k]@, family),
    {
        let chars = crate::text::chars_of(preceding_selections[i].as_str());
        if continues_line_before(&chars, family) {
            return true;
        }
    }
    false
}

/// What Enter does.
#[derive(Clone, Copy, Debug, PartialEq, Eq, Structural)]
pub enum EnterAction {
    /// The agent input is open and submits on ctrl-enter: insert a newline.
    AgentNewline,
    /// The agent input is open: submit the buffer to the agent.
    AgentSubmit,
    /// The line continues: insert a newline.
    InsertNewline,
    /// Accept the selected row of the inline history menu.
    AcceptInlineHistoryItem,
    /// Accept the selected repo.
    AcceptRepo,
    /// Confirm the selected suggestion.
    ConfirmSuggestion,
    /// Run the buffer's command.
    ExecuteCommand,
}

pub open spec fn spec_enter_action<S>(
    agent_input_open: bool,
    submit_on_ctrl_enter: bool,
    line_continues: bool,
    mode: &InputSuggestionsMode<S>,
    inline_item_selected: bool,
    enter_accepts_completion: bool,
) -> EnterAction {
    if agent_input_open {
        if submit_on_ctrl_enter {
            EnterAction::AgentNewline
        } else {
            EnterAction::AgentSubmit
        }
    } else if line_continues {
        EnterAction::InsertNewline
    } else if *mode is InlineHistoryMenu && inline_item_selected {
        EnterAction::AcceptInlineHistoryItem
    } else if *mode is IndexedReposMenu {
        EnterAction::AcceptRepo
    } else if *mode is CompletionSuggestions && enter_accepts_completion {
        EnterAction::ConfirmSuggestion
    } else if *mode is StaticWorkflowEnumSuggestions || *mode is DynamicWorkflowEnumSuggestions {
        EnterAction::ConfirmSuggestion
    } else {
        EnterAction::ExecuteCommand
    }
}

/// What Enter does. Unless the agent input is open, the input first
/// announces the key press.
pub fn input_enter_action<S>(
    agent_input_open: bool,
    submit_on_ctrl_enter: bool,
    line_continues: bool,
    mode: &InputSuggestionsMode<S>,
    inline_item_selected: bool,
    enter_accepts_completion: bool,
) -> (res: EnterAction)
    ensures
        res == spec_enter_action(
            agent_input_open,
            submit_on_ctrl_enter,
            line_continues,
            mode,
            inline_item_selected,
            enter_accepts_completion,
        ),
{
    if agent_input_open {
        if submit_on_ctrl_enter {
            return EnterAction::AgentNewline;
        }
        return EnterAction::AgentSubmit;
    }
    if line_continues {
        EnterAction::InsertNewline
    } else if matches!(mode, InputSuggestionsMode::InlineHistoryMenu) && inline_item_selected {
        EnterAction::AcceptInlineHistoryItem
    } else if matches!(mode, InputSuggestionsMode::IndexedReposMenu) {
        EnterAction::AcceptRepo
    } else if matches!(mode, InputSuggestionsMode::CompletionSuggestions { .. })
        && enter_accepts_completion {
        EnterAction::ConfirmSuggestion
    } else if matches!(
        mode,
        InputSuggestionsMode::StaticWorkflowEnumSuggestions { .. }
            | InputSuggestionsMode::DynamicWorkflowEnumSuggestions { .. }
    ) {
        EnterAction::ConfirmSuggestion
    } else {
        EnterAction::ExecuteCommand
    }
}

/// Ctrl-enter submits to the agent input when that input is open and
/// submits on ctrl-enter; otherwise the input announces the key press.
pub fn ctrl_enter_submits_agent_input(agent_input_open: bool, submit_on_ctrl_enter: bool) -> (res:
    bool)
    ensures
        res == (agent_input_open && submit_on_ctrl_enter),
{
    agent_input_open && submit_on_ctrl_enter
}

/// What cmd-enter does.
#[derive(Clone, Copy, Debug, PartialEq, Eq, Structural)]
pub enum CmdEnterAction {
    /// Confirm the selected suggestion and run the command.
    ConfirmAndExecute,
    /// Run the command that produces a dynamic enum's variants.
    RunEnumCommand,
    /// Accept the selected repo and change into it.
    AcceptRepo,
    /// Let the rest of the terminal handle the key.
    Unhandled,
}

/// What cmd-enter does in a suggestion mode.
pub fn input_cmd_enter_action<S>(mode: &InputSuggestionsMode<S>) -> (res: CmdEnterAction)
    ensures
        res == if *mode is CompletionSuggestions || *mode is HistoryUp {
            CmdEnterAction::ConfirmAndExecute
        } else if *mode matches InputSuggestionsMode::DynamicWorkflowEnumSuggestions {
            dynamic_enum_status,
            ..
        } && dynamic_enum_status == crate::input_state::DynamicEnumSuggestionStatus::Unapproved {
            CmdEnterAction::RunEnumCommand
        } else if *mode is IndexedReposMenu {
            CmdEnterAction::AcceptRepo
        } else {
            CmdEnterAction::Unhandled
        },
{
    match mode {
        InputSuggestionsMode::CompletionSuggestions { .. } | InputSuggestionsMode::HistoryUp {
            ..
        } => CmdEnterAction::ConfirmAndExecute,
        InputSuggestionsMode::DynamicWorkflowEnumSuggestions {
            dynamic_enum_status: crate::input_state::DynamicEnumSuggestionStatus::Unapproved,
            ..
        } => CmdEnterAction::RunEnumCommand,
        InputSuggestionsMode::IndexedReposMenu => CmdEnterAction::AcceptRepo,
        _ => CmdEnterAction::Unhandled,
    }
}

/// What arrow-up does.
#[derive(Clone, Copy, Debug, PartialEq, Eq, Structural)]
pub enum UpAction {
    /// Readers of a shared session get no history: nothing happens.
    Ignore,
    /// The inline history menu moves its selection up.
    InlineHistorySelectUp,
    /// The repos menu moves its selection up.
    ReposSelectUp,
    /// The open menu selects the previous suggestion.
    SelectPreviousSuggestion,
    /// Open the inline history menu.
    OpenInlineHistoryMenu,
    /// Open the history-up menu with prefix search over the session's
    /// history, or the shared session's for an executor.
    OpenHistoryUp { shared_session_history: bool },
    /// Move the cursor up a row.
    MoveCursorUp,
}

pub open spec fn spec_up_action<S>(
    is_reader: bool,
    is_executor: bool,
    mode: &InputSuggestionsMode<S>,
    can_query_history: bool,
    single_cursor_on_first_row: bool,
    inline_history_menu_enabled: bool,
) -> UpAction {
    if is_reader {
        UpAction::Ignore
    } else if *mode is InlineHistoryMenu {
        UpAction::InlineHistorySelectUp
    } else if *mode is IndexedReposMenu {
        UpAction::ReposSelectUp
    } else if !(*mode is Closed) && can_query_history {
        UpAction::SelectPreviousSuggestion
    } else if single_cursor_on_first_row {
        if inline_history_menu_enabled && *mode is Closed {
            UpAction::OpenInlineHistoryMenu
        } else {
            UpAction::OpenHistoryUp { shared_session_history: is_executor }
        }
    } else {
        UpAction::MoveCursorUp
    }
}

/// What arrow-up does: menus that handle their own keys move their
/// selection, an open menu selects the previous suggestion, and on the
/// first row a history menu opens.
pub fn editor_up_action<S>(
    is_reader: bool,
    is_executor: bool,
    mode: &InputSuggestionsMode<S>,
    can_query_history: bool,
    single_cursor_on_first_row: bool,
    inline_history_menu_enabled: bool,
) -> (res: UpAction)
    ensures
        res == spec_up_action(
            is_reader,
            is_executor,
            mode,
            can_query_history,
            single_cursor_on_first_row,
            inline_history_menu_enabled,
        ),
{
    if is_reader {
        return UpAction::Ignore;
    }
    match mode {
        InputSuggestionsMode::InlineHistoryMenu => {
            return UpAction::InlineHistorySelectUp;
        },
        InputSuggestionsMode::IndexedReposMenu => {
            return UpAction::ReposSelectUp;
        },
        _ => {},
    }
    if mode.is_visible() && can_query_history {
        return UpAction::SelectPreviousSuggestion;
    }
    if single_cursor_on_first_row {
        if inline_history_menu_enabled && !mode.is_visible() {
            return UpAction::OpenInlineHistoryMenu;
        }
        return UpAction::OpenHistoryUp { shared_session_history: is_executor };
    }
    UpAction::MoveCursorUp
}

/// What arrow-down does.
#[derive(Clone, Copy, Debug, PartialEq, Eq, Structural)]
pub enum DownAction {
    /// The repos menu moves its selection down.
    ReposSelectDown,
    /// The inline history menu moves its selection down.
    InlineHistorySelectDown,
    /// An open menu with no suggestions closes and restores the buffer.
    CloseAndRestore,
    /// The open menu selects the next suggestion.
    SelectNextSuggestion,
    /// Move the cursor down a row.
    MoveCursorDown,
}

/// What arrow-down does in a suggestion mode, given whether the suggestion
/// list is empty.
pub fn editor_down_action<S>(mode: &InputSuggestionsMode<S>, suggestions_empty: bool) -> (res:
    DownAction)
    ensures
        res == if *mode is IndexedReposMenu {
            DownAction::ReposSelectDown
        } else if *mode is InlineHistoryMenu {
            DownAction::InlineHistorySelectDown
        } else if *mode is Closed {
            DownAction::MoveCursorDown
        } else if suggestions_empty {
            DownAction::CloseAndRestore
        } else {
            DownAction::SelectNextSuggestion
        },
{
    match mode {
        InputSuggestionsMode::IndexedReposMenu => DownAction::ReposSelectDown,
        InputSuggestionsMode::InlineHistoryMenu => DownAction::InlineHistorySelectDown,
        _ => {
            if mode.is_visible() {
                if suggestions_empty {
                    DownAction::CloseAndRestore
                } else {
                    DownAction::SelectNextSuggestion
                }
            } else {
                DownAction::MoveCursorDown
            }
        },
    }
}

/// The vim mode of the editor, as escape sees it.
#[derive(Clone, Copy, Debug, PartialEq, Eq, Structural)]
pub enum VimMode {
    Normal,
    Insert,
    /// Any other mode (visual, replace).
    Other,
}

/// What escape does.
#[derive(Clone, Copy, Debug, PartialEq, Eq, Structural)]
pub enum EscapeAction {
    /// Leave the vim mode (insert first, before a history menu is dismissed;
    /// or any mode but normal when nothing else is open).
    VimEscape,
    /// Close the inline menu and put the buffer back.
    CloseInlineMenu,
    /// Leave the suggestion menu, putting the buffer back.
    ExitSuggestions,
    /// Drop the selected workflow.
    ClearWorkflow,
    /// Let the rest of the terminal handle the key.
    Propagate,
}

pub open spec fn spec_escape_action<S>(
    vim_mode: Option<VimMode>,
    mode: &InputSuggestionsMode<S>,
    inline_repo_menu_enabled: bool,
    workflow_selected: bool,
) -> EscapeAction {
    if vim_mode == Some(VimMode::Insert) && (*mode is HistoryUp || *mode is InlineHistoryMenu) {
        EscapeAction::VimEscape
    } else if *mode is InlineHistoryMenu || (inline_repo_menu_enabled && *mode is IndexedReposMenu) {
        EscapeAction::CloseInlineMenu
    } else if !(*mode is Closed) {
        EscapeAction::ExitSuggestions
    } else if workflow_selected {
        EscapeAction::ClearWorkflow
    } else if vim_mode is Some && vim_mode != Some(VimMode::Normal) {
        EscapeAction::VimEscape
    } else {
        EscapeAction::Propagate
    }
}

/// What escape does: it first leaves vim's insert mode over a history menu,
/// then closes what is open, innermost first.
pub fn editor_escape_action<S>(
    vim_mode: Option<VimMode>,
    mode: &InputSuggestionsMode<S>,
    inline_repo_menu_enabled: bool,
    workflow_selected: bool,
) -> (res: EscapeAction)
    ensures
        res == spec_escape_action(vim_mode, mode, inline_repo_menu_enabled, workflow_selected),
{
    let in_insert = match vim_mode {
        Some(VimMode::Insert) => true,
        _ => false,
    };
    let history_menu = matches!(
        mode,
        InputSuggestionsMode::HistoryUp { .. } | InputSuggestionsMode::InlineHistoryMenu
    );
    if in_insert && history_menu {
        EscapeAction::VimEscape
    } else if mode.is_inline_menu(inline_repo_menu_enabled) {
        EscapeAction::CloseInlineMenu
    } else if mode.is_visible() {
        EscapeAction::ExitSuggestions
    } else if workflow_selected {
        EscapeAction::ClearWorkflow
    } else if !matches!(vim_mode, None | Some(VimMode::Normal)) {
        EscapeAction::VimEscape
    } else {
        EscapeAction::Propagate
    }
}

/// Where an edit of the buffer came from.
#[derive(Clone, Copy, Debug, PartialEq, Eq, Structural)]
pub enum EditOrigin {
    UserTyped,
    UserInitiated,
    SystemEdit,
    SyncedTerminalInput,
    RemoteEdit,
}

/// The editor action behind the latest edit, as far as the input tells them
/// apart.
#[derive(Clone, Copy, Debug, PartialEq, Eq, Structural)]
pub enum EditorActionKind {
    Space,
    NonExpandingSpace,
    Paste,
    Tab,
    AcceptCompletionSuggestion,
    CycleCompletionSuggestion,
    CursorChanged,
    NewLine,
    /// Any other action.
    Other,
}

/// After these actions the text is decorated at once rather than after a
/// pause in typing.
pub open spec fn short_circuits_highlighting(action: Option<EditorActionKind>) -> bool {
    match action {
        Some(EditorActionKind::Space) | Some(EditorActionKind::NonExpandingSpace) | Some(
            EditorActionKind::Paste,
        ) | Some(EditorActionKind::Tab) | Some(EditorActionKind::AcceptCompletionSuggestion) | Some(
            EditorActionKind::CursorChanged,
        ) | Some(EditorActionKind::NewLine) => true,
        _ => false,
    }
}

/// The bookkeeping of one edit of the buffer.
#[derive(Clone, Copy, Debug, PartialEq, Eq, Structural)]
pub struct EditEffects {
    /// The terminal records that the user touched the input.
    pub mark_input_dirty: bool,
    /// The prompt learns that the buffer was edited since the last block
    /// finished.
    pub mark_modified_since_block_finished: bool,
    /// The buffer went from empty to non-empty or back; the view records
    /// the new state and announces it.
    pub empty_state_changed: bool,
    /// A typed space may complete an alias or abbreviation to expand.
    pub check_alias_expansion: bool,
    /// Decorations run at once instead of after a pause.
    pub decorate_now: bool,
    /// The user, not the completion system, made the edit.
    pub is_user_edit: bool,
}

/// The bookkeeping of an edit from `origin`, given whether the buffer was
/// edited since the last block finished, whether it is empty now and was
/// after the previous edit, and the editor action behind it.
pub fn edit_effects(
    origin: EditOrigin,
    modified_since_block_finished: bool,
    is_empty: bool,
    was_empty: bool,
    last_action: Option<EditorActionKind>,
) -> (res: EditEffects)
    ensures
        res.mark_input_dirty == (origin == EditOrigin::UserTyped || origin
            == EditOrigin::UserInitiated),
        res.mark_modified_since_block_finished == (origin == EditOrigin::UserTyped
            && !modified_since_block_finished),
        res.empty_state_changed == (is_empty != was_empty),
        res.check_alias_expansion == (last_action == Some(EditorActionKind::Space) && origin
            == EditOrigin::UserTyped),
        res.decorate_now == short_circuits_highlighting(last_action),
        res.is_user_edit == !(last_action == Some(EditorActionKind::AcceptCompletionSuggestion)
            || last_action == Some(EditorActionKind::CycleCompletionSuggestion)),
{
    let user_typed = matches!(origin, EditOrigin::UserTyped);
    let decorate_now = match last_action {
        Some(EditorActionKind::Space) | Some(EditorActionKind::NonExpandingSpace) | Some(
            EditorActionKind::Paste,
        ) | Some(EditorActionKind::Tab) | Some(EditorActionKind::AcceptCompletionSuggestion) | Some(
            EditorActionKind::CursorChanged,
        ) | Some(EditorActionKind::NewLine) => true,
        _ => false,
    };
    EditEffects {
        mark_input_dirty: user_typed || matches!(origin, EditOrigin::UserInitiated),
        mark_modified_since_block_finished: user_typed && !modified_since_block_finished,
        empty_state_changed: is_empty != was_empty,
        check_alias_expansion: matches!(last_action, Some(EditorActionKind::Space)) && user_typed,
        decorate_now,
        is_user_edit: !matches!(
            last_action,
            Some(EditorActionKind::AcceptCompletionSuggestion) | Some(
                EditorActionKind::CycleCompletionSuggestion,
            )
        ),
    }
}

/// What an edit does to the open suggestion UI.
#[derive(Clone, Copy, Debug, PartialEq, Eq, Structural)]
pub enum EditReaction {
    /// Nothing.
    Keep,
    /// Close the menu.
    CloseMenu,
    /// Close the inline history menu without putting the buffer back.
    DropInlineMenu,
    /// Ask for as-you-type completions anew, regenerate the autosuggestion,
    /// and close the menu later if it has not been replaced by then.
    RecomputeCompletions,
    /// Narrow the tab-completion menu to the edited word.
    NarrowCompletions,
    /// With no menu open: regenerate the autosuggestion, drop the selected
    /// workflow when the buffer was emptied, and open as-you-type
    /// completions when the user typed and they are on.
    Idle { clear_workflow: bool, open_completions: bool },
}

/// What the editor reports after an edit, for [`edit_reaction`].
pub struct EditObservation {
    pub origin: EditOrigin,
    /// Classic (cycling) completions are on.
    pub classic_completions_enabled: bool,
    /// The text of the suggestion selected in the suggestions menu.
    pub selected_item_text: Option<String>,
    /// The buffer after the edit.
    pub buffer_text: String,
    /// The byte index of the last cursor.
    pub cursor: usize,
    /// Where the first selection ends.
    pub first_selection_end: BufferPoint,
    pub can_query_history: bool,
    pub workflow_selected: bool,
    pub completions_while_typing: bool,
    /// The command of the row selected in the inline history menu.
    pub inline_selected_command: Option<String>,
}

pub open spec fn opt_view(o: Option<String>) -> Option<Seq<char>> {
    match o {
        Some(s) => Some(s@),
        None => None,
    }
}

/// The word being completed: the buffer from the replaced span's start to
/// the cursor, when those are boundaries in order.
pub open spec fn current_word(buffer: Seq<char>, start: usize, cursor: usize) -> Option<Seq<char>> {
    let bytes = vstd::utf8::encode_utf8(buffer);
    if start <= cursor && vstd::utf8::is_char_boundary(bytes, start as int)
        && vstd::utf8::is_char_boundary(bytes, cursor as int) {
        Some(vstd::utf8::decode_utf8(bytes.subrange(start as int, cursor as int)))
    } else {
        None
    }
}

pub open spec fn spec_edit_reaction<S>(mode: &InputSuggestionsMode<S>, obs: &EditObservation) -> EditReaction {
    match *mode {
        InputSuggestionsMode::CompletionSuggestions { replacement_start, trigger, .. } => {
            let word = current_word(obs.buffer_text@, replacement_start, obs.cursor);
            let differs = match (opt_view(obs.selected_item_text), word) {
                (Some(selected), Some(w)) => selected != w,
                _ => true,
            };
            if trigger == CompletionsTrigger::AsYouType && (!obs.classic_completions_enabled
                || differs) {
                EditReaction::RecomputeCompletions
            } else {
                EditReaction::NarrowCompletions
            }
        },
        InputSuggestionsMode::StaticWorkflowEnumSuggestions { cursor_point, .. } => {
            if obs.first_selection_end != cursor_point {
                EditReaction::CloseMenu
            } else {
                EditReaction::Keep
            }
        },
        InputSuggestionsMode::DynamicWorkflowEnumSuggestions { cursor_point, .. } => {
            if obs.first_selection_end != cursor_point {
                EditReaction::CloseMenu
            } else {
                EditReaction::Keep
            }
        },
        InputSuggestionsMode::HistoryUp { .. } => match opt_view(obs.selected_item_text) {
            Some(selected) => if selected == obs.buffer_text@ {
                EditReaction::Keep
            } else {
                EditReaction::CloseMenu
            },
            None => EditReaction::Keep,
        },
        InputSuggestionsMode::Closed => if !obs.can_query_history {
            EditReaction::Keep
        } else {
            EditReaction::Idle {
                clear_workflow: obs.buffer_text@.len() == 0 && obs.workflow_selected,
                open_completions: obs.completions_while_typing && obs.origin
                    == EditOrigin::UserTyped,
            }
        },
        InputSuggestionsMode::InlineHistoryMenu => match opt_view(obs.inline_selected_command) {
            Some(command) => if command != obs.buffer_text@ {
                EditReaction::DropInlineMenu
            } else {
                EditReaction::Keep
            },
            None => EditReaction::Keep,
        },
        InputSuggestionsMode::IndexedReposMenu => EditReaction::Keep,
    }
}

fn strings_equal(a: &str, b: &str) -> (res: bool)
    ensures
        res == (a@ == b@),
{
    let x = crate::text::chars_of(a);
    let y = crate::text::chars_of(b);
    if x.len() != y.len() {
        return false;
    }
    for i in 0..x.len()
        invariant
            x@ == a@,
            y@ == b@,
            x@.len() == y@.len(),
            forall|k: int| 0 <= k < i ==> x@[k] == y@[k],
    {
        if x[i] != y[i] {
            return false;
        }
    }
    proof {
        assert(x@ =~= y@);
    }
    true
}

/// What an edit does to the suggestion UI of `mode`.
pub fn edit_reaction<S>(mode: &InputSuggestionsMode<S>, obs: &EditObservation) -> (res:
    EditReaction)
    ensures
        res == spec_edit_reaction(mode, obs),
{
    match mode {
        InputSuggestionsMode::CompletionSuggestions { replacement_start, trigger, .. } => {
            let text = obs.buffer_text.as_str();
            let word = str_get(text, *replacement_start, obs.cursor);
            proof {
                assert(text.spec_bytes() == vstd::utf8::encode_utf8(text@));
            }
            let differs = match (&obs.selected_item_text, &word) {
                (Some(selected), Some(w)) => !strings_equal(selected.as_str(), w.as_str()),
                _ => true,
            };
            if *trigger == CompletionsTrigger::AsYouType && (!obs.classic_completions_enabled
                || differs) {
                EditReaction::RecomputeCompletions
            } else {
                EditReaction::NarrowCompletions
            }
        },
        InputSuggestionsMode::StaticWorkflowEnumSuggestions { cursor_point, .. }
        | InputSuggestionsMode::DynamicWorkflowEnumSuggestions { cursor_point, .. } => {
            if obs.first_selection_end != *cursor_point {
                EditReaction::CloseMenu
            } else {
                EditReaction::Keep
            }
        },
        InputSuggestionsMode::HistoryUp { .. } => match &obs.selected_item_text {
            Some(selected) => if strings_equal(selected.as_str(), obs.buffer_text.as_str()) {
                EditReaction::Keep
            } else {
                EditReaction::CloseMenu
            },
            None => EditReaction::Keep,
        },
        InputSuggestionsMode::Closed => if !obs.can_query_history {
            EditReaction::Keep
        } else {
            EditReaction::Idle {
                clear_workflow: obs.buffer_text.as_str().is_empty() && obs.workflow_selected,
                open_completions: obs.completions_while_typing && matches!(
                    obs.origin,
                    EditOrigin::UserTyped
                ),
            }
        },
        InputSuggestionsMode::InlineHistoryMenu => match &obs.inline_selected_command {
            Some(command) => if !strings_equal(command.as_str(), obs.buffer_text.as_str()) {
                EditReaction::DropInlineMenu
            } else {
                EditReaction::Keep
            },
            None => EditReaction::Keep,
        },
        InputSuggestionsMode::IndexedReposMenu => EditReaction::Keep,
    }
}

/// The next count of accepted autosuggestions, which decides whether the
/// accept hint is still shown: it grows by one up to `max`; a count that
/// once overflowed to a negative number jumps to `max`. `None` once `max`
/// is reached.
pub fn next_autosuggestion_accepted_count(current: i8, max: i8) -> (res: Option<i8>)
    ensures
        current >= max ==> res is None,
        current < max && current < 0 ==> res == Some(max),
        current < max && current >= 0 ==> res == Some((current + 1) as i8),
{
    if current < max {
        if current < 0 {
            Some(max)
        } else {
            Some(current + 1)
        }
    } else {
        None
    }
}

/// What shift-tab does.
#[derive(Clone, Copy, Debug, PartialEq, Eq, Structural)]
pub enum ShiftTabAction {
    /// The inline history menu moved to its next tab.
    InlineMenuNextTab,
    /// The completions menu selects the previous suggestion.
    SelectPreviousSuggestion,
    /// Select the workflow argument under the cursor.
    SelectArgument { argument: usize },
    /// Select the workflow's first argument (coming from history-up).
    SelectFirstArgument,
    /// Move on to the workflow's next argument.
    SelectNextArgument,
    /// Unindent the buffer.
    Unindent,
}

/// What shift-tab does: the inline history menu cycles its tabs when it
/// could (`inline_tab_switched`), the completions menu steps back, and with
/// a workflow loaded the argument selection moves; otherwise the buffer is
/// unindented.
pub fn input_shift_tab_action<S>(
    mode: &InputSuggestionsMode<S>,
    inline_tab_switched: bool,
    workflow_loaded: bool,
    current_argument: Option<usize>,
) -> (res: ShiftTabAction)
    ensures
        res == if *mode is InlineHistoryMenu && inline_tab_switched {
            ShiftTabAction::InlineMenuNextTab
        } else if *mode is CompletionSuggestions {
            ShiftTabAction::SelectPreviousSuggestion
        } else if !workflow_loaded {
            ShiftTabAction::Unindent
        } else if current_argument is Some {
            ShiftTabAction::SelectArgument { argument: current_argument->0 }
        } else if *mode is HistoryUp {
            ShiftTabAction::SelectFirstArgument
        } else {
            ShiftTabAction::SelectNextArgument
        },
{
    match mode {
        InputSuggestionsMode::InlineHistoryMenu => {
            if inline_tab_switched {
                return ShiftTabAction::InlineMenuNextTab;
            }
        },
        InputSuggestionsMode::CompletionSuggestions { .. } => {
            return ShiftTabAction::SelectPreviousSuggestion;
        },
        _ => {},
    }
    if !workflow_loaded {
        return ShiftTabAction::Unindent;
    }
    match current_argument {
        Some(argument) => ShiftTabAction::SelectArgument { argument },
        None => if matches!(mode, InputSuggestionsMode::HistoryUp { .. }) {
            ShiftTabAction::SelectFirstArgument
        } else {
            ShiftTabAction::SelectNextArgument
        },
    }
}

/// The keys the input adds to its keymap context.
#[derive(Clone, Copy, Debug, PartialEq, Eq, Structural)]
pub enum KeymapKey {
    VoltronActive,
    UniversalDeveloperInput,
    CliAgentSessionActive,
    EmptyInputBuffer,
    WorkflowInfoBox,
    PromptChipMenuOpen,
    VimModeEnabled,
    VimNormalMode,
    /// The shared-session status's own key.
    SharedSessionStatus,
    LongRunningCommand,
    EmptyBlockList,
    NonEmptyBlockList,
}

/// What the keymap context is built from.
#[derive(Clone, Copy, Debug, PartialEq, Eq, Structural)]
pub struct KeymapState {
    pub voltron_open: bool,
    pub universal_developer_input: bool,
    pub cli_agent_session: bool,
    pub buffer_empty: bool,
    pub workflow_info_box_shown: bool,
    pub prompt_chip_menu_open: bool,
    pub vim_mode_enabled: bool,
    pub vim_normal_mode: bool,
    pub long_running_command: bool,
    pub block_list_empty: bool,
}

/// The keys of the keymap context, in order.
pub open spec fn keymap_keys(state: KeymapState) -> Seq<KeymapKey> {
    (if state.voltron_open { seq![KeymapKey::VoltronActive] } else { seq![] }) + (
    if state.universal_developer_input {
        seq![KeymapKey::UniversalDeveloperInput]
    } else {
        seq![]
    }) + (if state.cli_agent_session {
        seq![KeymapKey::CliAgentSessionActive]
    } else {
        seq![]
    }) + (if state.buffer_empty { seq![KeymapKey::EmptyInputBuffer] } else { seq![] }) + (
    if state.workflow_info_box_shown {
        seq![KeymapKey::WorkflowInfoBox]
    } else {
        seq![]
    }) + (if state.prompt_chip_menu_open {
        seq![KeymapKey::PromptChipMenuOpen]
    } else {
        seq![]
    }) + (if state.vim_mode_enabled { seq![KeymapKey::VimModeEnabled] } else { seq![] }) + (
    if state.vim_normal_mode {
        seq![KeymapKey::VimNormalMode]
    } else {
        seq![]
    }) + seq![KeymapKey::SharedSessionStatus] + (if state.long_running_command {
        seq![KeymapKey::LongRunningCommand]
    } else {
        seq![]
    }) + (if state.block_list_empty {
        seq![KeymapKey::EmptyBlockList]
    } else {
        seq![KeymapKey::NonEmptyBlockList]
    })
}

fn push_if(keys: &mut Vec<KeymapKey>, cond: bool, key: KeymapKey)
    ensures
        final(keys)@ == old(keys)@ + (if cond {
            seq![key]
        } else {
            seq![]
        }),
{
    if cond {
        keys.push(key);
    }
    proof {
        assert(keys@ =~= old(keys)@ + (if cond {
            seq![key]
        } else {
            seq![]
        }));
    }
}

/// The keys the input adds to its keymap context, in the order it adds
/// them; the shared-session status is always there, and exactly one of the
/// block-list keys.
pub fn keymap_context_keys(state: KeymapState) -> (res: Vec<KeymapKey>)
    ensures
        res@ == keymap_keys(state),
{
    let mut keys: Vec<KeymapKey> = Vec::new();
    push_if(&mut keys, state.voltron_open, KeymapKey::VoltronActive);
    push_if(&mut keys, state.universal_developer_input, KeymapKey::UniversalDeveloperInput);
    push_if(&mut keys, state.cli_agent_session, KeymapKey::CliAgentSessionActive);
    push_if(&mut keys, state.buffer_empty, KeymapKey::EmptyInputBuffer);
    push_if(&mut keys, state.workflow_info_box_shown, KeymapKey::WorkflowInfoBox);
    push_if(&mut keys, state.prompt_chip_menu_open, KeymapKey::PromptChipMenuOpen);
    push_if(&mut keys, state.vim_mode_enabled, KeymapKey::VimModeEnabled);
    push_if(&mut keys, state.vim_normal_mode, KeymapKey::VimNormalMode);
    push_if(&mut keys, true, KeymapKey::SharedSessionStatus);
    push_if(&mut keys, state.long_running_command, KeymapKey::LongRunningCommand);
    push_if(&mut keys, state.block_list_empty, KeymapKey::EmptyBlockList);
    push_if(&mut keys, !state.block_list_empty, KeymapKey::NonEmptyBlockList);
    proof {
        assert(keys@ =~= keymap_keys(state));
    }
    keys
}

/// Completions are shown while typing only once the buffer holds this many
/// bytes.
pub const MIN_BUFFER_LEN_TO_SHOW_COMPLETIONS_WHILE_TYPING: usize = 2;

/// Whether completions open while typing: the setting is on, the buffer
/// holds at least two bytes and a single cursor sits at its end.
pub fn should_show_completions_while_typing(
    turned_on: bool,
    buffer_len: usize,
    single_cursor_at_end: bool,
) -> (res: bool)
    ensures
        res == (turned_on && buffer_len >= 2 && single_cursor_at_end),
{
    turned_on && buffer_len >= MIN_BUFFER_LEN_TO_SHOW_COMPLETIONS_WHILE_TYPING
        && single_cursor_at_end
}

/// Whether the completions keybinding opens the menu: not while it is open,
/// and only with the cursor where completions apply.
pub fn should_open_completions_on_keybinding<S>(
    mode: &InputSuggestionsMode<S>,
    cursor_positioned: bool,
) -> (res: bool)
    ensures
        res == (!(*mode is CompletionSuggestions) && cursor_positioned),
{
    !matches!(mode, InputSuggestionsMode::CompletionSuggestions { .. }) && cursor_positioned
}

/// Whether an autosuggestion is generated: not while one is shown, and only
/// when autosuggestions are on.
pub fn should_generate_autosuggestion(active_autosuggestion: bool, enabled: bool) -> (res: bool)
    ensures
        res == (!active_autosuggestion && enabled),
{
    !active_autosuggestion && enabled
}

/// What ctrl-r does.
#[derive(Clone, Copy, Debug, PartialEq, Eq, Structural)]
pub enum CtrlRAction {
    /// In the history menu: select the previous command.
    SelectPrevious,
    /// Otherwise: open the fuzzy history search.
    FuzzySearch,
}

pub fn ctrl_r_action<S>(mode: &InputSuggestionsMode<S>) -> (res: CtrlRAction)
    ensures
        res == if *mode is HistoryUp {
            CtrlRAction::SelectPrevious
        } else {
            CtrlRAction::FuzzySearch
        },
{
    if matches!(mode, InputSuggestionsMode::HistoryUp { .. }) {
        CtrlRAction::SelectPrevious
    } else {
        CtrlRAction::FuzzySearch
    }
}

/// The history mode that arrow-up (prefix search) or the fuzzy history
/// search opens, remembering the buffer and cursor to put back.
pub fn history_up_mode<S>(
    original_buffer: String,
    original_cursor_point: Option<BufferPoint>,
    search_mode: crate::input_state::HistorySearchMode,
) -> (res: InputSuggestionsMode<S>)
    ensures
        res matches InputSuggestionsMode::HistoryUp {
            original_buffer: b,
            original_cursor_point: c,
            search_mode: m,
        } && b == original_buffer && c == original_cursor_point && m == search_mode,
{
    InputSuggestionsMode::HistoryUp { original_buffer, original_cursor_point, search_mode }
}

/// Page up and page down move within the buffer while a menu is open; with
/// none open, the block list scrolls instead.
pub fn page_key_scrolls_block_list<S>(mode: &InputSuggestionsMode<S>) -> (res: bool)
    ensures
        res == (*mode is Closed),
{
    !mode.is_visible()
}

/// Where the input sits in the terminal.
#[derive(Clone, Copy, Debug, PartialEq, Eq, Structural)]
pub enum InputMode {
    PinnedToBottom,
    PinnedToTop,
    /// At the top until the first block, then below the blocks.
    Waterfall,
}

/// Whether the input is at the top of the terminal.
pub fn is_input_at_top(mode: InputMode, block_list_empty: bool) -> (res: bool)
    ensures
        res == match mode {
            InputMode::PinnedToBottom => false,
            InputMode::PinnedToTop => true,
            InputMode::Waterfall => block_list_empty,
        },
{
    match mode {
        InputMode::PinnedToBottom => false,
        InputMode::PinnedToTop => true,
        InputMode::Waterfall => block_list_empty,
    }
}

/// Whether an edit is mirrored to the other synced terminals: only while
/// inputs are synced, only from the input the user is typing in, and never
/// an edit that itself came from a synced terminal (which would echo back
/// and forth).
pub fn should_send_input_sync(syncing_inputs: bool, origin: EditOrigin, focused: bool) -> (res:
    bool)
    ensures
        res == (syncing_inputs && origin != EditOrigin::SyncedTerminalInput && focused),
{
    syncing_inputs && !matches!(origin, EditOrigin::SyncedTerminalInput) && focused
}

} // verus!
