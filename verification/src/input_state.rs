//! The state the input keeps between key presses: which suggestion UI is
//! open, the buffer snapshot it restores, and the small records the view
//! hands to the rest of the terminal.
use vstd::prelude::*;

use crate::completion::{CompletionsTrigger, SuggestionResults};
use crate::workflow_ranges::ByteRange;

verus! {

/// What a screen reader calls the input.
pub const INPUT_A11Y_LABEL: &'static str = "Command Input.";

/// How a screen reader explains the input.
pub const INPUT_A11Y_HELPER: &'static str = "Input your shell command, press enter to execute. Press cmd-up to navigate to output of previously executed commands. Press cmd-l to re-focus command input.";

/// The name of the keybinding that opens completions.
pub const OPEN_COMPLETIONS_KEYBINDING_NAME: &'static str = "input:open_completion_suggestions";

/// The suggestion modes as they are reported to telemetry.
#[derive(PartialEq, Eq, Copy, Clone, Debug, Structural)]
pub enum TelemetryInputSuggestionsMode {
    HistoryFuzzySearch,
    CompletionSuggestions,
    HistoryUp,
    StaticWorkflowEnumSuggestions,
    DynamicWorkflowEnumSuggestions,
    InlineHistoryMenu,
    IndexedReposMenu,
}

/// How the history menu matches what was typed.
#[derive(Copy, Clone, Debug, PartialEq, Eq, Structural)]
pub enum HistorySearchMode {
    /// Prefix match commands.
    Prefix,
    /// Fuzzy match commands.
    Fuzzy,
}

/// Where the tab-completions menu is anchored.
#[derive(PartialEq, Eq, Debug, Clone, Copy, Structural)]
pub enum TabCompletionsMenuPosition {
    /// At the last cursor.
    AtLastCursor,
    /// At the first cursor.
    AtFirstCursor,
    /// At the start of the span the completion replaces.
    AtStartOfReplacementSpan,
}

/// A position in the buffer: a row and a column within it.
#[derive(PartialEq, Eq, Debug, Clone, Copy, Structural)]
pub struct BufferPoint {
    pub row: usize,
    pub column: usize,
}

/// A snapshot of the buffer and of its cursor, taken so that it can be put
/// back when a menu is dismissed.
#[derive(Debug)]
pub struct BufferState {
    pub buffer: String,
    pub cursor_point: Option<BufferPoint>,
}

impl BufferState {
    pub fn new(buffer: String, cursor_point: Option<BufferPoint>) -> (res: Self)
        ensures
            res.buffer@ == buffer@,
            res.cursor_point == cursor_point,
    {
        BufferState { buffer, cursor_point }
    }
}

/// Progress of the command that produces the variants of a dynamic
/// workflow enum.
#[derive(Debug, PartialEq, Eq, Clone, Copy, Structural)]
pub enum DynamicEnumSuggestionStatus {
    /// The command has not been approved to run yet.
    Unapproved,
    /// The command runs and has not finished.
    Pending,
    /// The command succeeded; its variants are shown.
    Success,
    /// The command failed.
    Failure,
}

/// Which suggestion UI the input shows, with the state each one keeps.
/// `S` is the type of one completion suggestion.
pub enum InputSuggestionsMode<S> {
    /// Opened by arrow-up.
    HistoryUp {
        /// The buffer when arrow-up was pressed (possibly empty).
        original_buffer: String,
        /// The cursor when arrow-up was pressed; none with several selections.
        original_cursor_point: Option<BufferPoint>,
        search_mode: HistorySearchMode,
    },
    CompletionSuggestions {
        /// Byte index where the replaced text begins.
        replacement_start: usize,
        /// The buffer before tab was pressed; the menu closes once the buffer
        /// no longer holds it.
        buffer_text_original: String,
        /// The suggestions for that buffer, narrowed while typing.
        completion_results: SuggestionResults<S>,
        /// What opened the menu.
        trigger: CompletionsTrigger,
        menu_position: TabCompletionsMenuPosition,
    },
    StaticWorkflowEnumSuggestions {
        /// The suggested values of the workflow argument.
        suggestions: Vec<String>,
        menu_position: TabCompletionsMenuPosition,
        /// The selected ranges of every instance of the argument.
        selected_ranges: Vec<ByteRange>,
        /// The end of the first selected argument.
        cursor_point: BufferPoint,
    },
    DynamicWorkflowEnumSuggestions {
        suggestions: Vec<String>,
        menu_position: TabCompletionsMenuPosition,
        selected_ranges: Vec<ByteRange>,
        cursor_point: BufferPoint,
        /// Progress of the command that produces the variants.
        dynamic_enum_status: DynamicEnumSuggestionStatus,
        /// That command.
        command: String,
    },
    /// The inline history menu.
    InlineHistoryMenu,
    /// The indexed repos menu.
    IndexedReposMenu,
    /// No suggestion UI is shown.
    Closed,
}

impl<S> InputSuggestionsMode<S> {
    /// Whether any suggestion UI is shown.
    pub fn is_visible(&self) -> (res: bool)
        ensures
            res == !(*self is Closed),
    {
        !matches!(self, InputSuggestionsMode::Closed)
    }

    /// Whether the mode is an inline menu; the repos menu is one only while
    /// `inline_repo_menu_enabled` (a feature flag) is set.
    pub fn is_inline_menu(&self, inline_repo_menu_enabled: bool) -> (res: bool)
        ensures
            res == (*self is InlineHistoryMenu || (inline_repo_menu_enabled
                && *self is IndexedReposMenu)),
    {
        matches!(self, InputSuggestionsMode::InlineHistoryMenu) || (inline_repo_menu_enabled
            && matches!(self, InputSuggestionsMode::IndexedReposMenu))
    }

    /// Whether opening the mode snapshots the buffer, to be restored when it
    /// is dismissed: inline menus do.
    pub fn should_snapshot_and_restore_buffer(&self, inline_repo_menu_enabled: bool) -> (res: bool)
        ensures
            res == (*self is InlineHistoryMenu || (inline_repo_menu_enabled
                && *self is IndexedReposMenu)),
    {
        self.is_inline_menu(inline_repo_menu_enabled)
    }

    pub open spec fn spec_placeholder_text(&self) -> Option<Seq<char>> {
        if *self is IndexedReposMenu {
            Some("Search indexed repos"@)
        } else {
            None
        }
    }

    /// The placeholder the buffer shows in this mode, where it has its own.
    pub fn placeholder_text(&self) -> (res: Option<&'static str>)
        ensures
            match res {
                Some(text) => self.spec_placeholder_text() == Some(text@),
                None => self.spec_placeholder_text() is None,
            },
    {
        match self {
            InputSuggestionsMode::IndexedReposMenu => Some("Search indexed repos"),
            InputSuggestionsMode::HistoryUp { .. }
            | InputSuggestionsMode::CompletionSuggestions { .. }
            | InputSuggestionsMode::StaticWorkflowEnumSuggestions { .. }
            | InputSuggestionsMode::DynamicWorkflowEnumSuggestions { .. }
            | InputSuggestionsMode::InlineHistoryMenu
            | InputSuggestionsMode::Closed => None,
        }
    }

    pub open spec fn spec_telemetry_mode(&self) -> TelemetryInputSuggestionsMode
        recommends
            !(*self is Closed),
    {
        match *self {
            InputSuggestionsMode::HistoryUp { search_mode: HistorySearchMode::Prefix, .. } => {
                TelemetryInputSuggestionsMode::HistoryUp
            },
            InputSuggestionsMode::HistoryUp { .. } => {
                TelemetryInputSuggestionsMode::HistoryFuzzySearch
            },
            InputSuggestionsMode::CompletionSuggestions { .. } => {
                TelemetryInputSuggestionsMode::CompletionSuggestions
            },
            InputSuggestionsMode::StaticWorkflowEnumSuggestions { .. } => {
                TelemetryInputSuggestionsMode::StaticWorkflowEnumSuggestions
            },
            InputSuggestionsMode::DynamicWorkflowEnumSuggestions { .. } => {
                TelemetryInputSuggestionsMode::DynamicWorkflowEnumSuggestions
            },
            InputSuggestionsMode::InlineHistoryMenu => {
                TelemetryInputSuggestionsMode::InlineHistoryMenu
            },
            _ => TelemetryInputSuggestionsMode::IndexedReposMenu,
        }
    }

    /// The mode as telemetry reports it; a closed menu has none.
    pub fn to_telemetry_mode(&self) -> (res: TelemetryInputSuggestionsMode)
        requires
            !(*self is Closed),
        ensures
            res == self.spec_telemetry_mode(),
    {
        match self {
            InputSuggestionsMode::HistoryUp { search_mode: HistorySearchMode::Prefix, .. } => {
                TelemetryInputSuggestionsMode::HistoryUp
            },
            InputSuggestionsMode::HistoryUp { search_mode: HistorySearchMode::Fuzzy, .. } => {
                TelemetryInputSuggestionsMode::HistoryFuzzySearch
            },
            InputSuggestionsMode::CompletionSuggestions { .. } => {
                TelemetryInputSuggestionsMode::CompletionSuggestions
            },
            InputSuggestionsMode::StaticWorkflowEnumSuggestions { .. } => {
                TelemetryInputSuggestionsMode::StaticWorkflowEnumSuggestions
            },
            InputSuggestionsMode::DynamicWorkflowEnumSuggestions { .. } => {
                TelemetryInputSuggestionsMode::DynamicWorkflowEnumSuggestions
            },
            InputSuggestionsMode::InlineHistoryMenu => {
                TelemetryInputSuggestionsMode::InlineHistoryMenu
            },
            InputSuggestionsMode::IndexedReposMenu | InputSuggestionsMode::Closed => {
                TelemetryInputSuggestionsMode::IndexedReposMenu
            },
        }
    }
}

/// Which history-up search a suggestion came from, as telemetry names it.
#[derive(PartialEq, Eq, Copy, Clone, Debug, Structural)]
pub enum HistoryUpMode {
    /// Prefixed results.
    Prefixed,
    /// All results, with no query.
    RegularNoQuery,
    /// All results, with a query.
    RegularWithQuery,
    /// A confirmed suggestion.
    NotApplicable,
}

impl HistoryUpMode {
    pub open spec fn spec_as_str(self) -> Seq<char> {
        match self {
            HistoryUpMode::Prefixed => "prefixed history up"@,
            HistoryUpMode::RegularNoQuery => "regular history up (no query)"@,
            HistoryUpMode::RegularWithQuery => "regular history up (with query)"@,
            HistoryUpMode::NotApplicable => "history up"@,
        }
    }

    /// The telemetry name of the mode.
    pub fn as_str(&self) -> (res: &'static str)
        ensures
            res@ == self.spec_as_str(),
    {
        match self {
            HistoryUpMode::Prefixed => "prefixed history up",
            HistoryUpMode::RegularNoQuery => "regular history up (no query)",
            HistoryUpMode::RegularWithQuery => "regular history up (with query)",
            HistoryUpMode::NotApplicable => "history up",
        }
    }
}

/// Why the buffer went from empty to non-empty or back.
#[derive(Clone, Copy, Debug, PartialEq, Eq, Structural)]
pub enum InputEmptyStateChangeReason {
    /// A regular edit.
    Edited,
    /// A user command completed and the buffer was made anew for the next one.
    UserCommandCompleted,
}

/// Whether the input takes keystrokes.
#[derive(Clone, Copy, Debug, PartialEq, Eq, Structural)]
pub enum InputState {
    Enabled,
    Disabled,
}

/// Whether floating menus open above or below the input box.
#[derive(Copy, Clone, Debug, PartialEq, Eq, Structural)]
pub enum MenuPositioning {
    /// Above the input box: the regular block list.
    AboveInputBox,
    /// Below the input box: the inverted block list.
    BelowInputBox,
}

/// A vertical edge, for anchoring a menu to the input.
#[derive(Copy, Clone, Debug, PartialEq, Eq, Structural)]
pub enum YAxisAnchor {
    Top,
    Bottom,
}

/// A corner, for anchoring the command palette to the input.
#[derive(Copy, Clone, Debug, PartialEq, Eq, Structural)]
pub enum Corner {
    BottomLeft,
    TopLeft,
}

impl MenuPositioning {
    /// Menus open above the input box unless told otherwise.
    pub fn default() -> (res: Self)
        ensures
            res == MenuPositioning::AboveInputBox,
    {
        MenuPositioning::AboveInputBox
    }

    /// The edge of the input a menu attaches to, and the edge of the menu
    /// that attaches: a menu above the input hangs its bottom on the
    /// input's top, one below hangs its top on the input's bottom.
    pub fn y_anchor(&self) -> (res: (YAxisAnchor, YAxisAnchor))
        ensures
            res == match *self {
                MenuPositioning::AboveInputBox => (YAxisAnchor::Top, YAxisAnchor::Bottom),
                MenuPositioning::BelowInputBox => (YAxisAnchor::Bottom, YAxisAnchor::Top),
            },
    {
        match self {
            MenuPositioning::AboveInputBox => (YAxisAnchor::Top, YAxisAnchor::Bottom),
            MenuPositioning::BelowInputBox => (YAxisAnchor::Bottom, YAxisAnchor::Top),
        }
    }

    /// The corner of the input the command palette attaches to.
    pub fn voltron_parent_anchor(&self) -> (res: Corner)
        ensures
            res == match *self {
                MenuPositioning::AboveInputBox => Corner::BottomLeft,
                MenuPositioning::BelowInputBox => Corner::TopLeft,
            },
    {
        match self {
            MenuPositioning::AboveInputBox => Corner::BottomLeft,
            MenuPositioning::BelowInputBox => Corner::TopLeft,
        }
    }

    /// The corner of the command palette that attaches.
    pub fn voltron_child_anchor(&self) -> (res: Corner)
        ensures
            res == match *self {
                MenuPositioning::AboveInputBox => Corner::BottomLeft,
                MenuPositioning::BelowInputBox => Corner::TopLeft,
            },
    {
        match self {
            MenuPositioning::AboveInputBox => Corner::BottomLeft,
            MenuPositioning::BelowInputBox => Corner::TopLeft,
        }
    }
}

/// Whether a command still parses as the workflow it came from; `D` is what
/// the workflow displays when it does.
pub enum CommandMatchesWorkflowTemplate<D> {
    Yes(D),
    No,
}

/// What the autosuggestion generator returns.
pub struct AutoSuggestionResult {
    /// The buffer the suggestion was generated for.
    pub buffer_text: String,
    /// The generated suggestion: a whole command.
    pub autosuggestion_result: Option<String>,
}

/// State that the prompt renders from the input: whether the buffer was
/// edited since the last block finished, and the terminal's size (of any
/// type `Z` that the caller measures it in).
pub struct InputRenderStateModel<Z> {
    editor_modified_since_block_finished: bool,
    size_info: Z,
}

impl<Z: Copy> InputRenderStateModel<Z> {
    pub closed spec fn modified(&self) -> bool {
        self.editor_modified_since_block_finished
    }

    pub closed spec fn size(&self) -> Z {
        self.size_info
    }

    pub fn new(editor_modified_since_block_finished: bool, size_info: Z) -> (res: Self)
        ensures
            res.modified() == editor_modified_since_block_finished,
            res.size() == size_info,
    {
        InputRenderStateModel { editor_modified_since_block_finished, size_info }
    }

    pub fn editor_modified_since_block_finished(&self) -> (res: bool)
        ensures
            res == self.modified(),
    {
        self.editor_modified_since_block_finished
    }

    pub fn size_info(&self) -> (res: Z)
        ensures
            res == self.size(),
    {
        self.size_info
    }

    pub fn set_editor_modified_since_block_finished(
        &mut self,
        editor_modified_since_block_finished: bool,
    )
        ensures
            final(self).modified() == editor_modified_since_block_finished,
            final(self).size() == old(self).size(),
    {
        self.editor_modified_since_block_finished = editor_modified_since_block_finished;
    }

    pub fn set_size_info(&mut self, size_info: Z)
        ensures
            final(self).size() == size_info,
            final(self).modified() == old(self).modified(),
    {
        self.size_info = size_info;
    }
}

} // verus!
