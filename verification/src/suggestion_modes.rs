//! How the suggestion mode of the input changes: opening a workflow
//! argument's variants, taking in the variants a dynamic enum's command
//! produced, confirming a suggestion, and closing the menu.
use vstd::prelude::*;

use crate::completion::{chars_before, CompletionsTrigger, SuggestionResults};
use crate::input_state::{
    BufferPoint, BufferState, CommandMatchesWorkflowTemplate, DynamicEnumSuggestionStatus,
    InputSuggestionsMode, TabCompletionsMenuPosition,
};
use vstd::string::StringSliceAdditionalSpecFns;
use crate::workflow_ranges::ByteRange;

verus! {

/// The values a workflow argument may take: listed in the workflow, or
/// produced by running a command.
pub enum EnumVariants {
    Static(Vec<String>),
    Dynamic(String),
}

/// The mode that shows a workflow argument's variants, and the variants
/// the menu lists at once.
pub struct EnumMenu<S> {
    /// The new mode; `None` leaves the mode as it is (a dynamic enum while
    /// dynamic enums are off).
    pub mode: Option<InputSuggestionsMode<S>>,
    pub listed: Vec<String>,
}

/// Opens the variants of the argument whose instances are
/// `selected_ranges`, anchored at the first cursor, `position`. Static
/// variants are listed at once; a dynamic enum's command waits for
/// approval and lists nothing yet.
pub fn enum_suggestions_menu<S>(
    variants: EnumVariants,
    selected_ranges: Vec<ByteRange>,
    position: BufferPoint,
    dynamic_enums_enabled: bool,
) -> (res: EnumMenu<S>)
    ensures
        match variants {
            EnumVariants::Static(values) => {
                &&& res.listed@ == values@
                &&& res.mode matches Some(InputSuggestionsMode::StaticWorkflowEnumSuggestions {
                    suggestions,
                    menu_position,
                    selected_ranges: ranges,
                    cursor_point,
                })
                &&& suggestions@ == values@
                &&& menu_position == TabCompletionsMenuPosition::AtFirstCursor
                &&& ranges@ == selected_ranges@
                &&& cursor_point == position
            },
            EnumVariants::Dynamic(command) => {
                &&& res.listed@.len() == 0
                &&& !dynamic_enums_enabled ==> res.mode is None
                &&& dynamic_enums_enabled ==> (res.mode matches Some(
                    InputSuggestionsMode::DynamicWorkflowEnumSuggestions {
                        suggestions,
                        menu_position,
                        selected_ranges: ranges,
                        cursor_point,
                        dynamic_enum_status,
                        command: c,
                    },
                ) && suggestions@.len() == 0 && menu_position
                    == TabCompletionsMenuPosition::AtFirstCursor && ranges@ == selected_ranges@
                    && cursor_point == position && dynamic_enum_status
                    == DynamicEnumSuggestionStatus::Unapproved && c@ == command@)
            },
        },
{
    match variants {
        EnumVariants::Static(values) => {
            let listed = values.clone();
            proof {
                assert(listed@ == values@);
            }
            EnumMenu {
                mode: Some(
                    InputSuggestionsMode::StaticWorkflowEnumSuggestions {
                        suggestions: values,
                        menu_position: TabCompletionsMenuPosition::AtFirstCursor,
                        selected_ranges,
                        cursor_point: position,
                    },
                ),
                listed,
            }
        },
        EnumVariants::Dynamic(command) => {
            let mode = if dynamic_enums_enabled {
                Some(
                    InputSuggestionsMode::DynamicWorkflowEnumSuggestions {
                        suggestions: Vec::new(),
                        menu_position: TabCompletionsMenuPosition::AtFirstCursor,
                        selected_ranges,
                        cursor_point: position,
                        dynamic_enum_status: DynamicEnumSuggestionStatus::Unapproved,
                        command,
                    },
                )
            } else {
                None
            };
            EnumMenu { mode, listed: Vec::new() }
        },
    }
}

/// Takes in what a dynamic enum's command produced. Results for a buffer
/// (or selections) that changed since the command started are dropped
/// (`None`). Otherwise the menu lists the variants (none after a failure),
/// and a dynamic-enum mode records them with the status `Success` or
/// `Failure`; other modes stay as they are.
pub fn apply_dynamic_enum_results<S, E>(
    mode: &mut InputSuggestionsMode<S>,
    results: Result<Vec<String>, E>,
    editor_unchanged: bool,
) -> (listed: Option<Vec<String>>)
    ensures
        !editor_unchanged ==> listed is None && *final(mode) == *old(mode),
        editor_unchanged ==> {
            let (values, status) = match results {
                Ok(v) => (v@, DynamicEnumSuggestionStatus::Success),
                Err(_) => (Seq::<String>::empty(), DynamicEnumSuggestionStatus::Failure),
            };
            &&& listed matches Some(l) && l@ == values
            &&& match *old(mode) {
                InputSuggestionsMode::DynamicWorkflowEnumSuggestions {
                    menu_position,
                    selected_ranges,
                    cursor_point,
                    command,
                    ..
                } => (*final(mode)) matches InputSuggestionsMode::DynamicWorkflowEnumSuggestions {
                    suggestions: s,
                    menu_position: p,
                    selected_ranges: r,
                    cursor_point: c,
                    dynamic_enum_status: st,
                    command: cmd,
                } && s@ == values && p == menu_position && r == selected_ranges && c
                    == cursor_point && st == status && cmd == command,
                _ => *final(mode) == *old(mode),
            }
        },
{
    if !editor_unchanged {
        return None;
    }
    let (values, status) = match results {
        Ok(values) => (values, DynamicEnumSuggestionStatus::Success),
        Err(_) => (Vec::new(), DynamicEnumSuggestionStatus::Failure),
    };
    let listed = values.clone();
    proof {
        assert(listed@ == values@);
    }
    match mode {
        InputSuggestionsMode::DynamicWorkflowEnumSuggestions {
            suggestions,
            dynamic_enum_status,
            ..
        } => {
            *suggestions = values;
            *dynamic_enum_status = status;
        },
        _ => {},
    }
    Some(listed)
}

/// What confirming a suggestion does to the buffer.
pub enum ConfirmAction {
    /// Nothing is confirmed: no menu is open, or an inline menu confirms its
    /// own rows.
    Refuse,
    /// The history row is already in the buffer.
    Keep,
    /// Insert the completion in place of the text from
    /// `replacement_start`.
    InsertCompletion { replacement_start: usize },
    /// Put the value in place of every instance of the argument.
    ReplaceArguments { ranges: Vec<ByteRange> },
}

/// What confirming a suggestion does in `mode`.
pub fn confirm_suggestion_action<S>(mode: &InputSuggestionsMode<S>) -> (res: ConfirmAction)
    ensures
        match *mode {
            InputSuggestionsMode::HistoryUp { .. } => res is Keep,
            InputSuggestionsMode::CompletionSuggestions { replacement_start, .. } => res == (
            ConfirmAction::InsertCompletion { replacement_start }),
            InputSuggestionsMode::StaticWorkflowEnumSuggestions { selected_ranges, .. } => res matches ConfirmAction::ReplaceArguments { ranges } && ranges@
                == selected_ranges@,
            InputSuggestionsMode::DynamicWorkflowEnumSuggestions { selected_ranges, .. } => res matches ConfirmAction::ReplaceArguments { ranges } && ranges@
                == selected_ranges@,
            _ => res is Refuse,
        },
{
    match mode {
        InputSuggestionsMode::HistoryUp { .. } => ConfirmAction::Keep,
        InputSuggestionsMode::CompletionSuggestions { replacement_start, .. } => {
            ConfirmAction::InsertCompletion { replacement_start: *replacement_start }
        },
        InputSuggestionsMode::StaticWorkflowEnumSuggestions { selected_ranges, .. }
        | InputSuggestionsMode::DynamicWorkflowEnumSuggestions { selected_ranges, .. } => {
            let ranges = selected_ranges.clone();
            proof {
                assert(ranges@ == selected_ranges@);
            }
            ConfirmAction::ReplaceArguments { ranges }
        },
        _ => ConfirmAction::Refuse,
    }
}

/// The buffer to put back when the history-up menu closes with a restore:
/// the buffer and cursor from before arrow-up was pressed.
pub fn history_up_restore<S>(mode: &InputSuggestionsMode<S>, should_restore: bool) -> (res:
    Option<BufferState>)
    ensures
        match *mode {
            InputSuggestionsMode::HistoryUp { original_buffer, original_cursor_point, .. } => if should_restore {
                res matches Some(state) && state.buffer@ == original_buffer@ && state.cursor_point
                    == original_cursor_point
            } else {
                res is None
            },
            _ => res is None,
        },
{
    if !should_restore {
        return None;
    }
    match mode {
        InputSuggestionsMode::HistoryUp { original_buffer, original_cursor_point, .. } => {
            Some(BufferState::new(original_buffer.clone(), *original_cursor_point))
        },
        _ => None,
    }
}

/// What closing the suggestions does besides setting the mode to closed.
#[derive(Clone, Copy, Debug, PartialEq, Eq, Structural)]
pub enum CloseEffect {
    /// The menu was closed already: nothing, and the input keeps its focus
    /// state.
    AlreadyClosed,
    /// Focus the input and regenerate the autosuggestion.
    FocusInput,
    /// Just re-render.
    Notify,
}

/// Closes the suggestion menu.
pub fn close_input_suggestions<S>(mode: &mut InputSuggestionsMode<S>, should_focus_input: bool) -> (res:
    CloseEffect)
    ensures
        *final(mode) is Closed,
        res == if *old(mode) is Closed {
            CloseEffect::AlreadyClosed
        } else if should_focus_input {
            CloseEffect::FocusInput
        } else {
            CloseEffect::Notify
        },
{
    if !mode.is_visible() {
        return CloseEffect::AlreadyClosed;
    }
    *mode = InputSuggestionsMode::Closed;
    if should_focus_input {
        CloseEffect::FocusInput
    } else {
        CloseEffect::Notify
    }
}

/// What the input does with completion results that came back.
#[derive(Clone, Copy, Debug, PartialEq, Eq, Structural)]
pub enum ResultsStep {
    /// The buffer or its selections changed since the request: the results
    /// are dropped.
    Ignore,
    /// There are no suggestions: the menu closes.
    Close,
    /// Decide between inserting and opening the menu.
    Decide,
}

/// What the input does with completion results (`suggestion_count` is
/// `None` when the completer gave none at all).
pub fn completion_results_step(editor_unchanged: bool, suggestion_count: Option<usize>) -> (res:
    ResultsStep)
    ensures
        res == if !editor_unchanged {
            ResultsStep::Ignore
        } else if suggestion_count is None || suggestion_count == Some(0usize) {
            ResultsStep::Close
        } else {
            ResultsStep::Decide
        },
{
    if !editor_unchanged {
        return ResultsStep::Ignore;
    }
    match suggestion_count {
        None => ResultsStep::Close,
        Some(n) => if n == 0 {
            ResultsStep::Close
        } else {
            ResultsStep::Decide
        },
    }
}

/// The completions mode that opens on `results`: it remembers the buffer
/// before the cursor and where the replaced text starts, and anchors the
/// menu at the replaced span's start when that point is known
/// (`anchored_at_span`), else at the cursor.
pub fn completion_suggestions_mode<S>(
    results: SuggestionResults<S>,
    trigger: CompletionsTrigger,
    buffer_text: &str,
    cursor: usize,
    anchored_at_span: bool,
) -> (res: InputSuggestionsMode<S>)
    requires
        vstd::utf8::is_char_boundary(buffer_text.spec_bytes(), cursor as int),
    ensures
        res matches InputSuggestionsMode::CompletionSuggestions {
            replacement_start,
            buffer_text_original,
            completion_results,
            trigger: t,
            menu_position,
        } && replacement_start == results.replacement_span.start && buffer_text_original@
            == chars_before(buffer_text, cursor) && completion_results == results && t == trigger
            && menu_position == if anchored_at_span {
            TabCompletionsMenuPosition::AtStartOfReplacementSpan
        } else {
            TabCompletionsMenuPosition::AtLastCursor
        },
{
    proof {
        crate::text::lemma_boundary_in_range(buffer_text, cursor as int);
    }
    let (head, _tail) = buffer_text.split_at(cursor);
    proof {
        vstd::utf8::encode_utf8_decode_utf8(head@);
        assert(head.spec_bytes() =~= buffer_text.spec_bytes().subrange(0, cursor as int));
    }
    let buffer_text_original = String::from_str(head);
    let menu_position = if anchored_at_span {
        TabCompletionsMenuPosition::AtStartOfReplacementSpan
    } else {
        TabCompletionsMenuPosition::AtLastCursor
    };
    InputSuggestionsMode::CompletionSuggestions {
        replacement_start: results.replacement_span.start,
        buffer_text_original,
        completion_results: results,
        trigger,
        menu_position,
    }
}

/// Whether opening the tab menu clears the autosuggestion: it does when
/// the feature is on and completions do not run as you type (they would
/// otherwise hide it almost always).
pub fn clears_autosuggestion_for_tab_menu(feature_enabled: bool, completions_while_typing: bool) -> (res:
    bool)
    ensures
        res == (feature_enabled && !completions_while_typing),
{
    feature_enabled && !completions_while_typing
}

/// The placeholder the empty buffer shows.
#[derive(Clone, Copy, Debug)]
pub enum Placeholder {
    /// The agent input's hint.
    AgentHint,
    /// The mode's own placeholder.
    Mode(&'static str),
    /// No placeholder.
    Clear,
}

/// The placeholder to show: the agent input's hint while it is open, else
/// the mode's own placeholder, else none.
pub fn zero_state_placeholder<S>(agent_input_open: bool, mode: &InputSuggestionsMode<S>) -> (res:
    Placeholder)
    ensures
        agent_input_open ==> res is AgentHint,
        !agent_input_open ==> match mode.spec_placeholder_text() {
            Some(text) => res matches Placeholder::Mode(t) && t@ == text,
            None => res is Clear,
        },
{
    if agent_input_open {
        return Placeholder::AgentHint;
    }
    match mode.placeholder_text() {
        Some(text) => Placeholder::Mode(text),
        None => Placeholder::Clear,
    }
}

/// How a workflow goes into the buffer.
pub enum WorkflowInsertion<D> {
    /// With its arguments highlighted, from its display data.
    Highlighted { display: D },
    /// As plain text, with no argument known.
    Plain { command: String },
}

/// How a workflow goes into the buffer. Coming from a history command, it
/// is highlighted when the command still parses as the workflow
/// (`template_match`) and is plain text otherwise; without one, the
/// workflow's own display data (passed as a match) is used.
pub fn workflow_insertion<D>(
    history_command: Option<String>,
    template_match: CommandMatchesWorkflowTemplate<D>,
) -> (res: WorkflowInsertion<D>)
    ensures
        match template_match {
            CommandMatchesWorkflowTemplate::Yes(display) => res == (WorkflowInsertion::Highlighted {
                display,
            }),
            CommandMatchesWorkflowTemplate::No => match history_command {
                Some(command) => res == (WorkflowInsertion::<D>::Plain { command }),
                None => res matches WorkflowInsertion::Plain { command } && command@.len() == 0,
            },
        },
{
    match template_match {
        CommandMatchesWorkflowTemplate::Yes(display) => WorkflowInsertion::Highlighted { display },
        CommandMatchesWorkflowTemplate::No => match history_command {
            Some(command) => WorkflowInsertion::Plain { command },
            None => WorkflowInsertion::Plain { command: String::new() },
        },
    }
}

/// What moving the selection in the suggestions menu does to the buffer.
pub enum SelectAction<W> {
    /// Load the selected command's workflow, with the command as its text.
    LoadWorkflow { workflow: W },
    /// Show the selected command as the buffer, outside the undo history.
    SetBuffer,
    /// Classic completions: put the selected item in place of the text from
    /// `replacement_start` to the cursor.
    ReplaceWord { replacement_start: usize },
    /// Nothing.
    Nothing,
}

/// What moving the selection does in `mode`: the history menu previews the
/// selected command (as its workflow when it has one, `linked_workflow`),
/// and classic completions write the selected item into the buffer.
pub fn suggestion_select_action<S, W>(
    mode: &InputSuggestionsMode<S>,
    linked_workflow: Option<W>,
    classic_completions: bool,
) -> (res: SelectAction<W>)
    ensures
        match *mode {
            InputSuggestionsMode::HistoryUp { .. } => match linked_workflow {
                Some(workflow) => res == (SelectAction::LoadWorkflow { workflow }),
                None => res is SetBuffer,
            },
            InputSuggestionsMode::CompletionSuggestions { replacement_start, .. } => if classic_completions {
                res == (SelectAction::<W>::ReplaceWord { replacement_start })
            } else {
                res is Nothing
            },
            _ => res is Nothing,
        },
{
    match mode {
        InputSuggestionsMode::HistoryUp { .. } => match linked_workflow {
            Some(workflow) => SelectAction::LoadWorkflow { workflow },
            None => SelectAction::SetBuffer,
        },
        InputSuggestionsMode::CompletionSuggestions { replacement_start, .. } => {
            if classic_completions {
                SelectAction::ReplaceWord { replacement_start: *replacement_start }
            } else {
                SelectAction::Nothing
            }
        },
        _ => SelectAction::Nothing,
    }
}

} // verus!
