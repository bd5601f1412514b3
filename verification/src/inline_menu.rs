//! The inline menus that open inside the input (command history, indexed
//! repos), their tabs, and what the history menu reports.
use vstd::prelude::*;

use crate::input_state::InputSuggestionsMode;

verus! {

broadcast use vstd::string::group_string_axioms;

/// Identifies an inline menu.
#[derive(Debug, Clone, Copy, PartialEq, Eq, Hash, Structural)]
pub enum InlineMenuType {
    InlineHistoryMenu,
    IndexedReposMenu,
}

impl InlineMenuType {
    pub open spec fn spec_display_label(self) -> Seq<char> {
        match self {
            InlineMenuType::InlineHistoryMenu => "History"@,
            InlineMenuType::IndexedReposMenu => "/Repos"@,
        }
    }

    /// The menu's title.
    pub fn display_label(&self) -> (res: &'static str)
        ensures
            res@ == self.spec_display_label(),
    {
        match self {
            InlineMenuType::InlineHistoryMenu => "History",
            InlineMenuType::IndexedReposMenu => "/Repos",
        }
    }

    /// The inline menu a suggestion mode shows, if it is one.
    pub fn from_suggestions_mode<S>(mode: &InputSuggestionsMode<S>) -> (res: Option<Self>)
        ensures
            res == if *mode is InlineHistoryMenu {
                Some(InlineMenuType::InlineHistoryMenu)
            } else if *mode is IndexedReposMenu {
                Some(InlineMenuType::IndexedReposMenu)
            } else {
                None
            },
    {
        match mode {
            InputSuggestionsMode::InlineHistoryMenu => Some(InlineMenuType::InlineHistoryMenu),
            InputSuggestionsMode::IndexedReposMenu => Some(InlineMenuType::IndexedReposMenu),
            _ => None,
        }
    }
}

/// The tabs of the inline history menu.
#[derive(Debug, Clone, Copy, PartialEq, Eq, Structural)]
pub enum HistoryTab {
    All,
}

/// What a search query may be restricted to.
#[derive(Debug, Clone, Copy, PartialEq, Eq, Structural)]
pub enum QueryFilter {
    Commands,
}

/// One tab of an inline menu: its id, its label and the filters its
/// queries carry (each at most once).
pub struct InlineMenuTabConfig<T> {
    pub id: T,
    pub label: String,
    pub filters: Vec<QueryFilter>,
}

/// The tabs of the inline history menu: a single "All" tab with no filter.
pub fn build_tab_configs() -> (res: Vec<InlineMenuTabConfig<HistoryTab>>)
    ensures
        res@.len() == 1,
        res@[0].id == HistoryTab::All,
        res@[0].label@ == "All"@,
        res@[0].filters@.len() == 0,
{
    let mut configs: Vec<InlineMenuTabConfig<HistoryTab>> = Vec::new();
    configs.push(
        InlineMenuTabConfig {
            id: HistoryTab::All,
            label: String::from_str("All"),
            filters: Vec::new(),
        },
    );
    configs
}

/// Whether a query with these filters asks for commands: it does when it is
/// unfiltered or one of its filters is for commands.
pub fn query_admits_commands(filters: &[QueryFilter]) -> (res: bool)
    ensures
        res == (filters@.len() == 0 || filters@.contains(QueryFilter::Commands)),
{
    if filters.len() == 0 {
        return true;
    }
    for i in 0..filters.len()
        invariant
            forall|k: int| 0 <= k < i ==> filters@[k] != QueryFilter::Commands,
    {
        if filters[i] == QueryFilter::Commands {
            return true;
        }
    }
    false
}

/// A command accepted from the history menu, with the workflow it was
/// run from (of type `W`), if any.
pub struct AcceptHistoryItem<W> {
    pub command: String,
    pub linked_workflow_data: Option<W>,
}

/// What the inline history menu reports to the input.
pub enum InlineHistoryMenuEvent<W> {
    /// A command was accepted.
    AcceptCommand { command: String, linked_workflow_data: Option<W> },
    /// A command was selected (and previewed in the buffer).
    SelectCommand { command: String, linked_workflow_data: Option<W> },
    /// The query matched nothing.
    NoResults,
    /// The menu closes and the buffer is put back as it was.
    Close,
}

/// Rich content blocks, which are otherwise hard to tell apart.
#[derive(Debug, Clone, Copy, PartialEq, Eq, Hash, Structural)]
pub enum RichContentType {
    WarpifySuccessBlock,
    TerminalViewZeroState,
    PluginInstructionsBlock,
}

/// What the input does with an event of the inline history menu.
pub enum InlineHistoryReaction<W> {
    /// Close the menu if it is open (`close_menu`), put `command` in the
    /// buffer and press enter.
    Run { close_menu: bool, command: String },
    /// Show the selected command: as its workflow when it has one, else as
    /// the buffer's text, outside the undo history.
    Preview { command: String, linked_workflow_data: Option<W> },
    /// Close the menu and put the buffer back.
    CloseAndRestore,
    /// Nothing: the menu shows its own empty state.
    Nothing,
}

/// What the input does with `event`, given whether the inline history menu
/// is the open mode.
pub fn inline_history_menu_reaction<W>(event: InlineHistoryMenuEvent<W>, menu_open: bool) -> (res:
    InlineHistoryReaction<W>)
    ensures
        match event {
            InlineHistoryMenuEvent::AcceptCommand { command, .. } => res == (
            InlineHistoryReaction::<W>::Run { close_menu: menu_open, command }),
            InlineHistoryMenuEvent::SelectCommand { command, linked_workflow_data } => res == (
            InlineHistoryReaction::Preview { command, linked_workflow_data }),
            InlineHistoryMenuEvent::NoResults => res is Nothing,
            InlineHistoryMenuEvent::Close => if menu_open {
                res is CloseAndRestore
            } else {
                res is Nothing
            },
        },
{
    match event {
        InlineHistoryMenuEvent::AcceptCommand { command, .. } => InlineHistoryReaction::Run {
            close_menu: menu_open,
            command,
        },
        InlineHistoryMenuEvent::SelectCommand { command, linked_workflow_data } => {
            InlineHistoryReaction::Preview { command, linked_workflow_data }
        },
        InlineHistoryMenuEvent::NoResults => InlineHistoryReaction::Nothing,
        InlineHistoryMenuEvent::Close => if menu_open {
            InlineHistoryReaction::CloseAndRestore
        } else {
            InlineHistoryReaction::Nothing
        },
    }
}

} // verus!
