//! What the input draws around its editor: the overlays, the inline menu
//! and where it goes, for the classic terminal input and for the universal
//! developer input.
use vstd::prelude::*;

use crate::input_state::InputSuggestionsMode;
use crate::key_handling::InputMode;

verus! {

/// The overlays stacked over the input.
#[derive(Clone, Copy, Debug, PartialEq, Eq, Structural)]
pub struct Overlays {
    /// The selected workflow's info card.
    pub workflow_info: bool,
    /// The command palette.
    pub voltron: bool,
    /// The suggestion menus.
    pub suggestions: bool,
    /// The description of the token under the pointer.
    pub command_xray: bool,
}

/// The overlays: the workflow card when the selected workflow shows it, the
/// command palette when it is open and the input focused, the suggestion
/// menus when focused, and the token description when there is one.
pub fn input_overlays(
    workflow_info_shown: bool,
    voltron_open: bool,
    focused: bool,
    has_xray_description: bool,
) -> (res: Overlays)
    ensures
        res == (Overlays {
            workflow_info: workflow_info_shown,
            voltron: voltron_open && focused,
            suggestions: focused,
            command_xray: has_xray_description,
        }),
{
    Overlays {
        workflow_info: workflow_info_shown,
        voltron: voltron_open && focused,
        suggestions: focused,
        command_xray: has_xray_description,
    }
}

/// The inline menu shown in the input's column.
#[derive(Clone, Copy, Debug, PartialEq, Eq, Structural)]
pub enum InlineMenuShown {
    History,
    Repos,
}

/// How the classic terminal input lays out its column.
#[derive(Clone, Copy, Debug, PartialEq, Eq, Structural)]
pub struct TerminalInputLayout {
    /// A spacer row under the editor (left out when the input is pinned to
    /// the top with an inline menu open under it).
    pub bottom_spacer: bool,
    pub inline_menu: Option<InlineMenuShown>,
    /// Whether the inline menu goes below the input rather than above.
    pub inline_menu_below: bool,
}

pub open spec fn spec_terminal_input_layout<S>(
    input_mode: InputMode,
    mode: &InputSuggestionsMode<S>,
    inline_repo_menu_enabled: bool,
    hide_menu_for_pane_size: bool,
    waterfall_menu_below: bool,
) -> TerminalInputLayout {
    let inline_open = *mode is InlineHistoryMenu || (inline_repo_menu_enabled
        && *mode is IndexedReposMenu);
    TerminalInputLayout {
        bottom_spacer: !(input_mode == InputMode::PinnedToTop && inline_open),
        inline_menu: if hide_menu_for_pane_size {
            None
        } else if *mode is InlineHistoryMenu {
            Some(InlineMenuShown::History)
        } else if *mode is IndexedReposMenu {
            Some(InlineMenuShown::Repos)
        } else {
            None
        },
        inline_menu_below: match input_mode {
            InputMode::PinnedToBottom => false,
            InputMode::PinnedToTop => true,
            InputMode::Waterfall => waterfall_menu_below,
        },
    }
}

/// The layout of the classic terminal input: the inline menu (unless the
/// pane is too small for it) goes above an input pinned to the bottom,
/// below one pinned to the top, and where the positioner says in waterfall
/// mode.
pub fn terminal_input_layout<S>(
    input_mode: InputMode,
    mode: &InputSuggestionsMode<S>,
    inline_repo_menu_enabled: bool,
    hide_menu_for_pane_size: bool,
    waterfall_menu_below: bool,
) -> (res: TerminalInputLayout)
    ensures
        res == spec_terminal_input_layout(
            input_mode,
            mode,
            inline_repo_menu_enabled,
            hide_menu_for_pane_size,
            waterfall_menu_below,
        ),
{
    let pinned_to_top = matches!(input_mode, InputMode::PinnedToTop);
    let bottom_spacer = !(pinned_to_top && mode.is_inline_menu(inline_repo_menu_enabled));
    let inline_menu = if hide_menu_for_pane_size {
        None
    } else {
        match mode {
            InputSuggestionsMode::InlineHistoryMenu => Some(InlineMenuShown::History),
            InputSuggestionsMode::IndexedReposMenu => Some(InlineMenuShown::Repos),
            _ => None,
        }
    };
    let inline_menu_below = match input_mode {
        InputMode::PinnedToBottom => false,
        InputMode::PinnedToTop => true,
        InputMode::Waterfall => waterfall_menu_below,
    };
    TerminalInputLayout { bottom_spacer, inline_menu, inline_menu_below }
}

/// How the universal developer input frames itself.
#[derive(Clone, Copy, Debug, PartialEq, Eq, Structural)]
pub struct UniversalInputFrame {
    /// The vim status bar shows under the editor.
    pub vim_status: bool,
    /// No top margin: the input sits flush with the file tree.
    pub flush_top: bool,
    /// The focused input gets a background.
    pub background: bool,
}

/// The universal developer input's frame: the vim status bar when vim is
/// on and its status bar enabled, flush with the file tree when that is
/// shown and the input is at the top, a background when focused.
pub fn universal_input_frame(
    vim_active: bool,
    vim_status_bar_enabled: bool,
    file_tree_enabled: bool,
    input_at_top: bool,
    focused: bool,
) -> (res: UniversalInputFrame)
    ensures
        res == (UniversalInputFrame {
            vim_status: vim_active && vim_status_bar_enabled,
            flush_top: file_tree_enabled && input_at_top,
            background: focused,
        }),
{
    UniversalInputFrame {
        vim_status: vim_active && vim_status_bar_enabled,
        flush_top: file_tree_enabled && input_at_top,
        background: focused,
    }
}

} // verus!
