//! State of a shared session as the input sees it: the viewer's role, the
//! session's source, links to join it, and echo suppression for updates that
//! came from the other side.
use vstd::prelude::*;

use crate::text::contains_char;

verus! {

broadcast use vstd::string::group_string_axioms;

/// The toast shown when a sharing link is copied.
pub const COPY_LINK_TEXT: &'static str = "Sharing link copied";

/// What a participant of a shared session may do.
#[derive(Clone, Copy, Debug, PartialEq, Eq, Structural)]
pub enum Role {
    Reader,
    Executor,
    Full,
}

impl Role {
    /// Executors and full participants may run commands.
    pub fn can_execute(&self) -> (res: bool)
        ensures
            res == !(*self is Reader),
    {
        match self {
            Role::Reader => false,
            Role::Executor | Role::Full => true,
        }
    }
}

/// What the input editor allows.
#[derive(Clone, Copy, Debug, PartialEq, Eq, Structural)]
pub enum InteractionState {
    Selectable,
    Editable,
}

/// Readers may only select text; the other roles may edit.
pub fn interaction_state_for_role(role: &Role) -> (res: InteractionState)
    ensures
        res == if *role is Reader {
            InteractionState::Selectable
        } else {
            InteractionState::Editable
        },
{
    match role {
        Role::Reader => InteractionState::Selectable,
        Role::Executor => InteractionState::Editable,
        Role::Full => InteractionState::Editable,
    }
}

/// The kind of shared session a session is, if any.
#[derive(Clone, Copy, Debug, PartialEq, Eq, Structural)]
pub enum SharedSessionStatus {
    /// Not a shared session.
    NotShared,
    /// Joining, or catching up on what happened before joining.
    ViewPending,
    /// Viewing live.
    ActiveViewer { role: Role },
    /// Was viewing a session that has ended.
    FinishedViewer,
}

impl SharedSessionStatus {
    pub fn reader() -> (res: Self)
        ensures
            res == (SharedSessionStatus::ActiveViewer { role: Role::Reader }),
    {
        SharedSessionStatus::ActiveViewer { role: Role::Reader }
    }

    pub fn executor() -> (res: Self)
        ensures
            res == (SharedSessionStatus::ActiveViewer { role: Role::Executor }),
    {
        SharedSessionStatus::ActiveViewer { role: Role::Executor }
    }

    pub fn is_view_pending(&self) -> (res: bool)
        ensures
            res == (*self is ViewPending),
    {
        matches!(self, SharedSessionStatus::ViewPending)
    }

    pub fn is_active_viewer(&self) -> (res: bool)
        ensures
            res == (*self is ActiveViewer),
    {
        matches!(self, SharedSessionStatus::ActiveViewer { .. })
    }

    pub fn is_finished_viewer(&self) -> (res: bool)
        ensures
            res == (*self is FinishedViewer),
    {
        matches!(self, SharedSessionStatus::FinishedViewer)
    }

    /// Any stage of viewing a session.
    pub fn is_viewer(&self) -> (res: bool)
        ensures
            res == (*self is ViewPending || *self is ActiveViewer || *self is FinishedViewer),
    {
        self.is_view_pending() || self.is_active_viewer() || self.is_finished_viewer()
    }

    /// A live viewer whose role may run commands.
    pub fn is_executor(&self) -> (res: bool)
        ensures
            res == (*self matches SharedSessionStatus::ActiveViewer { role } && !(role is Reader)),
    {
        match self {
            SharedSessionStatus::ActiveViewer { role } => role.can_execute(),
            _ => false,
        }
    }

    /// A live viewer that may only read.
    pub fn is_reader(&self) -> (res: bool)
        ensures
            res == (*self == SharedSessionStatus::ActiveViewer { role: Role::Reader }),
    {
        match self {
            SharedSessionStatus::ActiveViewer { role: Role::Reader } => true,
            _ => false,
        }
    }

    /// Every status but `NotShared`.
    pub fn is_sharer_or_viewer(&self) -> (res: bool)
        ensures
            res == !(*self is NotShared),
    {
        !matches!(self, SharedSessionStatus::NotShared)
    }

    pub open spec fn spec_keymap_context(self) -> Seq<char> {
        match self {
            SharedSessionStatus::NotShared => "SharedSessionStatus_NotShared"@,
            SharedSessionStatus::ViewPending => "SharedSessionStatus_ViewPending"@,
            SharedSessionStatus::ActiveViewer { role: Role::Reader } => "SharedSessionStatus_Reader"@,
            SharedSessionStatus::ActiveViewer { .. } => "SharedSessionStatus_Executor"@,
            SharedSessionStatus::FinishedViewer => "SharedSessionStatus_FinishedViewer"@,
        }
    }

    /// The keymap context key for the status; executors and full
    /// participants share one.
    pub fn as_keymap_context(&self) -> (res: &'static str)
        ensures
            res@ == self.spec_keymap_context(),
    {
        match self {
            SharedSessionStatus::NotShared => "SharedSessionStatus_NotShared",
            SharedSessionStatus::ViewPending => "SharedSessionStatus_ViewPending",
            SharedSessionStatus::ActiveViewer { role: Role::Reader } => "SharedSessionStatus_Reader",
            SharedSessionStatus::ActiveViewer { role: Role::Executor } => {
                "SharedSessionStatus_Executor"
            },
            SharedSessionStatus::ActiveViewer { role: Role::Full } => "SharedSessionStatus_Executor",
            SharedSessionStatus::FinishedViewer => "SharedSessionStatus_FinishedViewer",
        }
    }
}

/// Who started a shared session.
pub enum SessionSourceType {
    User,
    AmbientAgent { task_id: Option<String> },
}

/// The source of a shared session and the orchestrator task id carried
/// beside it.
pub struct SharedSessionSource {
    pub source_type: SessionSourceType,
    pub source_task_id: Option<String>,
}

pub open spec fn opt_view(o: Option<String>) -> Option<Seq<char>> {
    match o {
        Some(s) => Some(s@),
        None => None,
    }
}

pub open spec fn opt_str_view(o: Option<&str>) -> Option<Seq<char>> {
    match o {
        Some(s) => Some(s@),
        None => None,
    }
}

impl SharedSessionSource {
    pub fn user(source_task_id: Option<String>) -> (res: Self)
        ensures
            res.source_type is User,
            res.source_task_id == source_task_id,
    {
        SharedSessionSource { source_type: SessionSourceType::User, source_task_id }
    }

    pub fn ambient_agent(task_id: Option<String>) -> (res: Self)
        ensures
            res.source_type == (SessionSourceType::AmbientAgent { task_id }),
            res.source_task_id == task_id,
    {
        let copy = match &task_id {
            Some(t) => Some(t.clone()),
            None => None,
        };
        SharedSessionSource {
            source_type: SessionSourceType::AmbientAgent { task_id: copy },
            source_task_id: task_id,
        }
    }

    /// A session started by the user with no task id.
    pub fn default() -> (res: Self)
        ensures
            res.source_type is User,
            res.source_task_id is None,
    {
        Self::user(None)
    }

    pub open spec fn spec_orchestrator_task_id(self) -> Option<Seq<char>> {
        match self.source_task_id {
            Some(id) => Some(id@),
            None => match self.source_type {
                SessionSourceType::AmbientAgent { task_id } => opt_view(task_id),
                SessionSourceType::User => None,
            },
        }
    }

    /// The orchestrator task id: the one carried beside the source first,
    /// then the ambient agent's own.
    pub fn orchestrator_task_id(&self) -> (res: Option<&str>)
        ensures
            opt_str_view(res) == self.spec_orchestrator_task_id(),
    {
        match &self.source_task_id {
            Some(id) => Some(id.as_str()),
            None => match &self.source_type {
                SessionSourceType::AmbientAgent { task_id } => match task_id {
                    Some(t) => Some(t.as_str()),
                    None => None,
                },
                SessionSourceType::User => None,
            },
        }
    }
}

/// Whether a local session is also shared.
pub enum IsSharedSessionCreator {
    /// Share the session once it is bootstrapped.
    Yes { source: SharedSessionSource },
    No,
}

impl IsSharedSessionCreator {
    pub fn default() -> (res: Self)
        ensures
            res is No,
    {
        IsSharedSessionCreator::No
    }
}

/// The index of a block in the block list.
#[derive(Clone, Copy, Debug, PartialEq, Eq, Structural)]
pub struct BlockIndex(pub usize);

/// What the scrollback computation needs to know of a block.
#[derive(Clone, Copy, Debug, PartialEq, Eq, Structural)]
pub struct BlockSummary {
    pub index: BlockIndex,
    pub is_scrollback_block_for_shared_session: bool,
}

/// The blocks of a terminal model, in order, and the active block.
pub struct BlockListSummary {
    pub blocks: Vec<BlockSummary>,
    pub active_block_index: BlockIndex,
}

/// Where the scrollback of a new shared session starts.
#[derive(Clone, Copy, Debug, Eq, PartialEq, Structural)]
pub enum SharedSessionScrollbackType {
    /// No scrollback; the active block may still be sent for the prompt.
    NoScrollback,
    /// Scrollback from the block at `block_index` on.
    FromBlock { block_index: BlockIndex },
    /// The whole block list.
    All,
}

/// The index of the first scrollback block at position `j` or later.
pub open spec fn first_scrollback_from(blocks: Seq<BlockSummary>, j: int) -> Option<BlockIndex>
    decreases blocks.len() - j,
{
    if j < 0 || j >= blocks.len() {
        None
    } else if blocks[j].is_scrollback_block_for_shared_session {
        Some(blocks[j].index)
    } else {
        first_scrollback_from(blocks, j + 1)
    }
}

impl SharedSessionScrollbackType {
    pub open spec fn spec_first_block_index(self, model: BlockListSummary) -> BlockIndex {
        let from = match self {
            SharedSessionScrollbackType::NoScrollback => None,
            SharedSessionScrollbackType::FromBlock { block_index } => first_scrollback_from(
                model.blocks@,
                block_index.0 as int,
            ),
            SharedSessionScrollbackType::All => first_scrollback_from(model.blocks@, 0),
        };
        match from {
            Some(i) => i,
            None => model.active_block_index,
        }
    }

    /// The first block the scrollback sends: the first scrollback-eligible
    /// block from the chosen position on, or else the active block.
    pub fn first_block_index(self, model: &BlockListSummary) -> (res: BlockIndex)
        ensures
            res == self.spec_first_block_index(*model),
    {
        let start = match self {
            SharedSessionScrollbackType::NoScrollback => return model.active_block_index,
            SharedSessionScrollbackType::FromBlock { block_index } => block_index.0,
            SharedSessionScrollbackType::All => 0,
        };
        let n = model.blocks.len();
        let mut j = start;
        while j < n
            invariant
                n == model.blocks@.len(),
                start <= j,
                match self {
                    SharedSessionScrollbackType::NoScrollback => false,
                    SharedSessionScrollbackType::FromBlock { block_index } => start == block_index.0,
                    SharedSessionScrollbackType::All => start == 0,
                },
                first_scrollback_from(model.blocks@, start as int) == first_scrollback_from(
                    model.blocks@,
                    j as int,
                ),
            decreases n - j,
        {
            if model.blocks[j].is_scrollback_block_for_shared_session {
                return model.blocks[j].index;
            }
            j = j + 1;
        }
        model.active_block_index
    }
}

/// Where an action on a shared session was started from.
#[derive(Clone, Copy, Debug, Eq, PartialEq, Structural)]
pub enum SharedSessionActionSource {
    BlocklistContextMenu { block_index: Option<BlockIndex> },
    Tab,
    PaneHeader,
    CommandPalette,
    OnboardingBlock,
    Closed { is_confirm_close_session: bool },
    InactivityModal,
    NonUser,
    SharingDialog,
    RightClickMenu,
    FooterChip,
}

/// The intent URL that opens a shared session inside the app.
pub fn join_native_intent(url_scheme: &str, session_id: &str) -> (res: String)
    ensures
        res@ == url_scheme@ + "://shared_session/"@ + session_id@,
{
    let mut link = String::from_str(url_scheme);
    link.append("://shared_session/");
    link.append(session_id);
    link
}

/// The link to join a shared session: the web page of the session, or the
/// app's intent URL, with `?preview=true` for preview builds.
pub fn join_link(
    use_web_url: bool,
    server_root_url: &str,
    url_scheme: &str,
    session_id: &str,
    is_preview_channel: bool,
) -> (res: String)
    ensures
        res@ == (if use_web_url {
            server_root_url@ + "/session/"@ + session_id@
        } else {
            url_scheme@ + "://shared_session/"@ + session_id@
        }) + (if is_preview_channel {
            "?preview=true"@
        } else {
            Seq::<char>::empty()
        }),
{
    let mut link = if use_web_url {
        let mut l = String::from_str(server_root_url);
        l.append("/session/");
        l.append(session_id);
        l
    } else {
        join_native_intent(url_scheme, session_id)
    };
    if is_preview_channel {
        link.append("?preview=true");
    }
    proof {
        if !is_preview_channel {
            assert(link@ =~= link@ + Seq::<char>::empty());
        }
    }
    link
}

/// The session-sharing URL for `path`, when a server is configured; with
/// access control lists on, the app version is appended as a query
/// parameter.
pub open spec fn spec_connect_endpoint(
    path: Seq<char>,
    server_url: Option<Seq<char>>,
    acls_enabled: bool,
    app_version: Option<Seq<char>>,
) -> Option<Seq<char>> {
    match server_url {
        None => None,
        Some(base) => {
            let version = match app_version {
                Some(v) => v,
                None => "v0.00.000"@,
            };
            if acls_enabled {
                Some(
                    base + path + (if path.contains('?') {
                        "&version="@
                    } else {
                        "?version="@
                    }) + version,
                )
            } else {
                Some(base + path)
            }
        },
    }
}

pub fn connect_endpoint(
    path: String,
    server_url: Option<&str>,
    acls_enabled: bool,
    app_version: Option<&str>,
) -> (res: Option<String>)
    ensures
        opt_view(res) == spec_connect_endpoint(
            path@,
            opt_str_view(server_url),
            acls_enabled,
            opt_str_view(app_version),
        ),
{
    let base = match server_url {
        Some(b) => b,
        None => return None,
    };
    let mut url = String::from_str(base);
    url.append(path.as_str());
    if acls_enabled {
        let version = match app_version {
            Some(v) => v,
            None => "v0.00.000",
        };
        if contains_char(path.as_str(), '?') {
            url.append("&version=");
        } else {
            url.append("?version=");
        }
        url.append(version);
    }
    Some(url)
}

/// Tracks whether an update that came from the other side of a shared
/// session is being applied, so that the changes it makes are not sent back.
pub struct RemoteUpdateGuard {
    active: bool,
}

/// A remote update under way. It holds the guard that started it, so that
/// ending it can only end that guard's update: ending hands the same guard
/// back.
pub struct ActiveRemoteUpdate {
    guard: RemoteUpdateGuard,
}

impl RemoteUpdateGuard {
    pub closed spec fn is_applying_remote_update(&self) -> bool {
        self.active
    }

    /// A guard that suppresses nothing.
    pub fn new() -> (res: Self)
        ensures
            !res.is_applying_remote_update(),
    {
        RemoteUpdateGuard { active: false }
    }

    /// Whether a local change should be broadcast: not while a remote update
    /// is being applied.
    pub fn should_broadcast(&self) -> (res: bool)
        ensures
            res == !self.is_applying_remote_update(),
    {
        !self.active
    }

    /// Starts applying a remote update: the guard goes into the returned
    /// update, whose guard suppresses broadcasts until the update ends.
    pub fn start_remote_update(self) -> (update: ActiveRemoteUpdate)
        requires
            !self.is_applying_remote_update(),
        ensures
            update.guard().is_applying_remote_update(),
    {
        let mut guard = self;
        guard.active = true;
        ActiveRemoteUpdate { guard }
    }

    /// Ends `update` and hands back the guard that started it, which
    /// broadcasts again.
    pub fn end_remote_update(update: ActiveRemoteUpdate) -> (guard: Self)
        ensures
            !guard.is_applying_remote_update(),
    {
        let ActiveRemoteUpdate { guard } = update;
        let mut guard = guard;
        guard.active = false;
        guard
    }
}

impl ActiveRemoteUpdate {
    /// The guard whose update this is.
    pub closed spec fn guard(&self) -> RemoteUpdateGuard {
        self.guard
    }

    /// The guard held is applying its update.
    #[verifier::type_invariant]
    spec fn holds_applying_guard(self) -> bool {
        self.guard.active
    }

    /// Whether a local change should be broadcast while this update runs:
    /// never.
    pub fn should_broadcast(&self) -> (res: bool)
        ensures
            !res,
    {
        proof {
            use_type_invariant(self);
        }
        self.guard.should_broadcast()
    }
}

/// A shared session's agent state as the other side reports it (the
/// agent's name aside).
#[derive(Clone, Copy, Debug, PartialEq, Eq, Structural)]
pub enum CliAgentRemoteState {
    Active { is_rich_input_open: bool },
    Inactive,
}

/// What applying the other side's agent state does locally.
#[derive(Clone, Copy, Debug, PartialEq, Eq, Structural)]
pub struct CliAgentSync {
    /// Start a session for the agent (with its input closed) and show the
    /// agent footer.
    pub create_session: bool,
    /// Open (`true`) or close (`false`) the agent's rich input.
    pub set_rich_input_open: Option<bool>,
}

/// What applying the other side's agent state does, given whether a
/// session of that very agent exists here and whether its rich input is
/// open. A new session starts with its input closed. An inactive agent is
/// cleaned up when its block completes, not here.
pub fn cli_agent_sync(
    remote: CliAgentRemoteState,
    same_agent_session_exists: bool,
    rich_input_open: bool,
) -> (res: CliAgentSync)
    ensures
        match remote {
            CliAgentRemoteState::Active { is_rich_input_open } => {
                let currently_open = same_agent_session_exists && rich_input_open;
                &&& res.create_session == !same_agent_session_exists
                &&& res.set_rich_input_open == if currently_open != is_rich_input_open {
                    Some(is_rich_input_open)
                } else {
                    None
                }
            },
            CliAgentRemoteState::Inactive => !res.create_session && res.set_rich_input_open is None,
        },
{
    match remote {
        CliAgentRemoteState::Active { is_rich_input_open } => {
            let create_session = !same_agent_session_exists;
            let currently_open = if create_session {
                false
            } else {
                rich_input_open
            };
            let set_rich_input_open = if currently_open != is_rich_input_open {
                Some(is_rich_input_open)
            } else {
                None
            };
            CliAgentSync { create_session, set_rich_input_open }
        },
        CliAgentRemoteState::Inactive => CliAgentSync {
            create_session: false,
            set_rich_input_open: None,
        },
    }
}

/// The share dialog's body when the account may not share more sessions.
pub struct DeniedBody;

impl DeniedBody {
    pub fn new() -> (res: Self) {
        DeniedBody
    }

    pub open spec fn spec_subheader() -> Seq<char> {
        "This account has reached its limit on shared sessions."@
    }

    /// The text the body shows.
    pub fn subheader(&self) -> (res: &'static str)
        ensures
            res@ == Self::spec_subheader(),
    {
        "This account has reached its limit on shared sessions."
    }
}

} // verus!
