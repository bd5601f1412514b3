//! Running commands from the input: whether the session can take one, where
//! a request goes in a shared session, the helper command that hands the
//! buffer to a shell widget, and what the buffer becomes once that
//! command's block completes.
use vstd::prelude::*;

use crate::input_state::InputRenderStateModel;
use crate::remote_edits::DeferredRemoteOperations;
use crate::shared_session::SharedSessionStatus;
use crate::text::{decimal, decimal_string};
use vstd::string::StringSliceAdditionalSpecFns;
use vstd::string::StrSliceExecFns;

verus! {

broadcast use vstd::string::group_string_axioms;

/// Identifies a shell session.
#[derive(Clone, Copy, Debug, PartialEq, Eq, Structural)]
pub struct SessionId(pub u64);

impl From<u64> for SessionId {
    fn from(id: u64) -> (res: SessionId) {
        SessionId(id)
    }
}

impl vstd::std_specs::convert::FromSpecImpl<u64> for SessionId {
    open spec fn obeys_from_spec() -> bool {
        true
    }

    open spec fn from_spec(id: u64) -> SessionId {
        SessionId(id)
    }
}

/// Identifies a block of the block list.
#[derive(Clone, Copy, Debug, PartialEq, Eq, Structural)]
pub struct BlockId(pub u64);

impl From<u64> for BlockId {
    fn from(id: u64) -> (res: BlockId) {
        BlockId(id)
    }
}

impl vstd::std_specs::convert::FromSpecImpl<u64> for BlockId {
    open spec fn obeys_from_spec() -> bool {
        true
    }

    open spec fn from_spec(id: u64) -> BlockId {
        BlockId(id)
    }
}

/// A byte offset into the buffer.
#[derive(Clone, Copy, Debug, PartialEq, Eq, Structural)]
pub struct ByteOffset(pub usize);

impl ByteOffset {
    pub fn as_usize(self) -> (res: usize)
        ensures
            res == self.0,
    {
        self.0
    }
}

impl From<usize> for ByteOffset {
    fn from(offset: usize) -> (res: ByteOffset) {
        ByteOffset(offset)
    }
}

impl vstd::std_specs::convert::FromSpecImpl<usize> for ByteOffset {
    open spec fn obeys_from_spec() -> bool {
        true
    }

    open spec fn from_spec(offset: usize) -> ByteOffset {
        ByteOffset(offset)
    }
}

/// Why a command may not run now.
#[derive(Debug, Clone, Copy, PartialEq, Eq, Structural)]
pub enum DenyExecutionReason {
    /// The shell is still bootstrapping.
    NotBootstrapped,
    /// A command that is not in-band holds the pty.
    ExistingActiveCommand,
    /// The session's history cannot record the command (shared-session
    /// executors excepted).
    HistoryNotAppendable,
}

impl DenyExecutionReason {
    pub fn is_existing_active_command(&self) -> (res: bool)
        ensures
            res == (*self is ExistingActiveCommand),
    {
        matches!(self, DenyExecutionReason::ExistingActiveCommand)
    }
}

/// Whether a command may run now.
#[derive(Debug, Clone, Copy, PartialEq, Eq, Structural)]
pub enum CanExecuteCommand {
    Yes,
    No(DenyExecutionReason),
}

impl CanExecuteCommand {
    pub fn is_no(&self) -> (res: bool)
        ensures
            res == (*self is No),
    {
        matches!(self, CanExecuteCommand::No(_))
    }
}

pub open spec fn spec_can_execute_command(
    is_bootstrapped: bool,
    active_block_long_running: bool,
    active_block_in_band: bool,
    is_executor: bool,
    session_history_appendable: Option<bool>,
) -> CanExecuteCommand {
    if !is_bootstrapped {
        CanExecuteCommand::No(DenyExecutionReason::NotBootstrapped)
    } else if active_block_long_running && !active_block_in_band {
        CanExecuteCommand::No(DenyExecutionReason::ExistingActiveCommand)
    } else if !is_executor && session_history_appendable != Some(true) {
        CanExecuteCommand::No(DenyExecutionReason::HistoryNotAppendable)
    } else {
        CanExecuteCommand::Yes
    }
}

/// Whether the active session may run a command: it must be bootstrapped,
/// no command that is not in-band may hold the pty, and, unless the user is
/// a shared-session executor, the session's history must be appendable
/// (`session_history_appendable` is `None` when the active block has no
/// session).
pub fn can_execute_command(
    is_bootstrapped: bool,
    active_block_long_running: bool,
    active_block_in_band: bool,
    is_executor: bool,
    session_history_appendable: Option<bool>,
) -> (res: CanExecuteCommand)
    ensures
        res == spec_can_execute_command(
            is_bootstrapped,
            active_block_long_running,
            active_block_in_band,
            is_executor,
            session_history_appendable,
        ),
{
    if !is_bootstrapped {
        CanExecuteCommand::No(DenyExecutionReason::NotBootstrapped)
    } else if active_block_long_running && !active_block_in_band {
        CanExecuteCommand::No(DenyExecutionReason::ExistingActiveCommand)
    } else if !is_executor && !matches!(session_history_appendable, Some(true)) {
        CanExecuteCommand::No(DenyExecutionReason::HistoryNotAppendable)
    } else {
        CanExecuteCommand::Yes
    }
}

/// Whether history can be queried: the active block needs a session
/// (`session_history_queryable` is `None` without one), the session must be
/// bootstrapped, and its history queryable unless the user is a
/// shared-session executor.
pub fn can_query_history(
    session_history_queryable: Option<bool>,
    is_bootstrapped: bool,
    is_executor: bool,
) -> (res: bool)
    ensures
        res == match session_history_queryable {
            None => false,
            Some(queryable) => is_bootstrapped && (queryable || is_executor),
        },
{
    match session_history_queryable {
        None => false,
        Some(queryable) => is_bootstrapped && (queryable || is_executor),
    }
}

/// Where a request to run the buffer's command goes.
#[derive(Debug, Clone, Copy, PartialEq, Eq, Structural)]
pub enum ExecutionRoute {
    /// A reader may not run commands.
    Refuse,
    /// An executor freezes its buffer while the sharer runs the command on
    /// its behalf.
    FreezeAndRequest,
    /// Another shared-session participant asks for the command to run.
    Request,
    /// The command runs in the local session.
    RunLocally,
}

pub open spec fn spec_execution_route(status: SharedSessionStatus) -> ExecutionRoute {
    if status is NotShared {
        ExecutionRoute::RunLocally
    } else if status == (SharedSessionStatus::ActiveViewer {
        role: crate::shared_session::Role::Reader,
    }) {
        ExecutionRoute::Refuse
    } else if status is ActiveViewer {
        ExecutionRoute::FreezeAndRequest
    } else {
        ExecutionRoute::Request
    }
}

/// Where a request to run a command goes, given the shared-session status.
pub fn execution_route(status: &SharedSessionStatus) -> (res: ExecutionRoute)
    ensures
        res == spec_execution_route(*status),
{
    if status.is_sharer_or_viewer() {
        if status.is_reader() {
            ExecutionRoute::Refuse
        } else if status.is_executor() {
            ExecutionRoute::FreezeAndRequest
        } else {
            ExecutionRoute::Request
        }
    } else {
        ExecutionRoute::RunLocally
    }
}

/// Where a request to run a command came from. `P` identifies a
/// shared-session participant and `M` is the metadata of an environment
/// variable collection.
pub enum CommandExecutionSource<P, M> {
    /// A request in a shared session, by a viewer or the sharer.
    SharedSession {
        participant_id: P,
        /// The active block when the request was made.
        block_id: BlockId,
        /// Set when a queued command row, not the buffer, sent the command:
        /// the draft in the buffer is then kept.
        preserve_input: bool,
    },
    /// A normal request.
    User,
    EnvVarCollection { metadata: M },
}

impl<P, M> CommandExecutionSource<P, M> {
    /// Whether the buffer's draft survives running the command.
    pub fn should_preserve_input(&self) -> (res: bool)
        ensures
            res == (*self matches CommandExecutionSource::SharedSession { preserve_input, .. }
                && preserve_input),
    {
        match self {
            CommandExecutionSource::SharedSession { preserve_input, .. } => *preserve_input,
            _ => false,
        }
    }
}

/// How a shell widget's reply is put back into the buffer: bash and zsh
/// ctrl-r and fish widgets report the whole line (`Replace`); bash and zsh
/// ctrl-t report a fragment to insert at the cursor (`Splice`).
#[derive(Clone, Copy, Debug, PartialEq, Eq, Structural)]
pub enum ShellWidgetApplyMode {
    Splice,
    Replace,
}

/// A shell widget that was handed the buffer and whose block has not
/// completed yet.
pub struct PendingShellWidgetHandoff {
    pub session_id: SessionId,
    /// The buffer when the widget was started.
    pub original_buffer: String,
    /// What the widget reported, if anything.
    pub selection: Option<String>,
    /// The block that runs the widget.
    pub block_id: BlockId,
    pub apply_mode: ShellWidgetApplyMode,
    /// The cursor when the widget was started, if it was captured.
    pub cursor_offset: Option<ByteOffset>,
}

pub open spec fn opt_string_view(o: Option<String>) -> Option<Seq<char>> {
    match o {
        Some(s) => Some(s@),
        None => None,
    }
}

impl PendingShellWidgetHandoff {
    /// Records the widget's reply, but only one from the handoff's own
    /// session, and only a non-empty one.
    pub fn maybe_apply_selection(&mut self, session_id: SessionId, selection: &str)
        ensures
            final(self).session_id == old(self).session_id,
            final(self).original_buffer == old(self).original_buffer,
            final(self).block_id == old(self).block_id,
            final(self).apply_mode == old(self).apply_mode,
            final(self).cursor_offset == old(self).cursor_offset,
            opt_string_view(final(self).selection) == if session_id == old(self).session_id
                && selection@.len() > 0 {
                Some(selection@)
            } else {
                opt_string_view(old(self).selection)
            },
    {
        if self.session_id != session_id {
            return;
        }
        if !selection.is_empty() {
            self.selection = Some(String::from_str(selection));
        }
    }

    pub open spec fn spec_restore_text(&self) -> Seq<char> {
        match (self.apply_mode, self.selection) {
            (ShellWidgetApplyMode::Replace, Some(selection)) => selection@,
            _ => self.original_buffer@,
        }
    }

    /// The text the buffer gets back: a whole line the widget reported, or
    /// else the buffer as it was.
    pub fn restore_text(&self) -> (res: &str)
        ensures
            res@ == self.spec_restore_text(),
    {
        match (self.apply_mode, &self.selection) {
            (ShellWidgetApplyMode::Replace, Some(selection)) => selection.as_str(),
            _ => self.original_buffer.as_str(),
        }
    }
}

/// The lower-case hexadecimal digit for `d` (below 16).
pub open spec fn hex_digit(d: int) -> char {
    if d < 10 {
        ('0' as int + d) as char
    } else {
        ('a' as int + d - 10) as char
    }
}

/// `bytes` in lower-case hexadecimal, two digits per byte, high nibble
/// first.
pub open spec fn lower_hex(bytes: Seq<u8>) -> Seq<char>
    decreases bytes.len(),
{
    if bytes.len() == 0 {
        Seq::empty()
    } else {
        lower_hex(bytes.drop_last()) + seq![
            hex_digit(bytes.last() as int / 16),
            hex_digit(bytes.last() as int % 16),
        ]
    }
}

/// The bytes of `text` in hexadecimal (`hex::encode`, which writes each
/// byte as two lower-case digits, high nibble first).
#[verifier::external_body]
fn hex_encode(text: &str) -> (res: String)
    ensures
        res@ == lower_hex(text.spec_bytes()),
{
    hex::encode(text)
}

pub open spec fn spec_shell_widget_handoff_command(
    helper_command: Seq<char>,
    apply_mode: ShellWidgetApplyMode,
    original_buffer: &str,
    cursor_offset: Option<ByteOffset>,
) -> Seq<char> {
    let base = seq![' '] + helper_command;
    match cursor_offset {
        Some(offset) => if apply_mode == ShellWidgetApplyMode::Replace {
            let char_cursor = vstd::utf8::decode_utf8(
                original_buffer.spec_bytes().subrange(0, offset.0 as int),
            ).len();
            base + seq![' '] + decimal(char_cursor) + seq![':'] + lower_hex(
                original_buffer.spec_bytes(),
            )
        } else {
            base
        },
        None => base,
    }
}

/// The command that runs a shell widget's helper: a leading space (so the
/// shell keeps it out of its history), the helper, and, for a widget that
/// replaces the line and when the cursor was captured, the cursor as a
/// character count and the buffer in hexadecimal, as `count:hex`.
pub fn shell_widget_handoff_command(
    helper_command: &str,
    apply_mode: ShellWidgetApplyMode,
    original_buffer: &str,
    cursor_offset: Option<ByteOffset>,
) -> (res: String)
    requires
        cursor_offset matches Some(offset) ==> vstd::utf8::is_char_boundary(
            original_buffer.spec_bytes(),
            offset.0 as int,
        ),
    ensures
        res@ == spec_shell_widget_handoff_command(
            helper_command@,
            apply_mode,
            original_buffer,
            cursor_offset,
        ),
{
    let mut command = String::from_str(" ");
    command.append(helper_command);
    proof {
        reveal_strlit(" ");
    }
    if let Some(offset) = cursor_offset {
        if apply_mode == ShellWidgetApplyMode::Replace {
            proof {
                crate::text::lemma_boundary_in_range(original_buffer, offset.0 as int);
            }
            let (head, _tail) = original_buffer.split_at(offset.as_usize());
            let char_cursor = head.unicode_len();
            proof {
                vstd::utf8::encode_utf8_decode_utf8(head@);
                assert(head.spec_bytes() =~= original_buffer.spec_bytes().subrange(
                    0,
                    offset.0 as int,
                ));
            }
            command.append(" ");
            let count = decimal_string(char_cursor);
            command.append(count.as_str());
            command.append(":");
            let hex = hex_encode(original_buffer);
            command.append(hex.as_str());
            proof {
                reveal_strlit(":");
            }
        }
    }
    command
}

/// How the cursor is set after a shell widget's line is put back.
pub enum CursorRestore {
    /// Insert the widget's fragment at the captured cursor.
    InsertAt { insertion: String, offset: ByteOffset },
    /// Put the cursor back where it was.
    PlaceAt { offset: ByteOffset },
    /// Leave the cursor where setting the text put it.
    Leave,
}

/// What happens to the buffer when a user command's block completes.
pub enum BufferReset {
    /// The buffer stays: the block list has not moved to a new block.
    Keep,
    /// A fresh, empty buffer (the buffer reports that it became empty).
    Empty,
    /// A fresh buffer holding `text`, with the cursor set as `cursor` says.
    Restore { text: String, cursor: CursorRestore },
}

/// The bookkeeping of a completed user block.
pub struct BlockCompletedPlan {
    /// The handoff still waiting for its block.
    pub remaining_handoff: Option<PendingShellWidgetHandoff>,
    /// The widget's block, which is hidden once it completes.
    pub hide_block: Option<BlockId>,
    pub reset: BufferReset,
}

/// Whether `handoff` waits for the block `block_id`.
pub open spec fn completes(handoff: Option<PendingShellWidgetHandoff>, block_id: BlockId) -> bool {
    handoff matches Some(h) && h.block_id == block_id
}

/// The text a fresh buffer gets back: what a prompt-chip command saved
/// first, else what a completed handoff restores.
pub open spec fn spec_restore(
    handoff: Option<PendingShellWidgetHandoff>,
    completed_block_id: BlockId,
    prompt_chip_restore: Option<String>,
) -> Option<Seq<char>> {
    match prompt_chip_restore {
        Some(text) => Some(text@),
        None => if completes(handoff, completed_block_id) {
            Some(handoff->0.spec_restore_text())
        } else {
            None
        },
    }
}

/// The cursor action of a completed handoff: a spliced fragment goes in at
/// the captured cursor; with no reply the cursor returns there.
pub open spec fn cursor_restore_for(
    cursor: CursorRestore,
    handoff: Option<PendingShellWidgetHandoff>,
    completed_block_id: BlockId,
) -> bool {
    if completes(handoff, completed_block_id) {
        let h = handoff->0;
        match (h.apply_mode, h.selection, h.cursor_offset) {
            (ShellWidgetApplyMode::Splice, Some(insertion), Some(offset)) => cursor matches CursorRestore::InsertAt { insertion: i, offset: o } && i@
                == insertion@ && o == offset,
            (_, None, Some(offset)) => cursor == (CursorRestore::PlaceAt { offset }),
            _ => cursor is Leave,
        }
    } else {
        cursor is Leave
    }
}

/// The bookkeeping `remaining_handoff`, `hide_block` and `reset` of the
/// completed user block `completed_block_id`: the handoff whose block it is
/// completes and its block is hidden, any other handoff keeps waiting; the
/// buffer stays while the block list has not moved past
/// `deferred_latest_block_id`, and is otherwise made anew, empty or holding
/// the restored text with the handoff's cursor.
pub open spec fn completed_plan(
    remaining_handoff: Option<PendingShellWidgetHandoff>,
    hide_block: Option<BlockId>,
    reset: BufferReset,
    completed_block_id: BlockId,
    active_block_id: BlockId,
    deferred_latest_block_id: BlockId,
    pending_handoff: Option<PendingShellWidgetHandoff>,
    prompt_chip_restore: Option<String>,
) -> bool {
    &&& completes(pending_handoff, completed_block_id) ==> remaining_handoff is None && hide_block
        == Some(completed_block_id)
    &&& !completes(pending_handoff, completed_block_id) ==> remaining_handoff == pending_handoff
        && hide_block is None
    &&& deferred_latest_block_id == active_block_id ==> reset is Keep
    &&& deferred_latest_block_id != active_block_id ==> match spec_restore(
        pending_handoff,
        completed_block_id,
        prompt_chip_restore,
    ) {
        None => reset is Empty,
        Some(text) => reset matches BufferReset::Restore { text: t, cursor } && t@ == text
            && cursor_restore_for(cursor, pending_handoff, completed_block_id),
    }
}

/// Plans what completing the user block `completed_block_id` does to the
/// input. The handoff whose block it is completes (its block is hidden);
/// the text saved before a prompt-chip command is used up either way. When
/// the block list has moved past `deferred_latest_block_id` to
/// `active_block_id`, the buffer is made anew: empty, or holding the
/// restored text with the handoff's cursor.
pub fn user_block_completed_plan(
    completed_block_id: BlockId,
    active_block_id: BlockId,
    deferred_latest_block_id: BlockId,
    pending_handoff: Option<PendingShellWidgetHandoff>,
    prompt_chip_restore: Option<String>,
) -> (res: BlockCompletedPlan)
    ensures
        completed_plan(
            res.remaining_handoff,
            res.hide_block,
            res.reset,
            completed_block_id,
            active_block_id,
            deferred_latest_block_id,
            pending_handoff,
            prompt_chip_restore,
        ),
{
    let completed = match &pending_handoff {
        Some(h) => h.block_id == completed_block_id,
        None => false,
    };
    let (remaining_handoff, completed_handoff) = if completed {
        (None, pending_handoff)
    } else {
        (pending_handoff, None)
    };
    let hide_block = match &completed_handoff {
        Some(h) => Some(h.block_id),
        None => None,
    };
    if deferred_latest_block_id == active_block_id {
        return BlockCompletedPlan { remaining_handoff, hide_block, reset: BufferReset::Keep };
    }
    let restore_text: Option<String> = match prompt_chip_restore {
        Some(text) => Some(text),
        None => match &completed_handoff {
            Some(h) => Some(String::from_str(h.restore_text())),
            None => None,
        },
    };
    let reset = match restore_text {
        None => BufferReset::Empty,
        Some(text) => {
            let cursor = match completed_handoff {
                Some(h) => match (h.apply_mode, h.selection, h.cursor_offset) {
                    (ShellWidgetApplyMode::Splice, Some(insertion), Some(offset)) => {
                        CursorRestore::InsertAt { insertion, offset }
                    },
                    (_, None, Some(offset)) => CursorRestore::PlaceAt { offset },
                    _ => CursorRestore::Leave,
                },
                None => CursorRestore::Leave,
            };
            BufferReset::Restore { text, cursor }
        },
    };
    BlockCompletedPlan { remaining_handoff, hide_block, reset }
}

/// The parts of the input that a completed block resets.
pub struct BlockCompletionState<Op, R, Z> {
    /// Remote edits waiting for their block, and the latest block.
    pub deferred_remote_operations: DeferredRemoteOperations<R>,
    /// The buffer operations made since the buffer was last made anew.
    pub latest_buffer_operations: Vec<Op>,
    pub render_state: InputRenderStateModel<Z>,
    pub pending_shell_widget_handoff: Option<PendingShellWidgetHandoff>,
    /// The buffer saved before a prompt-chip command ran.
    pub input_contents_before_prompt_chip_command: Option<String>,
}

/// What the view does for a completed user block.
pub struct BlockCompletedEffects {
    /// The widget's block to hide.
    pub hide_block: Option<BlockId>,
    pub reset: BufferReset,
}

/// Takes in the completion of block `completed_block_id` while the block
/// list's active block is `active_block_id`. Any completed block clears the
/// "edited since the block finished" mark. A user block also settles the
/// pending handoff and uses up the saved prompt-chip text; when the active
/// block has moved past the latest block, that block becomes the latest and
/// the buffer operations so far are dropped with the old buffer.
pub fn handle_block_completed_event<Op, R, Z: Copy>(
    state: &mut BlockCompletionState<Op, R, Z>,
    is_user_block: bool,
    completed_block_id: BlockId,
    active_block_id: BlockId,
) -> (res: Option<BlockCompletedEffects>)
    ensures
        !final(state).render_state.modified(),
        final(state).render_state.size() == old(state).render_state.size(),
        final(state).deferred_remote_operations.pending()
            == old(state).deferred_remote_operations.pending(),
        !is_user_block ==> {
            &&& res is None
            &&& final(state).deferred_remote_operations.latest()
                == old(state).deferred_remote_operations.latest()
            &&& final(state).latest_buffer_operations@ == old(state).latest_buffer_operations@
            &&& final(state).pending_shell_widget_handoff
                == old(state).pending_shell_widget_handoff
            &&& final(state).input_contents_before_prompt_chip_command
                == old(state).input_contents_before_prompt_chip_command
        },
        is_user_block ==> {
            &&& res matches Some(effects) && completed_plan(
                final(state).pending_shell_widget_handoff,
                effects.hide_block,
                effects.reset,
                completed_block_id,
                active_block_id,
                old(state).deferred_remote_operations.latest(),
                old(state).pending_shell_widget_handoff,
                old(state).input_contents_before_prompt_chip_command,
            )
            &&& final(state).input_contents_before_prompt_chip_command is None
            &&& final(state).deferred_remote_operations.latest() == active_block_id
            &&& old(state).deferred_remote_operations.latest() != active_block_id
                ==> final(state).latest_buffer_operations@ == Seq::<Op>::empty()
            &&& old(state).deferred_remote_operations.latest() == active_block_id
                ==> final(state).latest_buffer_operations@
                == old(state).latest_buffer_operations@
        },
{
    let res = if is_user_block {
        let latest_before = state.deferred_remote_operations.latest_block_id();
        let handoff = state.pending_shell_widget_handoff.take();
        let restore = state.input_contents_before_prompt_chip_command.take();
        let plan = user_block_completed_plan(
            completed_block_id,
            active_block_id,
            latest_before,
            handoff,
            restore,
        );
        if latest_before != active_block_id {
            state.deferred_remote_operations.set_latest_block_id(active_block_id);
            state.latest_buffer_operations = Vec::new();
        }
        state.pending_shell_widget_handoff = plan.remaining_handoff;
        Some(BlockCompletedEffects { hide_block: plan.hide_block, reset: plan.reset })
    } else {
        None
    };
    state.render_state.set_editor_modified_since_block_finished(false);
    res
}

/// The command to take off the ignored suggestions once it runs: running a
/// command the user had ignored as a suggestion shows that it is wanted
/// again. An empty command restores nothing.
pub fn ignored_command_to_restore(command: &str) -> (res: Option<String>)
    ensures
        command@.len() == 0 <==> res is None,
        res matches Some(c) ==> c@ == command@,
{
    if crate::text::chars_of(command).len() == 0 {
        None
    } else {
        Some(String::from_str(command))
    }
}

/// A viewer's request to run a command, waiting for the sharer.
pub struct ViewerCommandExecutionRequest {
    /// The buffer when the request was made.
    pub original_buffer: String,
}

/// The text a frozen buffer shows while a viewer's command waits: the
/// buffer and a pending mark.
pub fn loading_state_text(buffer_text: &str) -> (res: String)
    ensures
        res@ == buffer_text@ + seq![' ', '\u{25CC}'],
{
    let mut text = String::from_str(buffer_text);
    crate::text::push_char(&mut text, ' ');
    crate::text::push_char(&mut text, '\u{25CC}');
    proof {
        assert(text@ =~= buffer_text@ + seq![' ', '\u{25CC}']);
    }
    text
}

/// How a viewer's buffer comes back after the sharer failed to run its
/// command: its text, and what its role may do with it.
pub struct ViewerRestore {
    pub buffer: String,
    pub interaction: crate::shared_session::InteractionState,
}

/// Takes back a viewer's pending request after the sharer failed to run
/// it: an active viewer gets its buffer back, editable as its role allows;
/// the request is gone either way.
pub fn viewer_execution_failure(
    pending: &mut Option<ViewerCommandExecutionRequest>,
    status: SharedSessionStatus,
) -> (res: Option<ViewerRestore>)
    ensures
        *final(pending) is None,
        match *old(pending) {
            Some(request) => match status {
                SharedSessionStatus::ActiveViewer { role } => res matches Some(restore)
                    && restore.buffer@ == request.original_buffer@ && restore.interaction == if role is Reader {
                    crate::shared_session::InteractionState::Selectable
                } else {
                    crate::shared_session::InteractionState::Editable
                },
                _ => res is None,
            },
            None => res is None,
        },
{
    let request = match pending.take() {
        Some(request) => request,
        None => return None,
    };
    match status {
        SharedSessionStatus::ActiveViewer { role } => Some(
            ViewerRestore {
                buffer: request.original_buffer,
                interaction: crate::shared_session::interaction_state_for_role(&role),
            },
        ),
        _ => None,
    }
}

} // verus!
