//! What a shared-session viewer does with each ordered terminal event.
use vstd::prelude::*;

use crate::event_loop::ReleasedEvent;

verus! {

#[verifier::external_type_specification]
#[verifier::external_body]
pub struct ExDecompressError(lz4_flex::block::DecompressError);

/// The bytes that `lz4_flex::block::decompress_size_prepended` gives back for
/// `input`, or `None` where it reports an error.
pub uninterp spec fn lz4_decompressed_size_prepended(input: Seq<u8>) -> Option<Seq<u8>>;

/// The longest compressed pty payload the decoder is handed. Each length in
/// an LZ4 block is summed in a `u32` one byte at a time, 255 per byte; a
/// length byte run long enough to pass `u32::MAX` (about 16.8 million bytes)
/// overflows that sum and panics in a debug build, so longer inputs are left
/// out.
pub const MAX_PTY_BYTES_LEN: usize = 16_777_216;

/// Calls `lz4_flex::block::decompress_size_prepended`. The contract claims
/// that the result depends on the input bytes alone, and that an input shorter
/// than the four-byte size prefix is an error; what the decompressed bytes are
/// is left to the name `lz4_decompressed_size_prepended`. The function
/// allocates the size the prefix declares (up to 4 GiB) before decoding;
/// nothing here says what happens where that allocation fails.
#[verifier::external_body]
fn decompress_size_prepended(input: &[u8]) -> (res: Result<
    Vec<u8>,
    lz4_flex::block::DecompressError,
>)
    requires
        input@.len() <= MAX_PTY_BYTES_LEN,
    ensures
        match res {
            Ok(v) => lz4_decompressed_size_prepended(input@) == Some(v@),
            Err(_) => lz4_decompressed_size_prepended(input@) is None,
        },
        input@.len() < 4 ==> res is Err,
{
    lz4_flex::block::decompress_size_prepended(input)
}

/// Decompresses the pty bytes a sharer sent, or `None` where they are not a
/// valid size-prepended LZ4 block.
pub fn decode_pty_bytes(bytes: &[u8]) -> (res: Option<Vec<u8>>)
    requires
        bytes@.len() <= MAX_PTY_BYTES_LEN,
    ensures
        match res {
            Some(v) => lz4_decompressed_size_prepended(bytes@) == Some(v@),
            None => lz4_decompressed_size_prepended(bytes@) is None,
        },
        bytes@.len() < 4 ==> res is None,
{
    match decompress_size_prepended(bytes) {
        Ok(v) => Some(v),
        Err(_) => None,
    }
}

/// The ordered terminal events of a shared session.
pub enum OrderedTerminalEventType {
    PtyBytesRead { bytes: Vec<u8> },
    CommandExecutionStarted { participant_id: String },
    CommandExecutionFinished,
    Resize { rows: u16, columns: u16 },
    AgentResponseEvent,
    AgentConversationReplayStarted,
    AgentConversationReplayEnded,
    CloudModeSetupPhaseEnded,
}

/// What the viewer does for one released event.
pub enum ViewerEventAction {
    /// Feed these decompressed bytes to the terminal parser.
    ParseBytes { bytes: Vec<u8> },
    /// The pty bytes could not be decompressed.
    CorruptPtyBytes,
    /// A participant started a command: start it in the model and clear the
    /// input when the model accepts it.
    StartCommand { participant_id: String },
    /// Resize the view to the sharer's window.
    Resize { rows: u16, columns: u16 },
    /// Nothing to do.
    Ignore,
}

/// The action for a pty-bytes event, given what decompressing its bytes gave:
/// the bytes to parse, or a corrupt stream.
pub fn pty_bytes_action(decoded: Option<Vec<u8>>) -> (res: ViewerEventAction)
    ensures
        match decoded {
            Some(bytes) => res == (ViewerEventAction::ParseBytes { bytes }),
            None => res is CorruptPtyBytes,
        },
{
    match decoded {
        Some(bytes) => ViewerEventAction::ParseBytes { bytes },
        None => ViewerEventAction::CorruptPtyBytes,
    }
}

/// `action` is what the viewer does for `event`.
pub open spec fn action_for(event: OrderedTerminalEventType, action: ViewerEventAction) -> bool {
    let res = action;
    match event {
            OrderedTerminalEventType::PtyBytesRead { bytes } => match res {
                ViewerEventAction::ParseBytes { bytes: out } => lz4_decompressed_size_prepended(
                    bytes@,
                ) == Some(out@),
                ViewerEventAction::CorruptPtyBytes => lz4_decompressed_size_prepended(
                    bytes@,
                ) is None,
                _ => false,
            },
            OrderedTerminalEventType::CommandExecutionStarted { participant_id } => res
                == ViewerEventAction::StartCommand { participant_id },
            OrderedTerminalEventType::Resize { rows, columns } => res == ViewerEventAction::Resize {
                rows,
                columns,
            },
            _ => res is Ignore,
        }
}

/// Whether `event` can be handed to the decoder: a pty payload is no longer
/// than `MAX_PTY_BYTES_LEN`.
pub open spec fn decodable(event: OrderedTerminalEventType) -> bool {
    event matches OrderedTerminalEventType::PtyBytesRead { bytes } ==> bytes@.len()
        <= MAX_PTY_BYTES_LEN
}

/// The action for one released event.
pub fn viewer_event_action(event: OrderedTerminalEventType) -> (res: ViewerEventAction)
    requires
        decodable(event),
    ensures
        action_for(event, res),
{
    match event {
        OrderedTerminalEventType::PtyBytesRead { bytes } => pty_bytes_action(
            decode_pty_bytes(bytes.as_slice()),
        ),
        OrderedTerminalEventType::CommandExecutionStarted { participant_id } => {
            ViewerEventAction::StartCommand { participant_id }
        },
        OrderedTerminalEventType::Resize { rows, columns } => ViewerEventAction::Resize {
            rows,
            columns,
        },
        OrderedTerminalEventType::CommandExecutionFinished
        | OrderedTerminalEventType::AgentResponseEvent
        | OrderedTerminalEventType::AgentConversationReplayStarted
        | OrderedTerminalEventType::AgentConversationReplayEnded
        | OrderedTerminalEventType::CloudModeSetupPhaseEnded => ViewerEventAction::Ignore,
    }
}

/// One step of the viewer's loop over the events it releases.
pub enum ViewerLoopStep {
    /// Start a remote update: local changes are not broadcast until it ends.
    StartRemoteUpdate,
    /// Carry out `action` for event `event_no`; `caught_up` marks the event
    /// the viewer had to catch up to when it joined.
    Apply { event_no: usize, action: ViewerEventAction, caught_up: bool },
    /// Wake the terminal so that it redraws.
    Wakeup,
    /// End the remote update.
    EndRemoteUpdate,
}

/// The step at position `k` of the loop's steps: each released event takes
/// four, starting a remote update, applying the event, waking the terminal
/// and ending the update.
pub open spec fn step_in_place(k: int, step: ViewerLoopStep) -> bool {
    if k % 4 == 0 {
        step is StartRemoteUpdate
    } else if k % 4 == 1 {
        step is Apply
    } else if k % 4 == 2 {
        step is Wakeup
    } else {
        step is EndRemoteUpdate
    }
}

/// Whether a remote update is under way after `steps`, run from a guard that
/// applies none: starting one sets the guard, ending one clears it.
pub open spec fn applying_after(steps: Seq<ViewerLoopStep>) -> bool
    decreases steps.len(),
{
    if steps.len() == 0 {
        false
    } else {
        match steps.last() {
            ViewerLoopStep::StartRemoteUpdate => true,
            ViewerLoopStep::EndRemoteUpdate => false,
            _ => applying_after(steps.drop_last()),
        }
    }
}

/// How many times `steps` wake the terminal.
pub open spec fn wakeups(steps: Seq<ViewerLoopStep>) -> nat
    decreases steps.len(),
{
    if steps.len() == 0 {
        0
    } else {
        wakeups(steps.drop_last()) + if steps.last() is Wakeup {
            1nat
        } else {
            0nat
        }
    }
}

/// The steps for the events released in order: for each, in a remote update
/// of its own, its action and a wakeup.
pub fn viewer_loop_steps(released: Vec<ReleasedEvent<OrderedTerminalEventType>>) -> (steps: Vec<
    ViewerLoopStep,
>)
    requires
        forall|i: int| 0 <= i < released@.len() ==> decodable((#[trigger] released@[i]).event),
    ensures
        steps@.len() == 4 * released@.len(),
        forall|k: int| 0 <= k < steps@.len() ==> step_in_place(k, #[trigger] steps@[k]),
        forall|i: int|
            0 <= i < released@.len() ==> (steps@[4 * i + 1] matches ViewerLoopStep::Apply {
                event_no,
                action,
                caught_up,
            } && event_no == (#[trigger] released@[i]).event_no && caught_up
                == released@[i].caught_up && action_for(released@[i].event, action)),
{
    let ghost events = released@;
    let mut steps: Vec<ViewerLoopStep> = Vec::new();
    for r in it: released.into_iter()
        invariant
            it.seq() == events,
            forall|j: int| 0 <= j < events.len() ==> decodable((#[trigger] events[j]).event),
            steps@.len() == 4 * it.index(),
            forall|k: int| 0 <= k < steps@.len() ==> step_in_place(k, #[trigger] steps@[k]),
            forall|j: int|
                0 <= j < it.index() ==> (steps@[4 * j + 1] matches ViewerLoopStep::Apply {
                    event_no,
                    action,
                    caught_up,
                } && event_no == (#[trigger] events[j]).event_no && caught_up == events[j].caught_up
                    && action_for(events[j].event, action)),
    {
        let ghost i = it.index();
        proof {
            assert(r == events[i]);
        }
        let event_no = r.event_no;
        let caught_up = r.caught_up;
        let action = viewer_event_action(r.event);
        let ghost before = steps@;
        steps.push(ViewerLoopStep::StartRemoteUpdate);
        steps.push(ViewerLoopStep::Apply { event_no, action, caught_up });
        steps.push(ViewerLoopStep::Wakeup);
        steps.push(ViewerLoopStep::EndRemoteUpdate);
        proof {
            assert forall|k: int| 0 <= k < steps@.len() implies step_in_place(
                k,
                #[trigger] steps@[k],
            ) by {
                if k < before.len() {
                    assert(steps@[k] == before[k]);
                }
            }
            assert forall|j: int| 0 <= j < i + 1 implies (steps@[4 * j + 1] matches ViewerLoopStep::Apply {
                event_no,
                action,
                caught_up,
            } && event_no == (#[trigger] events[j]).event_no && caught_up == events[j].caught_up
                && action_for(events[j].event, action)) by {
                if j < i {
                    assert(steps@[4 * j + 1] == before[4 * j + 1]);
                }
            }
        }
    }
    steps
}

proof fn lemma_steps_prefix(steps: Seq<ViewerLoopStep>, j: int)
    requires
        0 <= j <= steps.len(),
        forall|k: int| 0 <= k < steps.len() ==> step_in_place(k, #[trigger] steps[k]),
    ensures
        applying_after(steps.take(j)) == (j % 4 != 0),
        wakeups(steps.take(j)) == (j + 1) / 4,
    decreases j,
{
    if j > 0 {
        lemma_steps_prefix(steps, j - 1);
        assert(steps.take(j).drop_last() =~= steps.take(j - 1));
        assert(steps.take(j).last() == steps[j - 1]);
        assert(step_in_place(j - 1, steps[j - 1]));
    }
}

/// Every event the viewer releases is applied inside a remote update, so
/// nothing it does is broadcast back; a remote update is only started when
/// none is under way; the terminal is woken once per event; and once the
/// steps are done no remote update is under way, so local changes are
/// broadcast again.
pub proof fn lemma_events_applied_inside_remote_updates(steps: Seq<ViewerLoopStep>)
    requires
        steps.len() % 4 == 0,
        forall|k: int| 0 <= k < steps.len() ==> step_in_place(k, #[trigger] steps[k]),
    ensures
        forall|k: int|
            0 <= k < steps.len() && #[trigger] steps[k] is Apply ==> applying_after(steps.take(k)),
        forall|k: int|
            0 <= k < steps.len() && #[trigger] steps[k] is StartRemoteUpdate ==> !applying_after(
                steps.take(k),
            ),
        !applying_after(steps),
        wakeups(steps) == steps.len() / 4,
{
    assert forall|k: int| 0 <= k < steps.len() && #[trigger] steps[k] is Apply implies applying_after(
        steps.take(k),
    ) by {
        lemma_steps_prefix(steps, k);
        assert(step_in_place(k, steps[k]));
    }
    assert forall|k: int|
        0 <= k < steps.len() && #[trigger] steps[k] is StartRemoteUpdate implies !applying_after(
        steps.take(k),
    ) by {
        lemma_steps_prefix(steps, k);
        assert(step_in_place(k, steps[k]));
    }
    lemma_steps_prefix(steps, steps.len() as int);
    assert(steps.take(steps.len() as int) =~= steps);
}

} // verus!
