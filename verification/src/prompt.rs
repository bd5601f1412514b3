//! What the input shows around the buffer: the prompt's text, the subshell
//! flag, and the workflow argument under the cursor.
use vstd::prelude::*;

use crate::execution::SessionId;
use crate::text::{char_is_whitespace, is_whitespace, trim_start_index};
use crate::workflow_ranges::ByteRange;

verus! {

broadcast use vstd::string::group_string_axioms;

pub open spec fn text_or_empty(o: Option<String>) -> Seq<char> {
    match o {
        Some(s) => s@,
        None => Seq::empty(),
    }
}

/// The prompt as plain text: with the prompt on the buffer's line, the top
/// line (if any) and the bottom line joined by a newline; otherwise the top
/// line alone. The right prompt is passed through.
pub fn prompt_and_rprompt_text(
    prompt_on_same_line: bool,
    lprompt_top: Option<String>,
    lprompt_bottom: Option<String>,
    rprompt: Option<String>,
) -> (res: (String, Option<String>))
    ensures
        res.1 == rprompt,
        res.0@ == if prompt_on_same_line {
            match lprompt_top {
                Some(top) => top@ + seq!['\n'] + text_or_empty(lprompt_bottom),
                None => text_or_empty(lprompt_bottom),
            }
        } else {
            text_or_empty(lprompt_top)
        },
{
    if prompt_on_same_line {
        match lprompt_top {
            Some(top) => {
                let mut text = top;
                text.append("\n");
                if let Some(bottom) = lprompt_bottom {
                    text.append(bottom.as_str());
                }
                proof {
                    reveal_strlit("\n");
                }
                (text, rprompt)
            },
            None => match lprompt_bottom {
                Some(bottom) => (bottom, rprompt),
                None => (String::new(), rprompt),
            },
        }
    } else {
        match lprompt_top {
            Some(top) => (top, rprompt),
            None => (String::new(), rprompt),
        }
    }
}

/// What started a subshell.
pub enum SubshellSource {
    /// An environment variable collection, by name.
    EnvVarCollection(String),
    /// A command, by its executable.
    Command(String),
}

/// How the input shows that it runs in a subshell.
pub enum SubshellRenderState {
    /// The flag naming what started the subshell, extended into the input.
    Flag(SubshellSource),
    /// Only the flag's pole: the flag stands on an earlier block.
    Flagpole,
}

/// What the session knows of the subshell it runs in.
pub struct SubshellInfo {
    pub env_var_collection_name: Option<String>,
    pub spawning_command: String,
}

/// The index just past the word that starts at `i`.
pub open spec fn word_end(s: Seq<char>, i: int) -> int
    decreases s.len() - i,
{
    if i >= s.len() || is_whitespace(s[i]) {
        i
    } else {
        word_end(s, i + 1)
    }
}

/// The first whitespace-separated word of `s`.
pub open spec fn first_word(s: Seq<char>) -> Option<Seq<char>> {
    let i = trim_start_index(s);
    if i >= s.len() {
        None
    } else {
        Some(s.subrange(i, word_end(s, i)))
    }
}

proof fn lemma_trim_start_index(s: Seq<char>, i: int)
    requires
        0 <= i <= s.len(),
        forall|k: int| 0 <= k < i ==> is_whitespace(#[trigger] s[k]),
        i == s.len() || !is_whitespace(s[i]),
    ensures
        trim_start_index(s) == i,
    decreases s.len(),
{
    if s.len() > 0 && i > 0 {
        let r = s.drop_first();
        assert forall|k: int| 0 <= k < i - 1 implies is_whitespace(#[trigger] r[k]) by {
            assert(r[k] == s[k + 1]);
        }
        if i < s.len() {
            assert(r[i - 1] == s[i]);
        }
        lemma_trim_start_index(r, i - 1);
    }
}

proof fn lemma_word_end(s: Seq<char>, i: int, j: int)
    requires
        0 <= i <= j <= s.len(),
        forall|k: int| i <= k < j ==> !is_whitespace(#[trigger] s[k]),
        j == s.len() || is_whitespace(s[j]),
    ensures
        word_end(s, i) == j,
    decreases j - i,
{
    if i < j {
        lemma_word_end(s, i + 1, j);
    }
}

/// The first whitespace-separated word of `text` (`split_whitespace().next()`).
pub fn first_word_of(text: &str) -> (res: Option<String>)
    ensures
        match res {
            Some(w) => first_word(text@) == Some(w@),
            None => first_word(text@) is None,
        },
{
    let chars = crate::text::chars_of(text);
    let mut i: usize = 0;
    while i < chars.len() && char_is_whitespace(chars[i])
        invariant
            i <= chars@.len(),
            chars@ == text@,
            forall|k: int| 0 <= k < i ==> is_whitespace(#[trigger] chars@[k]),
        decreases chars@.len() - i,
    {
        i = i + 1;
    }
    proof {
        lemma_trim_start_index(chars@, i as int);
    }
    if i == chars.len() {
        return None;
    }
    let mut word: Vec<char> = Vec::new();
    let mut j: usize = i;
    while j < chars.len() && !char_is_whitespace(chars[j])
        invariant
            i <= j <= chars@.len(),
            chars@ == text@,
            word@ == chars@.subrange(i as int, j as int),
            forall|k: int| i <= k < j ==> !is_whitespace(#[trigger] chars@[k]),
        decreases chars@.len() - j,
    {
        word.push(chars[j]);
        j = j + 1;
        proof {
            assert(word@ =~= chars@.subrange(i as int, j as int));
        }
    }
    proof {
        lemma_word_end(chars@, i as int, j as int);
    }
    Some(crate::text::string_from_chars(word.as_slice()))
}

/// How the subshell flag shows on the input. Nothing shows with compact
/// spacing, without an active session, or when the session is in no
/// subshell (`subshell_info` is `None`). When the block before the input
/// (`previous_block_session`: `None` without one, else that block's
/// session) belongs to the same session, only the pole shows; otherwise the
/// flag names the environment variable collection or the spawning command's
/// executable, if it can.
pub fn subshell_flag_render_state(
    spacing_is_compact: bool,
    active_session: Option<SessionId>,
    subshell_info: Option<&SubshellInfo>,
    previous_block_session: Option<Option<SessionId>>,
) -> (res: Option<SubshellRenderState>)
    ensures
        (spacing_is_compact || active_session is None || subshell_info is None) ==> res is None,
        !(spacing_is_compact || active_session is None || subshell_info is None) ==> {
            let info = *subshell_info->0;
            if previous_block_session == Some(active_session) {
                res matches Some(SubshellRenderState::Flagpole)
            } else {
                match info.env_var_collection_name {
                    Some(name) => res matches Some(
                        SubshellRenderState::Flag(SubshellSource::EnvVarCollection(n)),
                    ) && n@ == name@,
                    None => match first_word(info.spawning_command@) {
                        Some(w) => res matches Some(
                            SubshellRenderState::Flag(SubshellSource::Command(c)),
                        ) && c@ == w,
                        None => res is None,
                    },
                }
            }
        },
{
    if spacing_is_compact {
        return None;
    }
    let session_id = match active_session {
        Some(id) => id,
        None => return None,
    };
    let info = match subshell_info {
        Some(info) => info,
        None => return None,
    };
    let should_render = match &info.env_var_collection_name {
        Some(name) => Some(
            SubshellRenderState::Flag(SubshellSource::EnvVarCollection(name.clone())),
        ),
        None => match first_word_of(info.spawning_command.as_str()) {
            Some(exec) => Some(SubshellRenderState::Flag(SubshellSource::Command(exec))),
            None => None,
        },
    };
    match previous_block_session {
        Some(Some(previous)) => if previous == session_id {
            Some(SubshellRenderState::Flagpole)
        } else {
            should_render
        },
        _ => should_render,
    }
}

/// The highlights (indices of highlighted ranges) that show one workflow
/// argument.
pub struct ArgumentHighlights {
    pub argument: usize,
    pub highlights: Vec<usize>,
}

/// Each argument has one entry.
pub open spec fn distinct_arguments(args: Seq<ArgumentHighlights>) -> bool {
    forall|a: int, b: int|
        0 <= a < b < args.len() ==> (#[trigger] args[a]).argument != (#[trigger] args[b]).argument
}

/// The number of highlights of the first `n` arguments.
pub open spec fn highlight_count(args: Seq<ArgumentHighlights>, n: int) -> int
    decreases n,
{
    if n <= 0 {
        0
    } else {
        highlight_count(args, n - 1) + args[n - 1].highlights@.len()
    }
}

proof fn lemma_highlight_count_monotonic(args: Seq<ArgumentHighlights>, m: int, n: int)
    requires
        0 <= m <= n <= args.len(),
    ensures
        highlight_count(args, m) <= highlight_count(args, n),
    decreases n - m,
{
    if m < n {
        lemma_highlight_count_monotonic(args, m, n - 1);
    }
}

/// Whether an argument of the loaded workflow was deleted from the buffer:
/// the buffer no longer has one highlighted run per highlight.
pub fn workflow_arg_was_deleted(text_style_run_count: usize, args: &[ArgumentHighlights]) -> (res:
    bool)
    ensures
        res == (text_style_run_count != highlight_count(args@, args@.len() as int)),
{
    let mut total: usize = 0;
    for i in 0..args.len()
        invariant
            total == highlight_count(args@, i as int),
            total <= text_style_run_count,
    {
        let n = args[i].highlights.len();
        if n > text_style_run_count - total {
            proof {
                lemma_highlight_count_monotonic(args@, i + 1, args@.len() as int);
            }
            return true;
        }
        total = total + n;
    }
    total != text_style_run_count
}

/// Whether `cursor` lies in `range` (start included, end excluded).
pub open spec fn in_range(range: ByteRange, cursor: usize) -> bool {
    range.start <= cursor < range.end
}

fn contains_index(v: &Vec<usize>, x: usize) -> (res: bool)
    ensures
        res == v@.contains(x),
{
    for k in 0..v.len()
        invariant
            forall|j: int| 0 <= j < k ==> v@[j] != x,
    {
        if v[k] == x {
            return true;
        }
    }
    false
}

/// The workflow argument under the cursor: the argument one of whose
/// highlights is the first highlighted range holding the cursor.
pub fn current_argument(
    cursor: usize,
    highlighted_ranges: &[ByteRange],
    args: &[ArgumentHighlights],
) -> (res: Option<usize>)
    requires
        distinct_arguments(args@),
    ensures
        ({
            let first_hit = exists|h: int|
                0 <= h < highlighted_ranges@.len() && in_range(
                    #[trigger] highlighted_ranges@[h],
                    cursor,
                );
            match res {
                Some(argument) => exists|h: int, a: int|
                    0 <= h < highlighted_ranges@.len() && in_range(highlighted_ranges@[h], cursor)
                        && (forall|e: int|
                        0 <= e < h ==> !in_range(#[trigger] highlighted_ranges@[e], cursor)) && 0
                        <= a < args@.len() && args@[a].argument == argument
                        && args@[a].highlights@.contains(h as usize),
                None => !first_hit || exists|h: int|
                    0 <= h < highlighted_ranges@.len() && in_range(highlighted_ranges@[h], cursor)
                        && (forall|e: int|
                        0 <= e < h ==> !in_range(#[trigger] highlighted_ranges@[e], cursor))
                        && forall|a: int|
                        0 <= a < args@.len() ==> !(#[trigger] args@[a]).highlights@.contains(
                            h as usize,
                        ),
            }
        }),
{
    let mut h: usize = 0;
    while h < highlighted_ranges.len() && !(highlighted_ranges[h].start <= cursor && cursor
        < highlighted_ranges[h].end)
        invariant
            h <= highlighted_ranges@.len(),
            forall|e: int| 0 <= e < h ==> !in_range(#[trigger] highlighted_ranges@[e], cursor),
        decreases highlighted_ranges@.len() - h,
    {
        h = h + 1;
    }
    if h == highlighted_ranges.len() {
        return None;
    }
    for a in 0..args.len()
        invariant
            h < highlighted_ranges@.len(),
            in_range(highlighted_ranges@[h as int], cursor),
            forall|e: int| 0 <= e < h ==> !in_range(#[trigger] highlighted_ranges@[e], cursor),
            forall|b: int| 0 <= b < a ==> !(#[trigger] args@[b]).highlights@.contains(h),
    {
        if contains_index(&args[a].highlights, h) {
            return Some(args[a].argument);
        }
    }
    None
}

/// The ranges picked out by the first `n` highlight indices, skipping
/// indices with no range.
pub open spec fn picked_ranges(ranges: Seq<ByteRange>, indices: Seq<usize>, n: int) -> Seq<ByteRange>
    decreases n,
{
    if n <= 0 {
        Seq::empty()
    } else if indices[n - 1] < ranges.len() {
        picked_ranges(ranges, indices, n - 1).push(ranges[indices[n - 1] as int])
    } else {
        picked_ranges(ranges, indices, n - 1)
    }
}

fn pick_ranges(ranges: &[ByteRange], indices: &Vec<usize>) -> (res: Vec<ByteRange>)
    ensures
        res@ == picked_ranges(ranges@, indices@, indices@.len() as int),
{
    let mut res: Vec<ByteRange> = Vec::new();
    for k in 0..indices.len()
        invariant
            res@ == picked_ranges(ranges@, indices@, k as int),
    {
        let index = indices[k];
        if index < ranges.len() {
            res.push(ranges[index]);
        }
    }
    res
}

/// What selecting the current workflow argument does.
pub enum ArgumentSelection {
    /// An argument was deleted from the buffer: cycling through the
    /// arguments pauses.
    PauseCycling,
    /// Cycling goes on and the instances of the selected argument are
    /// selected, when the argument is known.
    Select { ranges: Option<Vec<ByteRange>> },
}

/// Selects the instances of the argument `selected` among the highlighted
/// ranges, unless an argument was deleted.
pub fn select_workflow_argument(
    highlighted_ranges: &[ByteRange],
    args: &[ArgumentHighlights],
    selected: usize,
) -> (res: ArgumentSelection)
    requires
        distinct_arguments(args@),
    ensures
        highlighted_ranges@.len() != highlight_count(args@, args@.len() as int) ==> res is PauseCycling,
        highlighted_ranges@.len() == highlight_count(args@, args@.len() as int) ==> match res {
            ArgumentSelection::Select { ranges: Some(rs) } => exists|a: int|
                0 <= a < args@.len() && (#[trigger] args@[a]).argument == selected && rs@
                    == picked_ranges(
                    highlighted_ranges@,
                    args@[a].highlights@,
                    args@[a].highlights@.len() as int,
                ),
            ArgumentSelection::Select { ranges: None } => forall|a: int|
                0 <= a < args@.len() ==> (#[trigger] args@[a]).argument != selected,
            ArgumentSelection::PauseCycling => false,
        },
{
    if workflow_arg_was_deleted(highlighted_ranges.len(), args) {
        return ArgumentSelection::PauseCycling;
    }
    for a in 0..args.len()
        invariant
            highlighted_ranges@.len() == highlight_count(args@, args@.len() as int),
            forall|b: int| 0 <= b < a ==> (#[trigger] args@[b]).argument != selected,
    {
        if args[a].argument == selected {
            let ranges = pick_ranges(highlighted_ranges, &args[a].highlights);
            return ArgumentSelection::Select { ranges: Some(ranges) };
        }
    }
    ArgumentSelection::Select { ranges: None }
}

/// What a screen reader says when a workflow argument is selected.
pub fn selected_argument_a11y_text(argument_name: Option<&str>) -> (res: Option<String>)
    ensures
        match argument_name {
            Some(name) => res matches Some(text) && text@ == "Selected Workflow argument "@
                + name@,
            None => res is None,
        },
{
    match argument_name {
        Some(name) => {
            let mut text = String::from_str("Selected Workflow argument ");
            text.append(name);
            Some(text)
        },
        None => None,
    }
}

} // verus!
