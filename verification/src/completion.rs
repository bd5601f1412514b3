//! The completion policy of the input: which sources a request draws on,
//! where the replaced span lies, and what text a completion inserts.
use vstd::prelude::*;

use crate::text::{byte_range_chars, byte_slice};
use crate::workflow_ranges::ByteRange;
use crate::text::{chars_of, char_is_whitespace, is_whitespace, push_char, starts_with, string_from_chars};
use vstd::string::StringSliceAdditionalSpecFns;

verus! {

broadcast use vstd::string::group_string_axioms;

/// What opened the completions menu.
#[derive(Clone, Copy, PartialEq, Eq, Debug, Structural)]
pub enum CompletionsTrigger {
    Keybinding,
    AsYouType,
}

/// Which completion sources a request draws on.
#[derive(Debug, Clone, Copy, PartialEq, Eq, Structural)]
pub enum CompletionSources {
    /// No source at all.
    Disabled,
    WarpOnly,
    NativeOnly,
    /// Bundled specs first, asking the shell only if they come back empty.
    WarpThenNative,
}

impl CompletionSources {
    pub open spec fn spec_resolve(
        warp_completions_enabled: bool,
        native_shell_completions_eligible: bool,
    ) -> Self {
        match (warp_completions_enabled, native_shell_completions_eligible) {
            (true, true) => CompletionSources::WarpThenNative,
            (true, false) => CompletionSources::WarpOnly,
            (false, true) => CompletionSources::NativeOnly,
            (false, false) => CompletionSources::Disabled,
        }
    }

    /// The sources for the two toggles, once native completions are known to
    /// be eligible or not.
    pub fn resolve(warp_completions_enabled: bool, native_shell_completions_eligible: bool) -> (res:
        Self)
        ensures
            res == Self::spec_resolve(warp_completions_enabled, native_shell_completions_eligible),
    {
        match (warp_completions_enabled, native_shell_completions_eligible) {
            (true, true) => Self::WarpThenNative,
            (true, false) => Self::WarpOnly,
            (false, true) => Self::NativeOnly,
            (false, false) => Self::Disabled,
        }
    }

    /// Whether the shell's native completions are consulted.
    pub fn uses_native(self) -> (res: bool)
        ensures
            res == (self is NativeOnly || self is WarpThenNative),
    {
        match self {
            CompletionSources::NativeOnly | CompletionSources::WarpThenNative => true,
            CompletionSources::Disabled | CompletionSources::WarpOnly => false,
        }
    }
}

/// The sources a request draws on: with the feature flag off, bundled specs
/// only; otherwise the two toggles, where native completions need an
/// explicit trigger and a single-line buffer.
pub open spec fn spec_resolve_completion_sources(
    feature_flag_enabled: bool,
    buffer_text_is_multiline: bool,
    completions_trigger: CompletionsTrigger,
    warp_completions_enabled: bool,
    native_shell_completions_enabled: bool,
) -> CompletionSources {
    let warp = if feature_flag_enabled {
        warp_completions_enabled
    } else {
        true
    };
    let native = if feature_flag_enabled {
        native_shell_completions_enabled
    } else {
        false
    };
    CompletionSources::spec_resolve(
        warp,
        completions_trigger != CompletionsTrigger::AsYouType && native && !buffer_text_is_multiline,
    )
}

pub fn resolve_completion_sources(
    feature_flag_enabled: bool,
    buffer_text_is_multiline: bool,
    completions_trigger: CompletionsTrigger,
    warp_completions_enabled: bool,
    native_shell_completions_enabled: bool,
) -> (res: CompletionSources)
    ensures
        res == spec_resolve_completion_sources(
            feature_flag_enabled,
            buffer_text_is_multiline,
            completions_trigger,
            warp_completions_enabled,
            native_shell_completions_enabled,
        ),
{
    let (warp_completions_enabled, native_shell_completions_enabled) = if feature_flag_enabled {
        (warp_completions_enabled, native_shell_completions_enabled)
    } else {
        (true, false)
    };
    let native_shell_completions_eligible = completions_trigger != CompletionsTrigger::AsYouType
        && native_shell_completions_enabled && !buffer_text_is_multiline;
    CompletionSources::resolve(warp_completions_enabled, native_shell_completions_eligible)
}

/// The shell is never asked to complete while typing or a multi-line
/// buffer, nor at all with the native-completions feature off, which uses
/// the bundled specs alone.
pub proof fn lemma_native_completions_only_when_eligible(
    feature_flag_enabled: bool,
    buffer_text_is_multiline: bool,
    completions_trigger: CompletionsTrigger,
    warp_completions_enabled: bool,
    native_shell_completions_enabled: bool,
)
    ensures
        ({
            let sources = spec_resolve_completion_sources(
                feature_flag_enabled,
                buffer_text_is_multiline,
                completions_trigger,
                warp_completions_enabled,
                native_shell_completions_enabled,
            );
            &&& (sources is NativeOnly || sources is WarpThenNative) ==> (feature_flag_enabled
                && native_shell_completions_enabled && completions_trigger
                == CompletionsTrigger::Keybinding && !buffer_text_is_multiline)
            &&& !feature_flag_enabled ==> sources == CompletionSources::WarpOnly
        }),
{
}

/// Which sources each request uses. With the feature on, an explicit
/// (keybinding) request on a single-line buffer asks the shell whenever
/// native completions are on (after the bundled specs when those are on
/// too); any other request never asks the shell and uses the bundled specs
/// exactly when they are on. With the feature off, the bundled specs alone.
pub proof fn lemma_completion_sources_by_setting(
    buffer_text_is_multiline: bool,
    completions_trigger: CompletionsTrigger,
    warp_completions_enabled: bool,
    native_shell_completions_enabled: bool,
)
    ensures
        native_shell_completions_enabled && completions_trigger == CompletionsTrigger::Keybinding
            && !buffer_text_is_multiline ==> spec_resolve_completion_sources(
            true,
            buffer_text_is_multiline,
            completions_trigger,
            warp_completions_enabled,
            native_shell_completions_enabled,
        ) == if warp_completions_enabled {
            CompletionSources::WarpThenNative
        } else {
            CompletionSources::NativeOnly
        },
        !(native_shell_completions_enabled && completions_trigger == CompletionsTrigger::Keybinding
            && !buffer_text_is_multiline) ==> spec_resolve_completion_sources(
            true,
            buffer_text_is_multiline,
            completions_trigger,
            warp_completions_enabled,
            native_shell_completions_enabled,
        ) == if warp_completions_enabled {
            CompletionSources::WarpOnly
        } else {
            CompletionSources::Disabled
        },
        spec_resolve_completion_sources(
            false,
            buffer_text_is_multiline,
            completions_trigger,
            warp_completions_enabled,
            native_shell_completions_enabled,
        ) == CompletionSources::WarpOnly,
{
}

/// What the completer falls back to when no spec matches.
#[derive(Debug, Clone, Copy, PartialEq, Eq, Structural)]
pub enum CompletionsFallbackStrategy {
    FilePaths,
    NoFallback,
}

pub open spec fn spec_fallback_strategy(
    sources: CompletionSources,
    completions_trigger: CompletionsTrigger,
) -> CompletionsFallbackStrategy {
    if completions_trigger == CompletionsTrigger::Keybinding && !(sources is NativeOnly
        || sources is WarpThenNative) {
        CompletionsFallbackStrategy::FilePaths
    } else {
        CompletionsFallbackStrategy::NoFallback
    }
}

/// File paths are the fallback only for an explicit request that does not
/// ask the shell.
pub fn completions_fallback_strategy(
    sources: CompletionSources,
    completions_trigger: CompletionsTrigger,
) -> (res: CompletionsFallbackStrategy)
    ensures
        res == spec_fallback_strategy(sources, completions_trigger),
{
    let use_native_shell_completions = sources.uses_native();
    match completions_trigger {
        CompletionsTrigger::Keybinding if !use_native_shell_completions => {
            CompletionsFallbackStrategy::FilePaths
        },
        _ => CompletionsFallbackStrategy::NoFallback,
    }
}

/// How a completions request runs.
#[derive(Debug, Clone, Copy, PartialEq, Eq, Structural)]
pub enum CompletionDispatch {
    /// No source: abort any running request and stop.
    Abort,
    /// Run the bundled specs; ask the shell only if they come back empty.
    SpecsThenShell,
    /// Ask the shell up front and run the specs alongside.
    ShellUpFront,
    /// Run the bundled specs only.
    SpecsOnly,
}

pub open spec fn spec_dispatch(sources: CompletionSources) -> CompletionDispatch {
    match sources {
        CompletionSources::Disabled => CompletionDispatch::Abort,
        CompletionSources::WarpThenNative => CompletionDispatch::SpecsThenShell,
        CompletionSources::NativeOnly => CompletionDispatch::ShellUpFront,
        CompletionSources::WarpOnly => CompletionDispatch::SpecsOnly,
    }
}

pub fn completion_dispatch(sources: CompletionSources) -> (res: CompletionDispatch)
    ensures
        res == spec_dispatch(sources),
{
    match sources {
        CompletionSources::Disabled => CompletionDispatch::Abort,
        CompletionSources::WarpThenNative => CompletionDispatch::SpecsThenShell,
        CompletionSources::NativeOnly => CompletionDispatch::ShellUpFront,
        CompletionSources::WarpOnly => CompletionDispatch::SpecsOnly,
    }
}

/// Whether the bundled-spec results are shown rather than the shell's: they
/// are when they hold at least one suggestion, unless only the shell is
/// asked.
pub open spec fn spec_use_spec_results(
    spec_suggestion_count: Option<usize>,
    sources: CompletionSources,
) -> bool {
    spec_suggestion_count matches Some(n) && n > 0 && !(sources is NativeOnly)
}

pub fn use_spec_results(spec_suggestion_count: Option<usize>, sources: CompletionSources) -> (res:
    bool)
    ensures
        res == spec_use_spec_results(spec_suggestion_count, sources),
{
    match spec_suggestion_count {
        Some(n) => n > 0 && !matches!(sources, CompletionSources::NativeOnly),
        None => false,
    }
}

/// A command the bundled specs do not know reaches the shell: whenever the
/// shell takes part, the specs do not fall back to file paths; with specs
/// first, the shell's reply is used exactly when the specs found nothing.
pub proof fn lemma_unknown_commands_reach_the_shell(
    sources: CompletionSources,
    completions_trigger: CompletionsTrigger,
    spec_suggestion_count: Option<usize>,
)
    ensures
        (sources is NativeOnly || sources is WarpThenNative) ==> spec_fallback_strategy(
            sources,
            completions_trigger,
        ) == CompletionsFallbackStrategy::NoFallback,
        sources is WarpThenNative ==> spec_dispatch(sources) == CompletionDispatch::SpecsThenShell
            && (spec_use_spec_results(spec_suggestion_count, sources) <==> (
        spec_suggestion_count matches Some(n) && n > 0)),
        sources is NativeOnly ==> !spec_use_spec_results(spec_suggestion_count, sources),
{
}

/// A span of byte offsets in the buffer.
#[derive(Clone, Copy, Debug, PartialEq, Eq, Structural)]
pub struct Span {
    pub start: usize,
    pub end: usize,
}

impl Span {
    pub fn new(start: usize, end: usize) -> (res: Self)
        ensures
            res.start == start,
            res.end == end,
    {
        Span { start, end }
    }

    /// The span limited to a text of `len` bytes: both ends at most `len`,
    /// and the start at most the end.
    pub open spec fn spec_clamped_to(self, len: usize) -> Span {
        let end = if self.end < len {
            self.end
        } else {
            len
        };
        let start = if self.start < end {
            self.start
        } else {
            end
        };
        Span { start, end }
    }

    pub fn clamped_to(self, len: usize) -> (res: Span)
        ensures
            res == self.spec_clamped_to(len),
    {
        let end = if self.end < len {
            self.end
        } else {
            len
        };
        let start = if self.start < end {
            self.start
        } else {
            end
        };
        Span { start, end }
    }
}

/// A native shell's replacement span always lands in the text before the
/// cursor, start no later than end; a span that already lies there is kept
/// as the shell reported it.
pub proof fn lemma_native_span_lies_before_cursor(span: Span, cursor: usize)
    ensures
        span.spec_clamped_to(cursor).start <= span.spec_clamped_to(cursor).end <= cursor,
        span.start <= span.end <= cursor ==> span.spec_clamped_to(cursor) == span,
{
}

/// The index of the last whitespace character of `s`, or -1.
pub open spec fn last_whitespace_index(s: Seq<char>) -> int
    decreases s.len(),
{
    if s.len() == 0 {
        -1
    } else if is_whitespace(s.last()) {
        s.len() - 1
    } else {
        last_whitespace_index(s.drop_last())
    }
}

proof fn lemma_last_whitespace_index(s: Seq<char>, e: int)
    requires
        -1 <= e < s.len(),
        forall|k: int| e < k < s.len() ==> !is_whitespace(#[trigger] s[k]),
        e == -1 || is_whitespace(s[e]),
    ensures
        last_whitespace_index(s) == e,
    decreases s.len(),
{
    if s.len() > 0 && e < s.len() - 1 {
        let r = s.drop_last();
        assert forall|k: int| e < k < r.len() implies !is_whitespace(#[trigger] r[k]) by {
            assert(r[k] == s[k]);
        }
        if e >= 0 {
            assert(r[e] == s[e]);
        }
        lemma_last_whitespace_index(r, e);
    }
}

proof fn lemma_encode_prefix_shorter(s: Seq<char>, k: int)
    requires
        0 <= k < s.len(),
    ensures
        vstd::utf8::encode_utf8(s.take(k)).len() < vstd::utf8::encode_utf8(s).len(),
    decreases k,
{
    let first = vstd::utf8::encode_scalar(s[0] as u32);
    assert(first.len() >= 1);
    if k == 0 {
        assert(s.take(0) =~= Seq::<char>::empty());
    } else {
        let r = s.drop_first();
        assert(s.take(k).drop_first() =~= r.take(k - 1));
        assert(s.take(k)[0] == s[0]);
        lemma_encode_prefix_shorter(r, k - 1);
    }
}

/// A character boundary of a string lies within its bytes.
pub proof fn lemma_char_boundary_in_range(s: &str, index: int)
    requires
        vstd::utf8::is_char_boundary(s.spec_bytes(), index),
    ensures
        0 <= index <= s.spec_bytes().len(),
{
    vstd::utf8::encode_utf8_valid_utf8(s@);
}

/// Where the token under the cursor starts when the shell reports no span:
/// just after the last whitespace before the cursor (one byte after that
/// character's first byte), or at the start of the buffer.
pub open spec fn spec_token_start(before_cursor: Seq<char>) -> int {
    let k = last_whitespace_index(before_cursor);
    if k < 0 {
        0
    } else {
        (vstd::utf8::encode_utf8(before_cursor.take(k)).len() as usize) + 1
    }
}

/// The characters of the buffer before byte `cursor`.
pub open spec fn chars_before(buffer_text: &str, cursor: usize) -> Seq<char> {
    vstd::utf8::decode_utf8(buffer_text.spec_bytes().subrange(0, cursor as int))
}

/// The span a native shell completion replaces: the span the shell reports,
/// limited to the text before the cursor, or else the whitespace-delimited
/// token that ends at the cursor.
pub fn native_replacement_span(
    shell_replacement_span: Option<Span>,
    buffer_text: &str,
    cursor_position: usize,
) -> (res: Span)
    requires
        vstd::utf8::is_char_boundary(buffer_text.spec_bytes(), cursor_position as int),
    ensures
        match shell_replacement_span {
            Some(span) => res == span.spec_clamped_to(cursor_position),
            None => res.end == cursor_position && res.start == spec_token_start(
                chars_before(buffer_text, cursor_position),
            ),
        },
{
    match shell_replacement_span {
        Some(span) => span.clamped_to(cursor_position),
        None => {
            let (head, _tail) = buffer_text.split_at(cursor_position);
            proof {
                vstd::utf8::encode_utf8_decode_utf8(head@);
                lemma_char_boundary_in_range(buffer_text, cursor_position as int);
            }
            let chars = chars_of(head);
            let mut e: usize = chars.len();
            while e > 0 && !char_is_whitespace(chars[e - 1])
                invariant
                    e <= chars@.len(),
                    forall|k: int| e <= k < chars@.len() ==> !is_whitespace(#[trigger] chars@[k]),
                decreases e,
            {
                e = e - 1;
            }
            proof {
                lemma_last_whitespace_index(chars@, e - 1);
            }
            if e == 0 {
                return Span { start: 0, end: cursor_position };
            }
            let mut before: Vec<char> = Vec::new();
            let mut i: usize = 0;
            while i < e - 1
                invariant
                    0 < e <= chars@.len(),
                    i <= e - 1,
                    before@ == chars@.take(i as int),
                decreases e - 1 - i,
            {
                before.push(chars[i]);
                i = i + 1;
                proof {
                    assert(before@ =~= chars@.take(i as int));
                }
            }
            let prefix = string_from_chars(before.as_slice());
            let ps = prefix.as_str();
            let pos = ps.len();
            proof {
                lemma_encode_prefix_shorter(chars@, e - 1);
                assert(head.spec_bytes() =~= buffer_text.spec_bytes().subrange(
                    0,
                    cursor_position as int,
                ));
                assert(head.spec_bytes().len() == cursor_position);
                assert(chars@ == head@);
                assert(prefix@ == chars@.take(e - 1));
                assert(ps.spec_bytes() == vstd::utf8::encode_utf8(ps@));
                assert(pos < cursor_position);
            }
            Span { start: pos + 1, end: cursor_position }
        },
    }
}


/// How suggestions are matched against the typed text.
#[derive(Clone, Copy, Debug, PartialEq, Eq, Structural)]
pub enum MatchStrategy {
    CaseSensitive,
    CaseInsensitive,
    Fuzzy,
}

/// Suggestions together with the span of the buffer they replace.
pub struct SuggestionResults<S> {
    pub replacement_span: Span,
    pub suggestions: Vec<S>,
    pub match_strategy: MatchStrategy,
}

/// Builds the results of a shell's native-completions reply: its
/// suggestions, fuzzily matched, replacing `native_replacement_span`.
pub fn native_shell_suggestion_results<S>(
    shell_results: Vec<S>,
    shell_replacement_span: Option<Span>,
    buffer_text: &str,
    cursor_position: usize,
) -> (res: SuggestionResults<S>)
    requires
        vstd::utf8::is_char_boundary(buffer_text.spec_bytes(), cursor_position as int),
    ensures
        res.suggestions@ == shell_results@,
        res.match_strategy == MatchStrategy::Fuzzy,
        match shell_replacement_span {
            Some(span) => res.replacement_span == span.spec_clamped_to(cursor_position),
            None => res.replacement_span.end == cursor_position && res.replacement_span.start
                == spec_token_start(chars_before(buffer_text, cursor_position)),
        },
{
    let replacement_span = native_replacement_span(
        shell_replacement_span,
        buffer_text,
        cursor_position,
    );
    SuggestionResults {
        replacement_span,
        suggestions: shell_results,
        match_strategy: MatchStrategy::Fuzzy,
    }
}

/// The control characters (Unicode general category Cc), which
/// `char::is_control` tests.
pub open spec fn is_control(c: char) -> bool {
    c <= '\u{1F}' || ('\u{7F}' <= c && c <= '\u{9F}')
}

/// `s` without its control characters.
pub open spec fn without_controls(s: Seq<char>) -> Seq<char>
    decreases s.len(),
{
    if s.len() == 0 {
        s
    } else if is_control(s.last()) {
        without_controls(s.drop_last())
    } else {
        without_controls(s.drop_last()).push(s.last())
    }
}

/// The text with its control characters removed; completions must not
/// insert them into the buffer.
pub fn strip_control_characters(text: &str) -> (res: String)
    ensures
        res@ == without_controls(text@),
{
    let mut res = String::new();
    for c in it: text.chars()
        invariant
            it.seq() == text@,
            res@ == without_controls(text@.take(it.index() as int)),
    {
        proof {
            assert(text@.take(it.index() + 1).drop_last() =~= text@.take(it.index() as int));
        }
        if !(c <= '\u{1F}' || ('\u{7F}' <= c && c <= '\u{9F}')) {
            push_char(&mut res, c);
        }
    }
    proof {
        assert(text@.take(text@.len() as int) =~= text@);
    }
    res
}

/// The text a confirmed completion puts in place of the replaced span: the
/// completion without control characters, followed by a space when the
/// replacement ends the buffer, the completion does not end with a path
/// separator or `=`, no command is being executed, and either completions as
/// you type are off or classic completions are on.
pub open spec fn spec_completion_insertion_text(
    completion_result: Seq<char>,
    completions_as_you_type: bool,
    classic_completions: bool,
    cursor_at_buffer_end: bool,
    path_separator: char,
    executing: bool,
) -> Seq<char> {
    let stripped = without_controls(completion_result);
    let ends_with_separator = stripped.len() > 0 && stripped.last() == path_separator;
    let ends_with_equals = stripped.len() > 0 && stripped.last() == '=';
    if (!completions_as_you_type || classic_completions) && cursor_at_buffer_end
        && !ends_with_separator && !ends_with_equals && !executing {
        stripped.push(' ')
    } else {
        stripped
    }
}

pub fn completion_insertion_text(
    completion_result: &str,
    completions_as_you_type: bool,
    classic_completions: bool,
    cursor_at_buffer_end: bool,
    path_separator: char,
    executing: bool,
) -> (res: String)
    ensures
        res@ == spec_completion_insertion_text(
            completion_result@,
            completions_as_you_type,
            classic_completions,
            cursor_at_buffer_end,
            path_separator,
            executing,
        ),
{
    let mut stripped = strip_control_characters(completion_result);
    let chars = chars_of(stripped.as_str());
    let n = chars.len();
    let ends_with_separator = n > 0 && chars[n - 1] == path_separator;
    let ends_with_equals = n > 0 && chars[n - 1] == '=';
    if (!completions_as_you_type || classic_completions) && cursor_at_buffer_end
        && !ends_with_separator && !ends_with_equals && !executing {
        push_char(&mut stripped, ' ');
    }
    stripped
}

/// The inserted text is the completion without its control characters,
/// followed by at most one space. The space comes exactly when the
/// completion ends the buffer, no command is being executed, the
/// completion does not end with the path separator or `=`, and classic
/// completions are on or completions as you type are off; in particular
/// classic completions always get it, whatever the as-you-type setting.
pub proof fn lemma_completion_trailing_space(
    completion_result: Seq<char>,
    completions_as_you_type: bool,
    classic_completions: bool,
    cursor_at_buffer_end: bool,
    path_separator: char,
    executing: bool,
)
    ensures
        ({
            let out = spec_completion_insertion_text(
                completion_result,
                completions_as_you_type,
                classic_completions,
                cursor_at_buffer_end,
                path_separator,
                executing,
            );
            let stripped = without_controls(completion_result);
            let open_end = stripped.len() > 0 && (stripped.last() == path_separator
                || stripped.last() == '=');
            &&& out == stripped || out == stripped.push(' ')
            &&& classic_completions && cursor_at_buffer_end && !executing && !open_end ==> out
                == stripped.push(' ')
            &&& !completions_as_you_type && cursor_at_buffer_end && !executing && !open_end ==> out
                == stripped.push(' ')
            &&& completions_as_you_type && !classic_completions ==> out == stripped
            &&& !cursor_at_buffer_end || executing || open_end ==> out == stripped
        }),
        forall|k: int|
            0 <= k < without_controls(completion_result).len() ==> !is_control(
                #[trigger] without_controls(completion_result)[k],
            ),
{
    lemma_without_controls_clean(completion_result);
}

proof fn lemma_without_controls_clean(s: Seq<char>)
    ensures
        forall|k: int|
            0 <= k < without_controls(s).len() ==> !is_control(#[trigger] without_controls(s)[k]),
    decreases s.len(),
{
    if s.len() > 0 {
        lemma_without_controls_clean(s.drop_last());
        let w = without_controls(s.drop_last());
        assert forall|k: int| 0 <= k < without_controls(s).len() implies !is_control(
            #[trigger] without_controls(s)[k],
        ) by {
            if k < w.len() {
                assert(without_controls(s)[k] == w[k]);
            }
        }
    }
}

/// Whether the text holds a character that is not whitespace.
pub fn has_non_whitespace(text: &str) -> (res: bool)
    ensures
        res == exists|i: int| 0 <= i < text@.len() && !is_whitespace(#[trigger] text@[i]),
{
    let chars = chars_of(text);
    for i in 0..chars.len()
        invariant
            chars@ == text@,
            forall|k: int| 0 <= k < i ==> is_whitespace(#[trigger] chars@[k]),
    {
        if !char_is_whitespace(chars[i]) {
            return true;
        }
    }
    false
}

/// Whether tab completes rather than indents: the buffer holds something
/// other than whitespace, the user is not selecting, and there is a single
/// selection that does not span the whole buffer.
pub fn cursor_positioned_for_completion(
    buffer_text: &str,
    is_selecting: bool,
    num_selections: usize,
    any_selection_spans_entire_buffer: bool,
) -> (res: bool)
    ensures
        res == ((exists|i: int| 0 <= i < buffer_text@.len() && !is_whitespace(
            #[trigger] buffer_text@[i],
        )) && !is_selecting && num_selections == 1 && !any_selection_spans_entire_buffer),
{
    has_non_whitespace(buffer_text) && !is_selecting && num_selections == 1
        && !any_selection_spans_entire_buffer
}

/// The longest common prefix of two character sequences.
pub open spec fn common_prefix2(a: Seq<char>, b: Seq<char>) -> Seq<char>
    decreases a.len(),
{
    if a.len() == 0 || b.len() == 0 || a[0] != b[0] {
        Seq::empty()
    } else {
        seq![a[0]] + common_prefix2(a.drop_first(), b.drop_first())
    }
}

/// The longest common prefix of all the texts, or `None` for no text.
pub open spec fn spec_longest_common_prefix(texts: Seq<Seq<char>>) -> Option<Seq<char>>
    decreases texts.len(),
{
    if texts.len() == 0 {
        None
    } else if texts.len() == 1 {
        Some(texts[0])
    } else {
        match spec_longest_common_prefix(texts.drop_last()) {
            Some(p) => Some(common_prefix2(p, texts.last())),
            None => None,
        }
    }
}

proof fn lemma_common_prefix2_index(a: Seq<char>, b: Seq<char>, i: int)
    requires
        0 <= i <= a.len(),
        i <= b.len(),
        forall|k: int| 0 <= k < i ==> a[k] == b[k],
        i == a.len() || i == b.len() || a[i] != b[i],
    ensures
        common_prefix2(a, b) == a.take(i),
    decreases a.len(),
{
    if i > 0 {
        lemma_common_prefix2_index(a.drop_first(), b.drop_first(), i - 1);
        assert(seq![a[0]] + a.drop_first().take(i - 1) =~= a.take(i));
    } else {
        assert(a.take(0) =~= Seq::<char>::empty());
    }
}

fn common_prefix_chars(a: &Vec<char>, b: &Vec<char>) -> (res: Vec<char>)
    ensures
        res@ == common_prefix2(a@, b@),
{
    let mut i: usize = 0;
    while i < a.len() && i < b.len() && a[i] == b[i]
        invariant
            i <= a@.len(),
            i <= b@.len(),
            forall|k: int| 0 <= k < i ==> a@[k] == b@[k],
        decreases a@.len() - i,
    {
        i = i + 1;
    }
    proof {
        lemma_common_prefix2_index(a@, b@, i as int);
    }
    let mut res: Vec<char> = Vec::new();
    let mut j: usize = 0;
    while j < i
        invariant
            i <= a@.len(),
            j <= i,
            res@ == a@.take(j as int),
        decreases i - j,
    {
        res.push(a[j]);
        j = j + 1;
        proof {
            assert(res@ =~= a@.take(j as int));
        }
    }
    res
}

pub open spec fn string_views(texts: Seq<String>) -> Seq<Seq<char>> {
    texts.map_values(|t: String| t@)
}

/// The longest common prefix of the texts.
pub fn longest_common_prefix(texts: &[String]) -> (res: Option<String>)
    ensures
        match res {
            Some(p) => spec_longest_common_prefix(string_views(texts@)) == Some(p@),
            None => spec_longest_common_prefix(string_views(texts@)) is None,
        },
{
    if texts.len() == 0 {
        return None;
    }
    let mut acc = chars_of(texts[0].as_str());
    proof {
        assert(string_views(texts@).take(1) =~= seq![texts@[0]@]);
    }
    for i in 1..texts.len()
        invariant
            texts@.len() >= 1,
            spec_longest_common_prefix(string_views(texts@).take(i as int)) == Some(acc@),
    {
        let next = chars_of(texts[i].as_str());
        acc = common_prefix_chars(&acc, &next);
        proof {
            assert(string_views(texts@).take(i + 1).drop_last() =~= string_views(texts@).take(
                i as int,
            ));
            assert(string_views(texts@).take(i + 1).last() == texts@[i as int]@);
        }
    }
    proof {
        assert(string_views(texts@).take(texts@.len() as int) =~= string_views(texts@));
    }
    Some(string_from_chars(acc.as_slice()))
}

/// How a suggestion matched the typed text.
#[derive(Clone, Copy, Debug, PartialEq, Eq, Structural)]
pub enum MatchType {
    Prefix { is_case_sensitive: bool },
    Exact { is_case_sensitive: bool },
    Fuzzy,
}

pub open spec fn is_case_sensitive_prefix_or_exact(m: MatchType) -> bool {
    m == MatchType::Prefix { is_case_sensitive: true } || m == MatchType::Exact {
        is_case_sensitive: true,
    }
}

/// The suggestions that matched case-sensitively, by prefix or exactly.
pub open spec fn prefix_matches_upto(items: Seq<(String, MatchType)>, n: int) -> Seq<String>
    decreases n,
{
    if n <= 0 {
        Seq::empty()
    } else if is_case_sensitive_prefix_or_exact(items[n - 1].1) {
        prefix_matches_upto(items, n - 1).push(items[n - 1].0)
    } else {
        prefix_matches_upto(items, n - 1)
    }
}

/// What tab does with the completions menu open.
pub enum TabInMenu {
    /// Put this common prefix in place of the current word; close the menu
    /// afterwards when it was the only candidate.
    InsertCommonPrefix { prefix: String, close_menu: bool },
    /// Move to the next suggestion.
    SelectNext,
}

/// With the completions menu open, tab fills in the longest common prefix of
/// the case-sensitive prefix matches when it extends the current word, and
/// otherwise moves to the next suggestion.
pub fn tab_in_completions_menu(items: &[(String, MatchType)], current_word: &str) -> (res:
    TabInMenu)
    ensures
        ({
            let texts = prefix_matches_upto(items@, items@.len() as int);
            match spec_longest_common_prefix(string_views(texts)) {
                Some(p) => if (vstd::utf8::encode_utf8(p).len() as usize) > (vstd::utf8::encode_utf8(
                    current_word@,
                ).len() as usize) && current_word@.is_prefix_of(p) {
                    res matches TabInMenu::InsertCommonPrefix { prefix, close_menu } && prefix@
                        == p && close_menu == (texts.len() == 1)
                } else {
                    res is SelectNext
                },
                None => res is SelectNext,
            }
        }),
{
    let mut texts: Vec<String> = Vec::new();
    for i in 0..items.len()
        invariant
            texts@ == prefix_matches_upto(items@, i as int),
    {
        let (text, match_type) = &items[i];
        let keep = match match_type {
            MatchType::Prefix { is_case_sensitive } => *is_case_sensitive,
            MatchType::Exact { is_case_sensitive } => *is_case_sensitive,
            MatchType::Fuzzy => false,
        };
        if keep {
            texts.push(text.clone());
        }
    }
    let single = texts.len() == 1;
    match longest_common_prefix(texts.as_slice()) {
        Some(common_prefix) => {
            let cp = common_prefix.as_str();
            if cp.len() > current_word.len() && starts_with(cp, current_word) {
                TabInMenu::InsertCommonPrefix { prefix: common_prefix, close_menu: single }
            } else {
                TabInMenu::SelectNext
            }
        },
        None => TabInMenu::SelectNext,
    }
}

/// What tab does in the input.
pub enum TabAction {
    /// The completions menu is open: see `TabInMenu`.
    InCompletionsMenu(TabInMenu),
    /// An enum suggestions menu is open: move to the next suggestion.
    SelectNextSuggestion,
    /// Open the completions menu.
    OpenCompletions,
    /// Let the editor insert the tab.
    PassToEditor,
}

/// The tab key: in an open completions menu see `tab_in_completions_menu`;
/// in an enum menu, next suggestion; otherwise open completions when tab is
/// bound to them and the cursor allows it, else indent.
pub fn input_tab_action(
    completions_menu: Option<(&[(String, MatchType)], &str)>,
    enum_menu_open: bool,
    is_tab_bound_to_open_completions: bool,
    cursor_positioned_for_completion: bool,
) -> (res: TabAction)
    ensures
        completions_menu is Some ==> res is InCompletionsMenu,
        completions_menu is None && enum_menu_open ==> res is SelectNextSuggestion,
        completions_menu is None && !enum_menu_open ==> (if is_tab_bound_to_open_completions
            && cursor_positioned_for_completion {
            res is OpenCompletions
        } else {
            res is PassToEditor
        }),
        match (completions_menu, res) {
            (Some((items, word)), TabAction::InCompletionsMenu(inner)) => ({
                let texts = prefix_matches_upto(items@, items@.len() as int);
                match spec_longest_common_prefix(string_views(texts)) {
                    Some(p) => if (vstd::utf8::encode_utf8(p).len() as usize) > (vstd::utf8::encode_utf8(
                        word@,
                    ).len() as usize) && word@.is_prefix_of(p) {
                        inner matches TabInMenu::InsertCommonPrefix { prefix, close_menu }
                            && prefix@ == p && close_menu == (texts.len() == 1)
                    } else {
                        inner is SelectNext
                    },
                    None => inner is SelectNext,
                }
            }),
            _ => true,
        },
{
    match completions_menu {
        Some((items, current_word)) => TabAction::InCompletionsMenu(
            tab_in_completions_menu(items, current_word),
        ),
        None => {
            if enum_menu_open {
                TabAction::SelectNextSuggestion
            } else if is_tab_bound_to_open_completions && cursor_positioned_for_completion {
                TabAction::OpenCompletions
            } else {
                TabAction::PassToEditor
            }
        },
    }
}


/// What the tab completions menu does after an edit or a cursor move.
pub enum TabMenuUpdate {
    /// Close the menu.
    Close,
    /// Keep the menu as it is: the user is cycling through it.
    KeepOpen,
    /// Filter the results the menu opened with by the current word, closing the menu if
    /// nothing is left.
    Filter { current_word: String },
}

/// The tab-completions menu after the buffer or the cursor changed: it
/// closes when the cursor moved before the replaced span, or when the text up
/// to the cursor no longer starts with the text completions were computed for
/// (classic completions keep it for edits the completion system made); in
/// classic mode it stays as it is while the selected item is the current
/// word; otherwise it filters by the current word.
pub fn update_tab_completion_menu(
    editor_text: &str,
    cursor_position: usize,
    replacement_start: usize,
    buffer_text_original: &str,
    classic_completions: bool,
    is_user_edit: bool,
    selected_item: Option<&str>,
) -> (res: TabMenuUpdate)
    requires
        vstd::utf8::is_char_boundary(editor_text.spec_bytes(), cursor_position as int),
        replacement_start <= cursor_position && (buffer_text_original@.is_prefix_of(
            chars_before(editor_text, cursor_position),
        ) || (classic_completions && !is_user_edit)) ==> vstd::utf8::is_char_boundary(
            editor_text.spec_bytes(),
            replacement_start as int,
        ),
    ensures
        cursor_position < replacement_start ==> res is Close,
        replacement_start <= cursor_position ==> ({
            let word = crate::text::byte_range_chars(
                editor_text,
                replacement_start as int,
                cursor_position as int,
            );
            if !buffer_text_original@.is_prefix_of(chars_before(editor_text, cursor_position)) && (
            !classic_completions || is_user_edit) {
                res is Close
            } else if classic_completions && (selected_item matches Some(sel) && sel@ == word) {
                res is KeepOpen
            } else {
                res matches TabMenuUpdate::Filter { current_word } && current_word@ == word
            }
        }),
{
    if cursor_position < replacement_start {
        return TabMenuUpdate::Close;
    }
    proof {
        vstd::utf8::encode_utf8_valid_utf8(editor_text@);
        vstd::utf8::is_char_boundary_start_end_of_seq(editor_text.spec_bytes());
    }
    let up_to_cursor = crate::text::byte_slice(editor_text, 0, cursor_position);
    if !starts_with(up_to_cursor.as_str(), buffer_text_original) && (!classic_completions
        || is_user_edit) {
        return TabMenuUpdate::Close;
    }
    let current_word = crate::text::byte_slice(editor_text, replacement_start, cursor_position);
    if classic_completions {
        match selected_item {
            Some(sel) => {
                let a = chars_of(sel);
                let b = chars_of(current_word.as_str());
                let mut same = a.len() == b.len();
                if same {
                    for i in 0..a.len()
                        invariant
                            a@ == sel@,
                            b@ == current_word@,
                            a@.len() == b@.len(),
                            same == forall|k: int| 0 <= k < i ==> a@[k] == b@[k],
                    {
                        if a[i] != b[i] {
                            same = false;
                        }
                    }
                    proof {
                        if same {
                            assert(a@ =~= b@);
                        }
                    }
                }
                if same {
                    return TabMenuUpdate::KeepOpen;
                }
            },
            None => {},
        }
    }
    TabMenuUpdate::Filter { current_word }
}

fn is_one_of(c: char, set: &[char]) -> (res: bool)
    ensures
        res == set@.contains(c),
{
    for i in 0..set.len()
        invariant
            forall|k: int| 0 <= k < i ==> set@[k] != c,
    {
        if set[i] == c {
            return true;
        }
    }
    false
}

fn chars_equal(a: &str, b: &str) -> (res: bool)
    ensures
        res == (a@ == b@),
{
    let x = chars_of(a);
    let y = chars_of(b);
    if x.len() != y.len() {
        return false;
    }
    for i in 0..x.len()
        invariant
            x@ == a@,
            y@ == b@,
            x@.len() == y@.len(),
            forall|k: int| 0 <= k < i ==> x@[k] == y@[k],
    {
        if x[i] != y[i] {
            proof {
                if a@ == b@ {
                    assert(x@[i as int] == y@[i as int]);
                }
            }
            return false;
        }
    }
    proof {
        assert(x@ =~= y@);
    }
    true
}

/// Whether Enter accepts the selected completion rather than running the
/// command.
pub open spec fn spec_should_enter_accept_completion_suggestion(
    replacement_start: Option<usize>,
    classic_completions: bool,
    any_item_selected: bool,
    completions_while_typing: bool,
    selected_item_text: Option<Seq<char>>,
    buffer_text: &str,
    path_separators: Seq<char>,
) -> bool {
    match replacement_start {
        None => false,
        Some(start) => if classic_completions {
            any_item_selected
        } else if !completions_while_typing {
            selected_item_text is Some
        } else {
            match selected_item_text {
                None => true,
                Some(sel) => if !vstd::utf8::is_char_boundary(buffer_text.spec_bytes(), start as int) {
                    true
                } else {
                    let replacement = crate::text::byte_range_chars(
                        buffer_text,
                        start as int,
                        buffer_text.spec_bytes().len() as int,
                    );
                    if replacement == sel {
                        false
                    } else if sel.len() > 0 && path_separators.contains(sel.last()) {
                        replacement != sel.drop_last()
                    } else {
                        true
                    }
                },
            }
        },
    }
}

/// Enter accepts the selected completion: in classic mode whenever an item
/// is selected; without completions as you type whenever one is selected;
/// otherwise unless the buffer already ends with the selected item (or with
/// it less a trailing path separator).
pub fn should_enter_accept_completion_suggestion(
    replacement_start: Option<usize>,
    classic_completions: bool,
    any_item_selected: bool,
    completions_while_typing: bool,
    selected_item_text: Option<&str>,
    buffer_text: &str,
    path_separators: &[char],
) -> (res: bool)
    ensures
        res == spec_should_enter_accept_completion_suggestion(
            replacement_start,
            classic_completions,
            any_item_selected,
            completions_while_typing,
            match selected_item_text {
                Some(s) => Some(s@),
                None => None,
            },
            buffer_text,
            path_separators@,
        ),
{
    let start = match replacement_start {
        None => return false,
        Some(start) => start,
    };
    if classic_completions {
        return any_item_selected;
    }
    if !completions_while_typing {
        return selected_item_text.is_some();
    }
    let selected_item = match selected_item_text {
        None => return true,
        Some(s) => s,
    };
    if !buffer_text.is_char_boundary(start) {
        return true;
    }
    let (_head, tail) = buffer_text.split_at(start);
    proof {
        vstd::utf8::encode_utf8_decode_utf8(tail@);
        crate::text::lemma_boundary_in_range(buffer_text, start as int);
        assert(tail.spec_bytes() =~= buffer_text.spec_bytes().subrange(
            start as int,
            buffer_text.spec_bytes().len() as int,
        ));
    }
    let replacement = String::from_str(tail);
    if chars_equal(replacement.as_str(), selected_item) {
        return false;
    }
    let sel = chars_of(selected_item);
    let n = sel.len();
    if n > 0 && is_one_of(sel[n - 1], path_separators) {
        let mut without: Vec<char> = Vec::new();
        for i in 0..n - 1
            invariant
                n == sel@.len(),
                n > 0,
                without@ == sel@.take(i as int),
        {
            without.push(sel[i]);
            proof {
                assert(without@ =~= sel@.take(i + 1));
            }
        }
        proof {
            assert(without@ =~= sel@.drop_last());
        }
        let no_slash = string_from_chars(without.as_slice());
        return !chars_equal(replacement.as_str(), no_slash.as_str());
    }
    true
}


/// The index of the last character of `s` that is in `set`, or -1.
pub open spec fn last_index_in(s: Seq<char>, set: Seq<char>) -> int
    decreases s.len(),
{
    if s.len() == 0 {
        -1
    } else if set.contains(s.last()) {
        s.len() - 1
    } else {
        last_index_in(s.drop_last(), set)
    }
}

proof fn lemma_last_index_in(s: Seq<char>, set: Seq<char>, e: int)
    requires
        -1 <= e < s.len(),
        forall|k: int| e < k < s.len() ==> !set.contains(#[trigger] s[k]),
        e == -1 || set.contains(s[e]),
    ensures
        last_index_in(s, set) == e,
    decreases s.len(),
{
    if s.len() > 0 && e < s.len() - 1 {
        let r = s.drop_last();
        assert forall|k: int| e < k < r.len() implies !set.contains(#[trigger] r[k]) by {
            assert(r[k] == s[k]);
        }
        if e >= 0 {
            assert(r[e] == s[e]);
        }
        lemma_last_index_in(r, set, e);
    }
}

/// Where the classic completions menu is docked, as a byte offset into the
/// text completions were computed for: nothing outside classic mode (the
/// menu follows the cursor); for file completions, just after the last path
/// separator before the end of the replaced span (its start when there is
/// none or the end is not a boundary); otherwise the start of the span.
pub fn completions_menu_anchor_offset(
    classic_completions: bool,
    replacement_span: Span,
    all_results_are_file_completions: bool,
    buffer_text_original: &str,
    path_separators: &[char],
) -> (res: Option<usize>)
    ensures
        !classic_completions ==> res is None,
        classic_completions && !(all_results_are_file_completions && vstd::utf8::is_char_boundary(
            buffer_text_original.spec_bytes(),
            replacement_span.end as int,
        )) ==> res == Some(replacement_span.start),
        classic_completions && all_results_are_file_completions && vstd::utf8::is_char_boundary(
            buffer_text_original.spec_bytes(),
            replacement_span.end as int,
        ) ==> ({
            let before = chars_before(buffer_text_original, replacement_span.end);
            let k = last_index_in(before, path_separators@);
            if k < 0 {
                res == Some(replacement_span.start)
            } else {
                res == Some(((vstd::utf8::encode_utf8(before.take(k)).len() as usize) + 1) as usize)
            }
        }),
{
    if !classic_completions {
        return None;
    }
    let end = replacement_span.end;
    if !all_results_are_file_completions || !buffer_text_original.is_char_boundary(end) {
        return Some(replacement_span.start);
    }
    let (head, _tail) = buffer_text_original.split_at(end);
    proof {
        vstd::utf8::encode_utf8_decode_utf8(head@);
        crate::text::lemma_boundary_in_range(buffer_text_original, end as int);
        assert(head.spec_bytes() =~= buffer_text_original.spec_bytes().subrange(0, end as int));
    }
    let chars = chars_of(head);
    let mut e: usize = chars.len();
    while e > 0 && !is_one_of(chars[e - 1], path_separators)
        invariant
            e <= chars@.len(),
            forall|k: int| e <= k < chars@.len() ==> !path_separators@.contains(#[trigger] chars@[k]),
        decreases e,
    {
        e = e - 1;
    }
    proof {
        lemma_last_index_in(chars@, path_separators@, e - 1);
    }
    if e == 0 {
        return Some(replacement_span.start);
    }
    let mut before: Vec<char> = Vec::new();
    let mut i: usize = 0;
    while i < e - 1
        invariant
            0 < e <= chars@.len(),
            i <= e - 1,
            before@ == chars@.take(i as int),
        decreases e - 1 - i,
    {
        before.push(chars[i]);
        i = i + 1;
        proof {
            assert(before@ =~= chars@.take(i as int));
        }
    }
    let prefix = string_from_chars(before.as_slice());
    let ps = prefix.as_str();
    let pos = ps.len();
    proof {
        lemma_encode_prefix_shorter(chars@, e - 1);
        assert(chars@ == head@);
        assert(ps.spec_bytes() == vstd::utf8::encode_utf8(ps@));
        assert(pos < end);
    }
    Some(pos + 1)
}

fn same_text(a: &str, b: &str) -> (res: bool)
    ensures
        res == (a@ == b@),
{
    let res = starts_with(a, b) && starts_with(b, a);
    proof {
        if res {
            assert(a@ =~= b@);
        }
    }
    res
}

fn same_ranges(a: &[ByteRange], b: &[ByteRange]) -> (res: bool)
    ensures
        res == (a@ == b@),
{
    if a.len() != b.len() {
        return false;
    }
    for i in 0..a.len()
        invariant
            a@.len() == b@.len(),
            forall|k: int| 0 <= k < i ==> a@[k] == b@[k],
    {
        if a[i] != b[i] {
            return false;
        }
    }
    proof {
        assert(a@ =~= b@);
    }
    true
}

/// The text a native completion request taken at `snapshot_text` (with its
/// cursor at `cursor_position` in `buffer_text`) sends to the shell: the
/// buffer up to the cursor. `None` when the editor has moved on since the
/// snapshot, its text or its selections now being different: the request
/// is stale and nothing is sent.
pub fn native_completion_request(
    buffer_text: &str,
    cursor_position: usize,
    snapshot_text: &str,
    snapshot_selections: &[ByteRange],
    buffer_text_now: &str,
    selections_now: &[ByteRange],
) -> (res: Option<String>)
    requires
        vstd::utf8::is_char_boundary(buffer_text.spec_bytes(), cursor_position as int),
    ensures
        (buffer_text_now@ != snapshot_text@ || selections_now@ != snapshot_selections@) <==> res is None,
        res matches Some(t) ==> t@ == byte_range_chars(buffer_text, 0, cursor_position as int),
{
    if !same_text(buffer_text_now, snapshot_text) || !same_ranges(selections_now, snapshot_selections) {
        return None;
    }
    proof {
        vstd::utf8::encode_utf8_valid_utf8(buffer_text@);
        vstd::utf8::is_char_boundary_start_end_of_seq(buffer_text.spec_bytes());
    }
    Some(byte_slice(buffer_text, 0, cursor_position))
}

} // verus!
