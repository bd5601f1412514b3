//! Decorating the command in the input: which tokens get a syntax colour,
//! which get a red underline, and when the buffer is parsed again.
use vstd::prelude::*;

use crate::workflow_ranges::ByteRange;

verus! {

broadcast use vstd::string::group_string_axioms;

/// Which background jobs an edit of the buffer starts.
#[derive(Clone, Copy, Debug, PartialEq, Eq, Structural)]
pub struct InputBackgroundJobOptions {
    command_decoration: bool,
}

impl InputBackgroundJobOptions {
    pub closed spec fn decorates(self) -> bool {
        self.command_decoration
    }

    /// No background job.
    pub fn default() -> (res: Self)
        ensures
            !res.decorates(),
    {
        InputBackgroundJobOptions { command_decoration: false }
    }

    /// The same options, with command decoration on.
    pub fn with_command_decoration(self) -> (res: Self)
        ensures
            res.decorates(),
    {
        let mut options = self;
        options.command_decoration = true;
        options
    }

    pub fn command_decoration(&self) -> (res: bool)
        ensures
            res == self.decorates(),
    {
        self.command_decoration
    }
}

/// Characters that make the parser's verdict on a command unreliable
/// (expansions, quoting, redirection, grouping), so that a command holding
/// one is never underlined as unknown.
pub open spec fn invalid_underline_symbols() -> Seq<char> {
    seq![
        '~', '`', '#', '$', '&', '*', '(', ')', '\\', '|', '[', ']', '{', '}', ';', '\'', '"', '<',
        '>', '?', '!', ',',
    ]
}

fn is_invalid_underline_symbol(c: char) -> (res: bool)
    ensures
        res == invalid_underline_symbols().contains(c),
{
    let symbols = [
        '~', '`', '#', '$', '&', '*', '(', ')', '\\', '|', '[', ']', '{', '}', ';', '\'', '"', '<',
        '>', '?', '!', ',',
    ];
    proof {
        assert(symbols@ =~= invalid_underline_symbols());
    }
    for i in 0..symbols.len()
        invariant
            symbols@ == invalid_underline_symbols(),
            forall|k: int| 0 <= k < i ==> symbols@[k] != c,
    {
        if symbols[i] == c {
            return true;
        }
    }
    false
}

/// Whether a command may be underlined as unknown: it holds none of the
/// characters the parser cannot yet handle. Missing an underline is
/// preferred to underlining a valid command.
pub fn valid_command_for_error_underline(command: &str) -> (res: bool)
    ensures
        res == forall|i: int|
            0 <= i < command@.len() ==> !invalid_underline_symbols().contains(
                #[trigger] command@[i],
            ),
{
    let chars = crate::text::chars_of(command);
    for i in 0..chars.len()
        invariant
            chars@ == command@,
            forall|k: int| 0 <= k < i ==> !invalid_underline_symbols().contains(#[trigger] chars@[k]),
    {
        if is_invalid_underline_symbol(chars[i]) {
            return false;
        }
    }
    true
}

/// Identifies the kind of suggestion a token was recognised as, which picks
/// its syntax colour.
#[derive(Clone, Copy, Debug, PartialEq, Eq, Structural)]
pub struct SuggestionTypeId(pub u32);

/// One token of the parsed buffer.
pub struct ParsedToken {
    pub text: String,
    /// Its bytes in the buffer.
    pub span: ByteRange,
    /// Its place in its command (0 for the command name).
    pub token_index: usize,
    /// The kind of suggestion it was recognised as, if it was.
    pub suggestion_type: Option<SuggestionTypeId>,
}

/// Whether a token is underlined as an unknown command: a command name that
/// nothing recognised and that the parser could judge.
pub open spec fn underlined(token: ParsedToken) -> bool {
    &&& token.suggestion_type is None
    &&& token.token_index == 0
    &&& forall|i: int|
        0 <= i < token.text@.len() ==> !invalid_underline_symbols().contains(
            #[trigger] token.text@[i],
        )
}

/// The spans of the tokens among the first `n` that are underlined, in
/// order.
pub open spec fn underline_spans(tokens: Seq<ParsedToken>, n: int) -> Seq<ByteRange>
    decreases n,
{
    if n <= 0 {
        Seq::empty()
    } else if underlined(tokens[n - 1]) {
        underline_spans(tokens, n - 1).push(tokens[n - 1].span)
    } else {
        underline_spans(tokens, n - 1)
    }
}

/// The spans to underline as unknown commands, in token order.
pub fn error_underline_ranges(tokens: &[ParsedToken]) -> (res: Vec<ByteRange>)
    ensures
        res@ == underline_spans(tokens@, tokens@.len() as int),
{
    let mut res: Vec<ByteRange> = Vec::new();
    for i in 0..tokens.len()
        invariant
            res@ == underline_spans(tokens@, i as int),
    {
        let token = &tokens[i];
        if token.suggestion_type.is_none() && token.token_index == 0
            && valid_command_for_error_underline(token.text.as_str()) {
            res.push(token.span);
        }
    }
    res
}

/// The spans that get one syntax colour.
pub struct HighlightGroup {
    pub suggestion_type: SuggestionTypeId,
    pub spans: Vec<ByteRange>,
}

/// The spans of the first `n` tokens recognised as `t`, in order.
pub open spec fn spans_of_type(tokens: Seq<ParsedToken>, t: SuggestionTypeId, n: int) -> Seq<
    ByteRange,
>
    decreases n,
{
    if n <= 0 {
        Seq::empty()
    } else if tokens[n - 1].suggestion_type == Some(t) {
        spans_of_type(tokens, t, n - 1).push(tokens[n - 1].span)
    } else {
        spans_of_type(tokens, t, n - 1)
    }
}

/// Whether `groups` holds, once each, every kind among the first `n` tokens,
/// with the spans of its tokens in order, and no other kind.
pub open spec fn groups_cover(groups: Seq<HighlightGroup>, tokens: Seq<ParsedToken>, n: int) -> bool {
    &&& forall|g: int|
        0 <= g < groups.len() ==> {
            &&& (#[trigger] groups[g]).spans@ == spans_of_type(
                tokens,
                groups[g].suggestion_type,
                n,
            )
            &&& exists|k: int|
                0 <= k < n && tokens[k].suggestion_type == Some(groups[g].suggestion_type)
        }
    &&& forall|g: int, h: int|
        0 <= g < h < groups.len() ==> (#[trigger] groups[g]).suggestion_type
            != (#[trigger] groups[h]).suggestion_type
    &&& forall|k: int|
        0 <= k < n && (#[trigger] tokens[k]).suggestion_type is Some ==> exists|g: int|
            0 <= g < groups.len() && groups[g].suggestion_type == tokens[k].suggestion_type->0
}

proof fn lemma_spans_of_other_type(tokens: Seq<ParsedToken>, t: SuggestionTypeId, n: int)
    requires
        0 <= n < tokens.len(),
        tokens[n].suggestion_type != Some(t),
    ensures
        spans_of_type(tokens, t, n + 1) == spans_of_type(tokens, t, n),
{
}

proof fn lemma_spans_of_absent_type(tokens: Seq<ParsedToken>, t: SuggestionTypeId, n: int)
    requires
        0 <= n <= tokens.len(),
        forall|k: int| 0 <= k < n ==> tokens[k].suggestion_type != Some(t),
    ensures
        spans_of_type(tokens, t, n) == Seq::<ByteRange>::empty(),
    decreases n,
{
    if n > 0 {
        lemma_spans_of_absent_type(tokens, t, n - 1);
    }
}

proof fn lemma_cover_extend_group(
    before: Seq<HighlightGroup>,
    after: Seq<HighlightGroup>,
    tokens: Seq<ParsedToken>,
    i: int,
    found: int,
)
    requires
        groups_cover(before, tokens, i),
        0 <= i < tokens.len(),
        0 <= found < before.len(),
        tokens[i].suggestion_type == Some(before[found].suggestion_type),
        after.len() == before.len(),
        forall|g: int| 0 <= g < before.len() && g != found ==> after[g] == before[g],
        after[found].suggestion_type == before[found].suggestion_type,
        after[found].spans@ == before[found].spans@.push(tokens[i].span),
    ensures
        groups_cover(after, tokens, i + 1),
{
    assert forall|g: int| 0 <= g < after.len() implies (#[trigger] after[g]).spans@
        == spans_of_type(tokens, after[g].suggestion_type, i + 1) by {
        if g != found {
            lemma_spans_of_other_type(tokens, after[g].suggestion_type, i);
        }
    }
    assert forall|g: int| 0 <= g < after.len() implies exists|k: int|
        0 <= k < i + 1 && tokens[k].suggestion_type == Some(
            (#[trigger] after[g]).suggestion_type,
        ) by {
        assert(after[g].suggestion_type == before[g].suggestion_type);
    }
    assert forall|g: int, h: int| 0 <= g < h < after.len() implies (
    #[trigger] after[g]).suggestion_type != (#[trigger] after[h]).suggestion_type by {
        assert(after[g].suggestion_type == before[g].suggestion_type);
        assert(after[h].suggestion_type == before[h].suggestion_type);
    }
    assert forall|k: int|
        0 <= k < i + 1 && (#[trigger] tokens[k]).suggestion_type is Some implies exists|g: int|
        0 <= g < after.len() && after[g].suggestion_type == tokens[k].suggestion_type->0 by {
        if k < i {
            let g = choose|g: int|
                0 <= g < before.len() && before[g].suggestion_type == tokens[k].suggestion_type->0;
            assert(after[g].suggestion_type == before[g].suggestion_type);
        } else {
            assert(after[found].suggestion_type == tokens[k].suggestion_type->0);
        }
    }
}

proof fn lemma_cover_new_group(
    before: Seq<HighlightGroup>,
    after: Seq<HighlightGroup>,
    tokens: Seq<ParsedToken>,
    i: int,
)
    requires
        groups_cover(before, tokens, i),
        0 <= i < tokens.len(),
        tokens[i].suggestion_type is Some,
        forall|g: int|
            0 <= g < before.len() ==> (#[trigger] before[g]).suggestion_type
                != tokens[i].suggestion_type->0,
        after.len() == before.len() + 1,
        forall|g: int| 0 <= g < before.len() ==> after[g] == before[g],
        after[before.len() as int].suggestion_type == tokens[i].suggestion_type->0,
        after[before.len() as int].spans@ == seq![tokens[i].span],
    ensures
        groups_cover(after, tokens, i + 1),
{
    let t = tokens[i].suggestion_type->0;
    assert forall|k: int| 0 <= k < i implies tokens[k].suggestion_type != Some(t) by {
        if tokens[k].suggestion_type == Some(t) {
            let g = choose|g: int|
                0 <= g < before.len() && before[g].suggestion_type == tokens[k].suggestion_type->0;
            assert(before[g].suggestion_type != t);
        }
    }
    lemma_spans_of_absent_type(tokens, t, i);
    assert forall|g: int| 0 <= g < after.len() implies (#[trigger] after[g]).spans@
        == spans_of_type(tokens, after[g].suggestion_type, i + 1) by {
        if g < before.len() {
            lemma_spans_of_other_type(tokens, after[g].suggestion_type, i);
        } else {
            assert(spans_of_type(tokens, t, i + 1) =~= seq![tokens[i].span]);
        }
    }
    assert forall|g: int| 0 <= g < after.len() implies exists|k: int|
        0 <= k < i + 1 && tokens[k].suggestion_type == Some(
            (#[trigger] after[g]).suggestion_type,
        ) by {
        if g < before.len() {
            assert(after[g] == before[g]);
        } else {
            assert(tokens[i].suggestion_type == Some(after[g].suggestion_type));
        }
    }
    assert forall|k: int|
        0 <= k < i + 1 && (#[trigger] tokens[k]).suggestion_type is Some implies exists|g: int|
        0 <= g < after.len() && after[g].suggestion_type == tokens[k].suggestion_type->0 by {
        if k < i {
            let g = choose|g: int|
                0 <= g < before.len() && before[g].suggestion_type == tokens[k].suggestion_type->0;
            assert(after[g] == before[g]);
        } else {
            assert(after[before.len() as int].suggestion_type == t);
        }
    }
}

proof fn lemma_cover_skip_token(groups: Seq<HighlightGroup>, tokens: Seq<ParsedToken>, i: int)
    requires
        groups_cover(groups, tokens, i),
        0 <= i < tokens.len(),
        tokens[i].suggestion_type is None,
    ensures
        groups_cover(groups, tokens, i + 1),
{
    assert forall|g: int| 0 <= g < groups.len() implies (#[trigger] groups[g]).spans@
        == spans_of_type(tokens, groups[g].suggestion_type, i + 1) by {
        lemma_spans_of_other_type(tokens, groups[g].suggestion_type, i);
    }
}

/// The tokens grouped by the kind of suggestion they were recognised as:
/// one group per kind, each with its spans in token order. Unrecognised
/// tokens get no colour.
pub fn syntax_highlight_groups(tokens: &[ParsedToken]) -> (res: Vec<HighlightGroup>)
    ensures
        groups_cover(res@, tokens@, tokens@.len() as int),
{
    let mut groups: Vec<HighlightGroup> = Vec::new();
    for i in 0..tokens.len()
        invariant
            groups_cover(groups@, tokens@, i as int),
    {
        match tokens[i].suggestion_type {
            Some(t) => {
                let span = tokens[i].span;
                let mut found: usize = 0;
                while found < groups.len() && groups[found].suggestion_type != t
                    invariant
                        found <= groups@.len(),
                        forall|h: int|
                            0 <= h < found ==> (#[trigger] groups@[h]).suggestion_type != t,
                    decreases groups@.len() - found,
                {
                    found = found + 1;
                }
                let ghost before = groups@;
                if found < groups.len() {
                    let mut group = groups.remove(found);
                    group.spans.push(span);
                    groups.insert(found, group);
                    proof {
                        lemma_cover_extend_group(before, groups@, tokens@, i as int, found as int);
                    }
                } else {
                    let mut spans: Vec<ByteRange> = Vec::new();
                    spans.push(span);
                    groups.push(HighlightGroup { suggestion_type: t, spans });
                    proof {
                        assert(spans@ =~= seq![span]);
                        lemma_cover_new_group(before, groups@, tokens@, i as int);
                    }
                }
            },
            None => {
                proof {
                    lemma_cover_skip_token(groups@, tokens@, i as int);
                }
            },
        }
    }
    groups
}

/// What an edit's decoration job does.
#[derive(Clone, Copy, Debug, PartialEq, Eq, Structural)]
pub enum DecorationStep {
    /// Nothing: decoration is off, or there is no session to parse with.
    Skip,
    /// The buffer was parsed as it is: decorate from that parse.
    ApplyCached,
    /// Parse the buffer (abandoning a parse under way) and then decorate.
    Parse,
}

/// What a decoration job does for the buffer, given whether a session can
/// parse it and whether the last parse was of this very text.
pub fn decoration_step(
    options: InputBackgroundJobOptions,
    has_session_context: bool,
    last_parse_matches_buffer: bool,
) -> (res: DecorationStep)
    ensures
        res == if !options.decorates() || !has_session_context {
            DecorationStep::Skip
        } else if last_parse_matches_buffer {
            DecorationStep::ApplyCached
        } else {
            DecorationStep::Parse
        },
{
    if !options.command_decoration() || !has_session_context {
        DecorationStep::Skip
    } else if last_parse_matches_buffer {
        DecorationStep::ApplyCached
    } else {
        DecorationStep::Parse
    }
}

} // verus!
