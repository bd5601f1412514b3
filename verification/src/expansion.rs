//! Expanding an alias or an abbreviation that the user typed as a command's
//! first word, on a space or when the command runs.
use vstd::prelude::*;

use crate::text::{byte_range_chars, byte_slice};
use vstd::string::StringSliceAdditionalSpecFns;

verus! {

broadcast use vstd::string::group_string_axioms;

/// Whether the expansion happens because the command is being run.
#[derive(Clone, Copy, Debug, PartialEq, Eq, Structural)]
pub enum Executing {
    Yes,
    No,
}

/// Whether the first word, ending at byte `token_end`, is in place to
/// expand: when running, the cursor must sit right at its end; after a
/// typed space, one byte past it.
pub fn is_potential_expansion(token_end: usize, cursor_pos: usize, executing: Executing) -> (res:
    bool)
    ensures
        res == match executing {
            Executing::Yes => token_end == cursor_pos,
            Executing::No => token_end + 1 == cursor_pos,
        },
{
    match executing {
        Executing::Yes => token_end == cursor_pos,
        Executing::No => cursor_pos > 0 && token_end == cursor_pos - 1,
    }
}

pub open spec fn spec_expansion_value(
    token_end: usize,
    cursor_pos: usize,
    executing: Executing,
    abbreviation_value: Option<Seq<char>>,
    expand_aliases: bool,
    alias_value: Option<Seq<char>>,
    alias_expandable: bool,
) -> Option<Seq<char>> {
    let in_place = match executing {
        Executing::Yes => token_end == cursor_pos,
        Executing::No => token_end + 1 == cursor_pos,
    };
    if !in_place {
        None
    } else if executing == Executing::No && abbreviation_value is Some {
        abbreviation_value
    } else if expand_aliases && alias_value is Some && alias_expandable {
        alias_value
    } else {
        None
    }
}

/// What the first word expands to, by case. Nothing when the word is not in
/// place (right at the cursor when running, one byte before it after a
/// typed space). In place: an abbreviation expands after a typed space; an
/// alias, when no abbreviation takes over, expands whenever alias expansion
/// is on and the alias can be expanded, after a space just as when running;
/// otherwise nothing. And the alias a word gets after a typed space is the
/// one it gets when the command runs.
pub proof fn lemma_expansion_cases(
    token_end: usize,
    cursor_pos: usize,
    executing: Executing,
    abbreviation_value: Option<Seq<char>>,
    expand_aliases: bool,
    alias_value: Option<Seq<char>>,
    alias_expandable: bool,
)
    ensures
        ({
            let in_place = match executing {
                Executing::Yes => cursor_pos == token_end,
                Executing::No => cursor_pos == token_end + 1,
            };
            let res = spec_expansion_value(
                token_end,
                cursor_pos,
                executing,
                abbreviation_value,
                expand_aliases,
                alias_value,
                alias_expandable,
            );
            &&& !in_place ==> res is None
            &&& in_place && executing == Executing::No && abbreviation_value is Some ==> res
                == abbreviation_value
            &&& in_place && (abbreviation_value is None || executing == Executing::Yes)
                && expand_aliases && alias_value is Some && alias_expandable ==> res == alias_value
            &&& (abbreviation_value is None || executing == Executing::Yes) && !(expand_aliases
                && alias_value is Some && alias_expandable) ==> res is None
            &&& res is Some ==> in_place
        }),
        spec_expansion_value(
            token_end,
            (token_end + 1) as usize,
            Executing::No,
            None,
            expand_aliases,
            alias_value,
            alias_expandable,
        ) == spec_expansion_value(
            token_end,
            token_end,
            Executing::Yes,
            abbreviation_value,
            expand_aliases,
            alias_value,
            alias_expandable,
        ) || token_end == usize::MAX,
{
}

pub open spec fn opt_view(o: Option<String>) -> Option<Seq<char>> {
    match o {
        Some(s) => Some(s@),
        None => None,
    }
}

/// What the first word expands to. An abbreviation of the word expands,
/// but not when running (fish would expand it a second time). Otherwise an
/// alias expands when alias expansion is on and the alias can be expanded
/// (`alias_expandable`, which says that its value does not start with the
/// alias itself).
pub fn expansion_value(
    token_end: usize,
    cursor_pos: usize,
    executing: Executing,
    abbreviation_value: Option<String>,
    expand_aliases: bool,
    alias_value: Option<String>,
    alias_expandable: bool,
) -> (res: Option<String>)
    ensures
        opt_view(res) == spec_expansion_value(
            token_end,
            cursor_pos,
            executing,
            opt_view(abbreviation_value),
            expand_aliases,
            opt_view(alias_value),
            alias_expandable,
        ),
{
    if !is_potential_expansion(token_end, cursor_pos, executing) {
        return None;
    }
    if executing == Executing::No && abbreviation_value.is_some() {
        return abbreviation_value;
    }
    if expand_aliases {
        match alias_value {
            Some(value) => if alias_expandable {
                Some(value)
            } else {
                None
            },
            None => None,
        }
    } else {
        None
    }
}

/// The text an expansion on a space puts in place of the word and the
/// space: the expansion and a space.
pub fn expansion_on_space_text(value: &str) -> (res: String)
    ensures
        res@ == value@.push(' '),
{
    let mut text = String::from_str(value);
    crate::text::push_char(&mut text, ' ');
    text
}

/// The command that runs after expanding: the buffer with bytes `start` to
/// `end` replaced by the expansion, when both are character boundaries;
/// `None` otherwise.
pub fn expanded_command_on_execute(buffer: &str, start: usize, end: usize, value: &str) -> (res:
    Option<String>)
    requires
        start <= end,
    ensures
        match res {
            Some(command) => vstd::utf8::is_char_boundary(buffer.spec_bytes(), start as int)
                && vstd::utf8::is_char_boundary(buffer.spec_bytes(), end as int) && command@
                == byte_range_chars(buffer, 0, start as int) + value@ + byte_range_chars(
                buffer,
                end as int,
                buffer.spec_bytes().len() as int,
            ),
            None => !(vstd::utf8::is_char_boundary(buffer.spec_bytes(), start as int)
                && vstd::utf8::is_char_boundary(buffer.spec_bytes(), end as int)),
        },
{
    if !(buffer.is_char_boundary(start) && buffer.is_char_boundary(end)) {
        return None;
    }
    proof {
        vstd::utf8::encode_utf8_valid_utf8(buffer@);
        vstd::utf8::is_char_boundary_start_end_of_seq(buffer.spec_bytes());
    }
    let mut command = byte_slice(buffer, 0, start);
    command.append(value);
    let (_head, tail) = buffer.split_at(end);
    proof {
        vstd::utf8::encode_utf8_decode_utf8(tail@);
        assert(tail.spec_bytes() =~= buffer.spec_bytes().subrange(
            end as int,
            buffer.spec_bytes().len() as int,
        ));
    }
    command.append(tail);
    Some(command)
}

} // verus!
