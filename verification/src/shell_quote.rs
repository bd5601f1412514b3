//! Quoting of a single argument for the shell of the active session, and the
//! shell commands that prompt chips and the repos menu run.
//!
//! Every argument is wrapped in single quotes. What the shell would read back
//! is modelled by `shell_word`, a reader of one shell word; the central law of
//! this module is that the shell reads back exactly the argument it was given.
use vstd::prelude::*;

use crate::text::push_char;

verus! {

broadcast use vstd::string::group_string_axioms;

/// The shells a session can run.
#[derive(Clone, Copy, Debug, PartialEq, Eq, Structural)]
pub enum ShellType {
    Zsh,
    Bash,
    Fish,
    PowerShell,
}

/// The characters PowerShell accepts as a single quotation mark.
pub open spec fn is_powershell_single_quote(c: char) -> bool {
    c == '\'' || c == '\u{2018}' || c == '\u{2019}' || c == '\u{201A}' || c == '\u{201B}'
}

fn powershell_single_quote(c: char) -> (res: bool)
    ensures
        res == is_powershell_single_quote(c),
{
    c == '\'' || c == '\u{2018}' || c == '\u{2019}' || c == '\u{201A}' || c == '\u{201B}'
}

/// How one character of the argument is written between the single quotes.
pub open spec fn escaped_char(c: char, shell: ShellType) -> Seq<char> {
    match shell {
        ShellType::Zsh | ShellType::Bash => {
            if c == '\'' {
                seq!['\'', '"', '\'', '"', '\'']
            } else {
                seq![c]
            }
        },
        ShellType::Fish => {
            if c == '\'' || c == '\\' {
                seq!['\\', c]
            } else {
                seq![c]
            }
        },
        ShellType::PowerShell => {
            if is_powershell_single_quote(c) {
                seq![c, c]
            } else {
                seq![c]
            }
        },
    }
}

/// The text between the opening and the closing single quote.
pub open spec fn quoted_body(arg: Seq<char>, shell: ShellType) -> Seq<char>
    decreases arg.len(),
{
    if arg.len() == 0 {
        Seq::empty()
    } else {
        quoted_body(arg.drop_last(), shell) + escaped_char(arg.last(), shell)
    }
}

/// The quoted form of `arg` for `shell`.
pub open spec fn spec_shell_quote_arg(arg: Seq<char>, shell: ShellType) -> Seq<char> {
    seq!['\''] + quoted_body(arg, shell) + seq!['\'']
}

/// Where the reader of a shell word stands.
pub enum QuoteState {
    Unquoted,
    Single,
    Double,
}

pub open spec fn prepend(c: char, rest: Option<Seq<char>>) -> Option<Seq<char>> {
    match rest {
        Some(v) => Some(seq![c] + v),
        None => None,
    }
}

pub open spec fn prepend_all(prefix: Seq<char>, rest: Option<Seq<char>>) -> Option<Seq<char>> {
    match rest {
        Some(v) => Some(prefix + v),
        None => None,
    }
}

/// Characters that end a word, or start an expansion, outside of quotes in a
/// POSIX shell.
pub open spec fn is_posix_special(c: char) -> bool {
    c == ' ' || c == '\t' || c == '\n' || c == '|' || c == '&' || c == ';' || c == '<' || c
        == '>' || c == '(' || c == ')' || c == '$' || c == '`' || c == '"' || c == '\''
        || c == '*' || c == '?' || c == '[' || c == ']' || c == '#' || c == '~' || c == '='
        || c == '%' || c == '{' || c == '}' || c == '!' || c == '\\'
}

/// Characters that end a word, or start an expansion, outside of quotes in
/// fish or PowerShell.
pub open spec fn is_other_special(c: char) -> bool {
    is_posix_special(c) || c == ',' || c == '@' || is_powershell_single_quote(c)
}

/// The value a POSIX shell (bash, zsh) gives the word `s`, or `None` where
/// `s` is not one plain word (it is unterminated, splits, or expands).
pub open spec fn posix_word(s: Seq<char>, st: QuoteState) -> Option<Seq<char>>
    decreases s.len(),
{
    if s.len() == 0 {
        match st {
            QuoteState::Unquoted => Some(Seq::empty()),
            _ => None,
        }
    } else {
        let c = s[0];
        let r = s.drop_first();
        match st {
            QuoteState::Single => {
                if c == '\'' {
                    posix_word(r, QuoteState::Unquoted)
                } else {
                    prepend(c, posix_word(r, QuoteState::Single))
                }
            },
            QuoteState::Double => {
                if c == '"' {
                    posix_word(r, QuoteState::Unquoted)
                } else if c == '\\' || c == '$' || c == '`' || c == '!' {
                    None
                } else {
                    prepend(c, posix_word(r, QuoteState::Double))
                }
            },
            QuoteState::Unquoted => {
                if c == '\'' {
                    posix_word(r, QuoteState::Single)
                } else if c == '"' {
                    posix_word(r, QuoteState::Double)
                } else if c == '\\' {
                    if r.len() == 0 {
                        None
                    } else if r[0] == '\n' {
                        posix_word(r.drop_first(), QuoteState::Unquoted)
                    } else {
                        prepend(r[0], posix_word(r.drop_first(), QuoteState::Unquoted))
                    }
                } else if is_posix_special(c) {
                    None
                } else {
                    prepend(c, posix_word(r, QuoteState::Unquoted))
                }
            },
        }
    }
}

/// The value fish gives the word `s` (single quotes only), or `None`.
pub open spec fn fish_word(s: Seq<char>, st: QuoteState) -> Option<Seq<char>>
    decreases s.len(),
{
    if s.len() == 0 {
        match st {
            QuoteState::Unquoted => Some(Seq::empty()),
            _ => None,
        }
    } else {
        let c = s[0];
        let r = s.drop_first();
        match st {
            QuoteState::Single => {
                if c == '\\' && r.len() > 0 && (r[0] == '\'' || r[0] == '\\') {
                    prepend(r[0], fish_word(r.drop_first(), QuoteState::Single))
                } else if c == '\'' {
                    fish_word(r, QuoteState::Unquoted)
                } else {
                    prepend(c, fish_word(r, QuoteState::Single))
                }
            },
            QuoteState::Double => None,
            QuoteState::Unquoted => {
                if c == '\'' {
                    fish_word(r, QuoteState::Single)
                } else if is_other_special(c) {
                    None
                } else {
                    prepend(c, fish_word(r, QuoteState::Unquoted))
                }
            },
        }
    }
}

/// The value PowerShell gives the word `s` (single quotes only), or `None`.
pub open spec fn powershell_word(s: Seq<char>, st: QuoteState) -> Option<Seq<char>>
    decreases s.len(),
{
    if s.len() == 0 {
        match st {
            QuoteState::Unquoted => Some(Seq::empty()),
            _ => None,
        }
    } else {
        let c = s[0];
        let r = s.drop_first();
        match st {
            QuoteState::Single => {
                if is_powershell_single_quote(c) {
                    if r.len() > 0 && is_powershell_single_quote(r[0]) {
                        prepend(c, powershell_word(r.drop_first(), QuoteState::Single))
                    } else {
                        powershell_word(r, QuoteState::Unquoted)
                    }
                } else {
                    prepend(c, powershell_word(r, QuoteState::Single))
                }
            },
            QuoteState::Double => None,
            QuoteState::Unquoted => {
                if is_powershell_single_quote(c) {
                    powershell_word(r, QuoteState::Single)
                } else if is_other_special(c) {
                    None
                } else {
                    prepend(c, powershell_word(r, QuoteState::Unquoted))
                }
            },
        }
    }
}

/// The value `shell` gives the word `s` when it reads it outside of quotes.
pub open spec fn shell_word(s: Seq<char>, shell: ShellType) -> Option<Seq<char>> {
    match shell {
        ShellType::Zsh | ShellType::Bash => posix_word(s, QuoteState::Unquoted),
        ShellType::Fish => fish_word(s, QuoteState::Unquoted),
        ShellType::PowerShell => powershell_word(s, QuoteState::Unquoted),
    }
}

/// The value `shell` gives `s` while reading inside single quotes.
pub open spec fn shell_word_in_single_quotes(s: Seq<char>, shell: ShellType) -> Option<Seq<char>> {
    match shell {
        ShellType::Zsh | ShellType::Bash => posix_word(s, QuoteState::Single),
        ShellType::Fish => fish_word(s, QuoteState::Single),
        ShellType::PowerShell => powershell_word(s, QuoteState::Single),
    }
}

proof fn lemma_escaped_char_read(c: char, t: Seq<char>, shell: ShellType)
    ensures
        shell_word_in_single_quotes(escaped_char(c, shell) + t, shell) == prepend(
            c,
            shell_word_in_single_quotes(t, shell),
        ),
{
    let s = escaped_char(c, shell) + t;
    match shell {
        ShellType::Zsh | ShellType::Bash => {
            if c == '\'' {
                let s1 = s.drop_first();
                let s2 = s1.drop_first();
                let s3 = s2.drop_first();
                let s4 = s3.drop_first();
                assert(s4.drop_first() =~= t);
                assert(s[0] == '\'');
                assert(s1[0] == '"');
                assert(s2[0] == '\'');
                assert(s3[0] == '"');
                assert(s4[0] == '\'');
                assert(posix_word(s4, QuoteState::Unquoted) == posix_word(t, QuoteState::Single));
                assert(posix_word(s3, QuoteState::Double) == posix_word(t, QuoteState::Single));
                assert(posix_word(s2, QuoteState::Double) == prepend(
                    '\'',
                    posix_word(t, QuoteState::Single),
                ));
                assert(posix_word(s1, QuoteState::Unquoted) == posix_word(s2, QuoteState::Double));
                assert(posix_word(s, QuoteState::Single) == posix_word(s1, QuoteState::Unquoted));
            } else {
                assert(s[0] == c);
                assert(s.drop_first() =~= t);
            }
        },
        ShellType::Fish => {
            if c == '\'' || c == '\\' {
                assert(s[0] == '\\');
                assert(s.drop_first()[0] == c);
                assert(s.drop_first().drop_first() =~= t);
            } else {
                assert(s.drop_first() =~= t);
            }
        },
        ShellType::PowerShell => {
            if is_powershell_single_quote(c) {
                assert(s.drop_first()[0] == c);
                assert(s.drop_first().drop_first() =~= t);
            } else {
                assert(s.drop_first() =~= t);
            }
        },
    }
}

proof fn lemma_quoted_body_read(arg: Seq<char>, t: Seq<char>, shell: ShellType)
    ensures
        shell_word_in_single_quotes(quoted_body(arg, shell) + t, shell) == prepend_all(
            arg,
            shell_word_in_single_quotes(t, shell),
        ),
    decreases arg.len(),
{
    if arg.len() == 0 {
        assert(quoted_body(arg, shell) + t =~= t);
        match shell_word_in_single_quotes(t, shell) {
            Some(v) => assert(arg + v =~= v),
            None => {},
        }
    } else {
        let front = arg.drop_last();
        let c = arg.last();
        let t2 = escaped_char(c, shell) + t;
        assert(quoted_body(arg, shell) + t =~= quoted_body(front, shell) + t2);
        lemma_quoted_body_read(front, t2, shell);
        lemma_escaped_char_read(c, t, shell);
        match shell_word_in_single_quotes(t, shell) {
            Some(v) => assert(front + (seq![c] + v) =~= arg + v),
            None => {},
        }
    }
}

/// The shell reads the quoted argument back as exactly one word whose value is
/// the argument itself, whatever characters it holds.
pub proof fn lemma_quoted_argument_reads_back(arg: Seq<char>, shell: ShellType)
    ensures
        shell_word(spec_shell_quote_arg(arg, shell), shell) == Some(arg),
{
    let q = spec_shell_quote_arg(arg, shell);
    let inner = quoted_body(arg, shell) + seq!['\''];
    assert(q.drop_first() =~= inner);
    assert(q[0] == '\'');
    lemma_quoted_body_read(arg, seq!['\''], shell);
    let close = seq!['\''];
    assert(close.drop_first() =~= Seq::<char>::empty());
    assert(close[0] == '\'');
    let e = Seq::<char>::empty();
    assert(posix_word(e, QuoteState::Unquoted) == Some(e));
    assert(fish_word(e, QuoteState::Unquoted) == Some(e));
    assert(powershell_word(e, QuoteState::Unquoted) == Some(e));
    assert(shell_word_in_single_quotes(close, shell) == Some(Seq::<char>::empty()));
    assert(arg + Seq::<char>::empty() =~= arg);
}

proof fn lemma_quoted_body_push(arg: Seq<char>, c: char, shell: ShellType)
    ensures
        quoted_body(arg.push(c), shell) == quoted_body(arg, shell) + escaped_char(c, shell),
{
    assert(arg.push(c).drop_last() =~= arg);
}

/// Appends the escaped form of `c` to `out`.
fn push_escaped(out: &mut String, c: char, shell: ShellType)
    ensures
        final(out)@ == old(out)@ + escaped_char(c, shell),
{
    match shell {
        ShellType::Zsh | ShellType::Bash => {
            if c == '\'' {
                push_char(out, '\'');
                push_char(out, '"');
                push_char(out, '\'');
                push_char(out, '"');
                push_char(out, '\'');
            } else {
                push_char(out, c);
            }
        },
        ShellType::Fish => {
            if c == '\'' || c == '\\' {
                push_char(out, '\\');
                push_char(out, c);
            } else {
                push_char(out, c);
            }
        },
        ShellType::PowerShell => {
            if powershell_single_quote(c) {
                push_char(out, c);
                push_char(out, c);
            } else {
                push_char(out, c);
            }
        },
    }
    assert(final(out)@ =~= old(out)@ + escaped_char(c, shell));
}

/// Quotes `arg` so that `shell` reads it as one literal argument.
pub fn shell_quote_arg(arg: &str, shell: ShellType) -> (res: String)
    ensures
        res@ == spec_shell_quote_arg(arg@, shell),
{
    let mut res = String::new();
    push_char(&mut res, '\'');
    for c in it: arg.chars()
        invariant
            it.seq() == arg@,
            res@ == seq!['\''] + quoted_body(arg@.take(it.index() as int), shell),
    {
        proof {
            lemma_quoted_body_push(arg@.take(it.index() as int), c, shell);
            assert(arg@.take(it.index() + 1) =~= arg@.take(it.index() as int).push(c));
        }
        push_escaped(&mut res, c, shell);
    }
    proof {
        assert(arg@.take(arg@.len() as int) =~= arg@);
    }
    push_char(&mut res, '\'');
    res
}


/// A shell command that a prompt chip asks to run.
pub enum PromptChipShellCommand {
    GitCheckout { branch_name: String },
    GitCreateAndCheckoutBranch { branch_name: String },
    ChangeDirectory { dir_name: String },
    NvmUse { version: String },
    NvmInstallLatestNode,
    Echo { message: &'static str },
}

/// The command line a prompt chip runs: a fixed command followed by its
/// argument, quoted for the shell.
pub open spec fn spec_render_prompt_chip_shell_command(
    command: PromptChipShellCommand,
    shell: ShellType,
) -> Seq<char> {
    match command {
        PromptChipShellCommand::GitCheckout { branch_name } => "git checkout "@
            + spec_shell_quote_arg(branch_name@, shell),
        PromptChipShellCommand::GitCreateAndCheckoutBranch { branch_name } => "git checkout -b "@
            + spec_shell_quote_arg(branch_name@, shell) + " --"@,
        PromptChipShellCommand::ChangeDirectory { dir_name } => "cd "@ + spec_shell_quote_arg(
            dir_name@,
            shell,
        ),
        PromptChipShellCommand::NvmUse { version } => "nvm use "@ + spec_shell_quote_arg(
            version@,
            shell,
        ),
        PromptChipShellCommand::NvmInstallLatestNode => "nvm install node"@,
        PromptChipShellCommand::Echo { message } => "echo "@ + spec_shell_quote_arg(
            message@,
            shell,
        ),
    }
}

/// A prompt chip's command line in parts: the fixed text before the
/// argument, the argument (none for a fixed command), and the fixed text
/// after it.
pub open spec fn prompt_chip_parts(command: PromptChipShellCommand) -> (
    Seq<char>,
    Option<Seq<char>>,
    Seq<char>,
) {
    match command {
        PromptChipShellCommand::GitCheckout { branch_name } => (
            "git checkout "@,
            Some(branch_name@),
            Seq::empty(),
        ),
        PromptChipShellCommand::GitCreateAndCheckoutBranch { branch_name } => (
            "git checkout -b "@,
            Some(branch_name@),
            " --"@,
        ),
        PromptChipShellCommand::ChangeDirectory { dir_name } => ("cd "@, Some(dir_name@), Seq::empty()),
        PromptChipShellCommand::NvmUse { version } => ("nvm use "@, Some(version@), Seq::empty()),
        PromptChipShellCommand::NvmInstallLatestNode => ("nvm install node"@, None, Seq::empty()),
        PromptChipShellCommand::Echo { message } => ("echo "@, Some(message@), Seq::empty()),
    }
}

/// Whatever a prompt chip's argument holds, the command line is its fixed
/// text with the argument in between as a single word that the shell reads
/// back as exactly the argument: no argument can add words, expansions or
/// commands to the line.
pub proof fn lemma_prompt_chip_argument_is_one_word(command: PromptChipShellCommand, shell: ShellType)
    ensures
        ({
            let (head, arg, tail) = prompt_chip_parts(command);
            match arg {
                Some(a) => exists|word: Seq<char>|
                    spec_render_prompt_chip_shell_command(command, shell) == head + word + tail
                        && #[trigger] shell_word(word, shell) == Some(a),
                None => spec_render_prompt_chip_shell_command(command, shell) == head + tail,
            }
        }),
{
    let (head, arg, tail) = prompt_chip_parts(command);
    match arg {
        Some(a) => {
            let word = spec_shell_quote_arg(a, shell);
            lemma_quoted_argument_reads_back(a, shell);
            assert(spec_render_prompt_chip_shell_command(command, shell) =~= head + word + tail);
        },
        None => {
            assert(spec_render_prompt_chip_shell_command(command, shell) =~= head + tail);
        },
    }
}

fn concat_quoted(prefix: &str, arg: &str, shell: ShellType) -> (res: String)
    ensures
        res@ == prefix@ + spec_shell_quote_arg(arg@, shell),
{
    let mut res = String::from_str(prefix);
    let quoted = shell_quote_arg(arg, shell);
    res.append(quoted.as_str());
    res
}

/// Renders the command a prompt chip runs, with its argument quoted as one
/// shell word.
pub fn render_prompt_chip_shell_command(
    command: &PromptChipShellCommand,
    shell_type: ShellType,
) -> (res: String)
    ensures
        res@ == spec_render_prompt_chip_shell_command(*command, shell_type),
{
    match command {
        PromptChipShellCommand::GitCheckout { branch_name } => {
            concat_quoted("git checkout ", branch_name.as_str(), shell_type)
        },
        PromptChipShellCommand::GitCreateAndCheckoutBranch { branch_name } => {
            let mut res = concat_quoted("git checkout -b ", branch_name.as_str(), shell_type);
            res.append(" --");
            res
        },
        PromptChipShellCommand::ChangeDirectory { dir_name } => {
            concat_quoted("cd ", dir_name.as_str(), shell_type)
        },
        PromptChipShellCommand::NvmUse { version } => {
            concat_quoted("nvm use ", version.as_str(), shell_type)
        },
        PromptChipShellCommand::NvmInstallLatestNode => String::from_str("nvm install node"),
        PromptChipShellCommand::Echo { message } => concat_quoted("echo ", message, shell_type),
    }
}

/// How the repos menu writes a path between single quotes: each `'` closes
/// the quotes, adds an escaped quote and reopens them.
pub open spec fn repo_path_body(path: Seq<char>) -> Seq<char>
    decreases path.len(),
{
    if path.len() == 0 {
        Seq::empty()
    } else {
        repo_path_body(path.drop_last()) + if path.last() == '\'' {
            seq!['\'', '\\', '\'', '\'']
        } else {
            seq![path.last()]
        }
    }
}

/// The quoted path the repos menu passes to `cd`.
pub open spec fn spec_repo_quoted_path(path: Seq<char>) -> Seq<char> {
    seq!['\''] + repo_path_body(path) + seq!['\'']
}

proof fn lemma_repo_path_body_read(path: Seq<char>, t: Seq<char>)
    ensures
        posix_word(repo_path_body(path) + t, QuoteState::Single) == prepend_all(
            path,
            posix_word(t, QuoteState::Single),
        ),
    decreases path.len(),
{
    if path.len() == 0 {
        assert(repo_path_body(path) + t =~= t);
        match posix_word(t, QuoteState::Single) {
            Some(v) => assert(path + v =~= v),
            None => {},
        }
    } else {
        let front = path.drop_last();
        let c = path.last();
        let unit = if c == '\'' {
            seq!['\'', '\\', '\'', '\'']
        } else {
            seq![c]
        };
        let t2 = unit + t;
        assert(repo_path_body(path) + t =~= repo_path_body(front) + t2);
        lemma_repo_path_body_read(front, t2);
        if c == '\'' {
            let s1 = t2.drop_first();
            let s2 = s1.drop_first();
            let s3 = s2.drop_first();
            assert(s3.drop_first() =~= t);
            assert(t2[0] == '\'');
            assert(s1[0] == '\\');
            assert(s2[0] == '\'');
            assert(s3[0] == '\'');
            assert(posix_word(s3, QuoteState::Unquoted) == posix_word(t, QuoteState::Single));
            assert(posix_word(s1, QuoteState::Unquoted) == prepend(
                '\'',
                posix_word(s3, QuoteState::Unquoted),
            ));
            assert(posix_word(t2, QuoteState::Single) == posix_word(s1, QuoteState::Unquoted));
        } else {
            assert(t2[0] == c);
            assert(t2.drop_first() =~= t);
        }
        match posix_word(t, QuoteState::Single) {
            Some(v) => assert(front + (seq![c] + v) =~= path + v),
            None => {},
        }
    }
}

/// A POSIX shell reads the quoted repo path back as one word whose value is
/// the path.
pub proof fn lemma_repo_quoted_path_reads_back(path: Seq<char>)
    ensures
        posix_word(spec_repo_quoted_path(path), QuoteState::Unquoted) == Some(path),
{
    let q = spec_repo_quoted_path(path);
    assert(q.drop_first() =~= repo_path_body(path) + seq!['\'']);
    assert(q[0] == '\'');
    lemma_repo_path_body_read(path, seq!['\'']);
    let close = seq!['\''];
    let e = Seq::<char>::empty();
    assert(close.drop_first() =~= e);
    assert(close[0] == '\'');
    assert(posix_word(e, QuoteState::Unquoted) == Some(e));
    assert(path + e =~= path);
}

/// The `cd` command the repos menu runs to open a repository.
pub fn repo_cd_command(path: &str) -> (res: String)
    ensures
        res@ == "cd "@ + spec_repo_quoted_path(path@),
{
    let mut res = String::from_str("cd '");
    let ghost start = res@;
    for c in it: path.chars()
        invariant
            it.seq() == path@,
            start == "cd '"@,
            res@ == start + repo_path_body(path@.take(it.index() as int)),
    {
        proof {
            assert(path@.take(it.index() + 1).drop_last() =~= path@.take(it.index() as int));
        }
        if c == '\'' {
            push_char(&mut res, '\'');
            push_char(&mut res, '\\');
            push_char(&mut res, '\'');
            push_char(&mut res, '\'');
        } else {
            push_char(&mut res, c);
        }
        proof {
            assert(res@ =~= start + repo_path_body(path@.take(it.index() + 1)));
        }
    }
    proof {
        assert(path@.take(path@.len() as int) =~= path@);
    }
    push_char(&mut res, '\'');
    proof {
        reveal_strlit("cd '");
        reveal_strlit("cd ");
        assert(res@ =~= "cd "@ + spec_repo_quoted_path(path@));
    }
    res
}

/// The command a prompt chip runs, rendered for the active session's
/// shell; none without an active session.
pub fn prompt_chip_command(command: &PromptChipShellCommand, shell: Option<ShellType>) -> (res:
    Option<String>)
    ensures
        match shell {
            Some(shell_type) => res matches Some(line) && line@
                == spec_render_prompt_chip_shell_command(*command, shell_type),
            None => res is None,
        },
{
    match shell {
        Some(shell_type) => Some(render_prompt_chip_shell_command(command, shell_type)),
        None => None,
    }
}

/// What to put back in the buffer once a prompt chip's command completes:
/// the buffer from when it started, if the command started and the buffer
/// held something.
pub fn input_to_restore_after_prompt_chip(started: bool, current_input: String) -> (res: Option<
    String,
>)
    ensures
        started && current_input@.len() > 0 ==> res == Some(current_input),
        !(started && current_input@.len() > 0) ==> res is None,
{
    if started && !current_input.as_str().is_empty() {
        Some(current_input)
    } else {
        None
    }
}

} // verus!
