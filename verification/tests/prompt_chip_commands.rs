use terminal_input::shell_quote::{
    render_prompt_chip_shell_command, repo_cd_command, shell_quote_arg, PromptChipShellCommand,
    ShellType,
};

#[test]
fn renders_git_checkout_prompt_chip_command_as_single_shell_argument() {
    let command = PromptChipShellCommand::GitCheckout {
        branch_name: "poc;id>/tmp/proof $(whoami) `id` | cat 'tail'".to_string(),
    };

    assert_eq!(
        render_prompt_chip_shell_command(&command, ShellType::Bash),
        r#"git checkout 'poc;id>/tmp/proof $(whoami) `id` | cat '"'"'tail'"'"''"#
    );
    assert_eq!(
        render_prompt_chip_shell_command(&command, ShellType::Zsh),
        r#"git checkout 'poc;id>/tmp/proof $(whoami) `id` | cat '"'"'tail'"'"''"#
    );
    assert_eq!(
        render_prompt_chip_shell_command(&command, ShellType::Fish),
        r"git checkout 'poc;id>/tmp/proof $(whoami) `id` | cat \'tail\''"
    );
    assert_eq!(
        render_prompt_chip_shell_command(&command, ShellType::PowerShell),
        "git checkout 'poc;id>/tmp/proof $(whoami) `id` | cat ''tail'''"
    );
}

#[test]
fn renders_nvm_use_prompt_chip_command_as_single_shell_argument() {
    let command = PromptChipShellCommand::NvmUse {
        version: "v20.0.0;touch /tmp/pwn 'x'".to_string(),
    };

    assert_eq!(
        render_prompt_chip_shell_command(&command, ShellType::Bash),
        r#"nvm use 'v20.0.0;touch /tmp/pwn '"'"'x'"'"''"#
    );
    assert_eq!(
        render_prompt_chip_shell_command(&command, ShellType::Fish),
        r"nvm use 'v20.0.0;touch /tmp/pwn \'x\''"
    );
    assert_eq!(
        render_prompt_chip_shell_command(&command, ShellType::PowerShell),
        "nvm use 'v20.0.0;touch /tmp/pwn ''x'''"
    );
}

#[test]
fn renders_change_directory_prompt_chip_command_as_single_shell_argument() {
    let command = PromptChipShellCommand::ChangeDirectory {
        dir_name: "repo dir;rm -rf / 'x'".to_string(),
    };

    assert_eq!(
        render_prompt_chip_shell_command(&command, ShellType::Bash),
        r#"cd 'repo dir;rm -rf / '"'"'x'"'"''"#
    );
    assert_eq!(
        render_prompt_chip_shell_command(&command, ShellType::PowerShell),
        "cd 'repo dir;rm -rf / ''x'''"
    );
}

#[test]
fn renders_echo_prompt_chip_command_as_single_shell_argument() {
    let command = PromptChipShellCommand::Echo {
        message: "a message containing \"double\" and 'single' quotes",
    };

    assert_eq!(
        render_prompt_chip_shell_command(&command, ShellType::Bash),
        r#"echo 'a message containing "double" and '"'"'single'"'"' quotes'"#
    );
    assert_eq!(
        render_prompt_chip_shell_command(&command, ShellType::PowerShell),
        r#"echo 'a message containing "double" and ''single'' quotes'"#
    );
}

#[test]
fn renders_fixed_prompt_chip_command_without_interpolation() {
    assert_eq!(
        render_prompt_chip_shell_command(
            &PromptChipShellCommand::NvmInstallLatestNode,
            ShellType::Bash,
        ),
        "nvm install node"
    );
}

#[test]
fn renders_create_branch_command_with_option_terminator() {
    let command = PromptChipShellCommand::GitCreateAndCheckoutBranch {
        branch_name: "feature/x".to_string(),
    };
    assert_eq!(
        render_prompt_chip_shell_command(&command, ShellType::Zsh),
        "git checkout -b 'feature/x' --"
    );
}

#[test]
fn quotes_an_empty_argument_as_an_empty_word() {
    assert_eq!(shell_quote_arg("", ShellType::Bash), "''");
    assert_eq!(shell_quote_arg("", ShellType::Fish), "''");
    assert_eq!(shell_quote_arg("", ShellType::PowerShell), "''");
}

#[test]
fn fish_escapes_backslashes_inside_quotes() {
    assert_eq!(shell_quote_arg(r"a\b'c", ShellType::Fish), r"'a\\b\'c'");
    assert_eq!(shell_quote_arg(r"a\b", ShellType::Bash), r"'a\b'");
}

#[test]
fn powershell_doubles_typographic_single_quotes() {
    assert_eq!(
        shell_quote_arg("it\u{2019}s", ShellType::PowerShell),
        "'it\u{2019}\u{2019}s'"
    );
}

#[test]
fn repos_menu_changes_into_a_quoted_path() {
    assert_eq!(repo_cd_command("/home/me/my repo"), "cd '/home/me/my repo'");
    assert_eq!(repo_cd_command("/tmp/it's"), r"cd '/tmp/it'\''s'");
}
