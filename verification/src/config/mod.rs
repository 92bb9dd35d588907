//! The configuration of the application and the values it has where no
//! file sets them.

use vstd::prelude::*;
use vstd::string::*;
use crate::terminal::spawn::shell_or_default;

verus! {

/// The whole configuration.
#[derive(Debug)]
pub struct AppConfig {
    pub general: GeneralConfig,
    pub appearance: AppearanceConfig,
    pub keybindings: KeybindingsConfig,
    pub layout: LayoutConfig,
    pub git: GitConfig,
    /// The kinds of terminal that can be opened by name, each with its name.
    pub terminals: Vec<(String, TerminalConfig)>,
}

#[derive(Debug)]
pub struct GeneralConfig {
    pub project_dir: Option<String>,
    pub max_terminals: usize,
    pub auto_save_layout: bool,
    pub default_shell: String,
}

#[derive(Debug)]
pub struct AppearanceConfig {
    pub theme: String,
    pub font_size: u16,
    pub cursor_style: CursorStyle,
    pub scrollback_lines: usize,
}

#[derive(Clone, Copy, Debug, PartialEq, Eq, Structural)]
pub enum CursorStyle {
    Block,
    Line,
    Underline,
}

#[derive(Debug)]
pub struct KeybindingsConfig {
    pub new_terminal: String,
    pub close_terminal: String,
    pub switch_mode: String,
}

#[derive(Debug)]
pub struct LayoutConfig {
    pub default: String,
    pub min_pane_size: Size,
    pub border_style: BorderStyle,
}

#[derive(Clone, Copy, Debug, PartialEq, Eq, Structural)]
pub struct Size {
    pub width: u16,
    pub height: u16,
}

#[derive(Clone, Copy, Debug, PartialEq, Eq, Structural)]
pub enum BorderStyle {
    Rounded,
    Double,
    Thick,
    Plain,
}

#[derive(Debug)]
pub struct GitConfig {
    pub auto_worktree: bool,
    pub sync_interval: u64,
    pub commit_template: String,
}

#[derive(Debug)]
pub struct TerminalConfig {
    pub command: String,
    pub icon: String,
    pub environment: Vec<(String, String)>,
}

/// A kind of terminal is named `name`, runs `command`, shows `icon` and
/// sets no variable.
pub open spec fn is_terminal_kind(
    kind: (String, TerminalConfig),
    name: Seq<char>,
    command: Seq<char>,
    icon: Seq<char>,
) -> bool {
    kind.0@ == name && kind.1.command@ == command && kind.1.icon@ == icon
        && kind.1.environment@.len() == 0
}

/// The configuration holds the values that stand where no file sets them;
/// `shell` is the shell of the user, if known.
pub open spec fn is_default_config(config: AppConfig, shell: Option<Seq<char>>) -> bool {
    &&& config.general.project_dir is None
    &&& config.general.max_terminals == 10
    &&& config.general.auto_save_layout
    &&& config.general.default_shell@ == shell_or_default(shell)
    &&& config.appearance.theme@ == "dark"@
    &&& config.appearance.font_size == 12
    &&& config.appearance.cursor_style == CursorStyle::Block
    &&& config.appearance.scrollback_lines == 10000
    &&& config.keybindings.new_terminal@ == "ctrl+t"@
    &&& config.keybindings.close_terminal@ == "ctrl+w"@
    &&& config.keybindings.switch_mode@ == "esc"@
    &&& config.layout.default@ == "grid"@
    &&& config.layout.min_pane_size == (Size { width: 40, height: 10 })
    &&& config.layout.border_style == BorderStyle::Rounded
    &&& config.git.auto_worktree
    &&& config.git.sync_interval == 300
    &&& config.git.commit_template@ == "feat: {message}\n\nCo-authored-by: RGB"@
    &&& config.terminals@.len() == 2
    &&& is_terminal_kind(config.terminals@[0], "vim"@, "vim"@, "📝"@)
    &&& is_terminal_kind(config.terminals@[1], "shell"@, shell_or_default(shell), ">"@)
}

/// A kind of terminal that sets no variable.
fn terminal_kind(name: &str, command: String, icon: &str) -> (kind: (String, TerminalConfig))
    ensures
        is_terminal_kind(kind, name@, command@, icon@),
{
    (name.to_owned(), TerminalConfig { command, icon: icon.to_owned(), environment: Vec::new() })
}

/// The kinds of terminal that the configuration holds where no file sets them.
pub fn default_terminals(shell: String) -> (terminals: Vec<(String, TerminalConfig)>)
    ensures
        terminals@.len() == 2,
        is_terminal_kind(terminals@[0], "vim"@, "vim"@, "📝"@),
        is_terminal_kind(terminals@[1], "shell"@, shell@, ">"@),
{
    let mut terminals: Vec<(String, TerminalConfig)> = Vec::new();
    terminals.push(terminal_kind("vim", "vim".to_owned(), "📝"));
    terminals.push(terminal_kind("shell", shell, ">"));
    terminals
}

impl AppConfig {
    /// The configuration that stands where no file sets one; `shell` is the
    /// shell of the user, if known.
    pub fn defaults(shell: Option<String>) -> (config: AppConfig)
        ensures
            is_default_config(
                config,
                match shell {
                    Some(path) => Some(path@),
                    None => None,
                },
            ),
    {
        let shell = match shell {
            Some(path) => path,
            None => "/bin/bash".to_owned(),
        };
        AppConfig {
            general: GeneralConfig {
                project_dir: None,
                max_terminals: 10,
                auto_save_layout: true,
                default_shell: shell.clone(),
            },
            appearance: AppearanceConfig {
                theme: "dark".to_owned(),
                font_size: 12,
                cursor_style: CursorStyle::Block,
                scrollback_lines: 10000,
            },
            keybindings: KeybindingsConfig {
                new_terminal: "ctrl+t".to_owned(),
                close_terminal: "ctrl+w".to_owned(),
                switch_mode: "esc".to_owned(),
            },
            layout: LayoutConfig {
                default: "grid".to_owned(),
                min_pane_size: Size { width: 40, height: 10 },
                border_style: BorderStyle::Rounded,
            },
            git: GitConfig {
                auto_worktree: true,
                sync_interval: 300,
                commit_template: "feat: {message}\n\nCo-authored-by: RGB".to_owned(),
            },
            terminals: default_terminals(shell),
        }
    }
}

} // verus!
