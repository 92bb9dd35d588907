use rgb_workspace::input::{
    key_command, mouse_outcome, parse_command, split_words, Command, FocusArea, MouseKind,
    MouseOutcome, PaletteCommand,
};
use rgb_workspace::terminal::keys::{KeyCode, KeyEvent, KeyModifiers};

fn key(code: KeyCode, modifiers: KeyModifiers) -> KeyEvent {
    KeyEvent::new(code, modifiers)
}

fn normal(code: KeyCode, modifiers: KeyModifiers) -> Command {
    key_command(false, FocusArea::Terminal, key(code, modifiers))
}

fn explorer(code: KeyCode, modifiers: KeyModifiers) -> Command {
    key_command(false, FocusArea::FileExplorer, key(code, modifiers))
}

#[test]
fn command_mode_edits_the_command_line() {
    let none = KeyModifiers::none();
    for focus in [FocusArea::Terminal, FocusArea::FileExplorer] {
        assert_eq!(key_command(true, focus, key(KeyCode::Esc, none)), Command::LeaveCommandMode);
        assert_eq!(key_command(true, focus, key(KeyCode::Enter, none)), Command::RunCommand);
        assert_eq!(key_command(true, focus, key(KeyCode::Backspace, none)), Command::CommandBackspace);
        assert_eq!(key_command(true, focus, key(KeyCode::Char('q'), none)), Command::CommandPush('q'));
        assert_eq!(
            key_command(true, focus, key(KeyCode::Char('q'), KeyModifiers::control())),
            Command::CommandPush('q')
        );
        assert_eq!(key_command(true, focus, key(KeyCode::Up, none)), Command::Nothing);
        assert_eq!(key_command(true, focus, key(KeyCode::F(1), none)), Command::Nothing);
    }
}

#[test]
fn control_keys_are_bound() {
    let control = KeyModifiers::control();
    assert_eq!(normal(KeyCode::Char('q'), control), Command::Quit);
    assert_eq!(normal(KeyCode::Char('Q'), control), Command::Quit);
    assert_eq!(normal(KeyCode::Char('t'), control), Command::NewTerminal);
    assert_eq!(normal(KeyCode::Char('T'), control), Command::NewTerminal);
    assert_eq!(normal(KeyCode::Char('w'), control), Command::CloseActiveTerminal);
    assert_eq!(explorer(KeyCode::Char('W'), control), Command::FocusTerminal);
    assert_eq!(normal(KeyCode::Char('e'), control), Command::ToggleFileExplorer);
    assert_eq!(normal(KeyCode::Char('f'), control), Command::SwitchFocus);
    assert_eq!(explorer(KeyCode::Char('g'), control), Command::ToggleGitPanel);
    assert_eq!(normal(KeyCode::Tab, control), Command::NextTerminal);
    assert_eq!(
        normal(KeyCode::Char('c'), control),
        Command::Forward(key(KeyCode::Char('c'), control))
    );
    assert_eq!(
        normal(KeyCode::Char('E'), control),
        Command::Forward(key(KeyCode::Char('E'), control))
    );
    assert_eq!(explorer(KeyCode::Char('c'), control), Command::Nothing);
}

#[test]
fn plain_keys_are_bound() {
    let none = KeyModifiers::none();
    assert_eq!(normal(KeyCode::Char(':'), none), Command::EnterCommandMode);
    assert_eq!(explorer(KeyCode::Char('?'), none), Command::ToggleHelp);
    assert_eq!(normal(KeyCode::F(1), none), Command::SwitchToTerminal(0));
    assert_eq!(normal(KeyCode::F(10), none), Command::SwitchToTerminal(9));
    assert_eq!(normal(KeyCode::F(11), none), Command::Forward(key(KeyCode::F(11), none)));
    assert_eq!(normal(KeyCode::F(0), none), Command::Forward(key(KeyCode::F(0), none)));
    assert_eq!(
        normal(KeyCode::F(1), KeyModifiers::shift()),
        Command::Forward(key(KeyCode::F(1), KeyModifiers::shift()))
    );
    assert_eq!(normal(KeyCode::Char('a'), none), Command::Forward(key(KeyCode::Char('a'), none)));
    assert_eq!(
        normal(KeyCode::Char(':'), KeyModifiers::shift()),
        Command::Forward(key(KeyCode::Char(':'), KeyModifiers::shift()))
    );
}

#[test]
fn sessions_are_switched_with_alt_and_shift() {
    assert_eq!(normal(KeyCode::Left, KeyModifiers::alt()), Command::PreviousTerminal);
    assert_eq!(explorer(KeyCode::Right, KeyModifiers::alt()), Command::NextTerminal);
    assert_eq!(normal(KeyCode::BackTab, KeyModifiers::shift()), Command::PreviousTerminal);
    assert_eq!(
        normal(KeyCode::Up, KeyModifiers::alt()),
        Command::Forward(key(KeyCode::Up, KeyModifiers::alt()))
    );
    assert_eq!(
        normal(KeyCode::BackTab, KeyModifiers::none()),
        Command::Forward(key(KeyCode::BackTab, KeyModifiers::none()))
    );
    let both = KeyModifiers { shift: true, control: false, alt: true, extra: false };
    assert_eq!(normal(KeyCode::Left, both), Command::Forward(key(KeyCode::Left, both)));
    assert_eq!(explorer(KeyCode::Left, both), Command::ExplorerToggle);
}

#[test]
fn the_explorer_takes_arrows_and_enter() {
    let none = KeyModifiers::none();
    assert_eq!(explorer(KeyCode::Up, none), Command::ExplorerUp);
    assert_eq!(explorer(KeyCode::Down, none), Command::ExplorerDown);
    assert_eq!(explorer(KeyCode::Left, none), Command::ExplorerToggle);
    assert_eq!(explorer(KeyCode::Right, none), Command::ExplorerToggle);
    assert_eq!(explorer(KeyCode::Enter, none), Command::ExplorerOpen);
    assert_eq!(explorer(KeyCode::Up, KeyModifiers::control()), Command::ExplorerUp);
    assert_eq!(explorer(KeyCode::Char('x'), none), Command::Nothing);
    assert_eq!(explorer(KeyCode::Esc, none), Command::Nothing);
    assert_eq!(normal(KeyCode::Up, none), Command::Forward(key(KeyCode::Up, none)));
}

#[test]
fn lines_are_split_in_words() {
    assert_eq!(split_words(""), Vec::<String>::new());
    assert_eq!(split_words("   \t\n"), Vec::<String>::new());
    assert_eq!(split_words("quit"), vec!["quit".to_string()]);
    assert_eq!(split_words("  new   htop -d  "), vec!["new", "htop", "-d"]);
    assert_eq!(split_words("a\tb\nc\rd"), vec!["a", "b", "c", "d"]);
    assert_eq!(split_words("läyout grïd"), vec!["läyout", "grïd"]);
}

#[test]
fn command_lines_are_understood() {
    assert!(matches!(parse_command(""), PaletteCommand::Empty));
    assert!(matches!(parse_command("   "), PaletteCommand::Empty));
    assert!(matches!(parse_command("quit"), PaletteCommand::Quit));
    assert!(matches!(parse_command(" q now"), PaletteCommand::Quit));
    assert!(matches!(parse_command("worktree"), PaletteCommand::Worktree));
    assert!(matches!(parse_command("commit -m x"), PaletteCommand::Commit));
    assert!(matches!(parse_command("config"), PaletteCommand::Config));
    match parse_command("new") {
        PaletteCommand::New(command) => assert_eq!(command, None),
        _ => panic!("not understood"),
    }
    match parse_command("new htop -d 5") {
        PaletteCommand::New(command) => assert_eq!(command, Some("htop".to_string())),
        _ => panic!("not understood"),
    }
    match parse_command("layout  spiral") {
        PaletteCommand::Layout(name) => assert_eq!(name, Some("spiral".to_string())),
        _ => panic!("not understood"),
    }
    match parse_command("layout") {
        PaletteCommand::Layout(name) => assert_eq!(name, None),
        _ => panic!("not understood"),
    }
    match parse_command("Quit now") {
        PaletteCommand::Unknown(word) => assert_eq!(word, "Quit"),
        _ => panic!("not understood"),
    }
    match parse_command("quitter") {
        PaletteCommand::Unknown(word) => assert_eq!(word, "quitter"),
        _ => panic!("not understood"),
    }
}

#[test]
fn the_mouse_activates_and_focuses() {
    let click = mouse_outcome(MouseKind::LeftDown, Some(7), false, FocusArea::FileExplorer);
    assert_eq!(
        click,
        MouseOutcome {
            activate: Some(7),
            focus: FocusArea::Terminal,
            click_explorer: false,
            scroll: Command::Nothing
        }
    );
    let click = mouse_outcome(MouseKind::LeftDown, None, true, FocusArea::Terminal);
    assert_eq!(click.focus, FocusArea::FileExplorer);
    assert!(click.click_explorer);
    assert_eq!(click.activate, None);
    let click = mouse_outcome(MouseKind::LeftDown, Some(3), true, FocusArea::Terminal);
    assert_eq!((click.activate, click.focus, click.click_explorer), (Some(3), FocusArea::FileExplorer, true));
    let click = mouse_outcome(MouseKind::LeftDown, None, false, FocusArea::FileExplorer);
    assert_eq!((click.activate, click.focus, click.click_explorer), (None, FocusArea::FileExplorer, false));
    let wheel = mouse_outcome(MouseKind::ScrollDown, Some(3), true, FocusArea::FileExplorer);
    assert_eq!((wheel.activate, wheel.scroll), (None, Command::ExplorerDown));
    let wheel = mouse_outcome(MouseKind::ScrollUp, None, false, FocusArea::FileExplorer);
    assert_eq!(wheel.scroll, Command::ExplorerUp);
    let wheel = mouse_outcome(MouseKind::ScrollUp, None, true, FocusArea::Terminal);
    assert_eq!((wheel.scroll, wheel.focus, wheel.click_explorer), (Command::Nothing, FocusArea::Terminal, false));
    let other = mouse_outcome(MouseKind::Other, Some(1), true, FocusArea::Terminal);
    assert_eq!(
        other,
        MouseOutcome {
            activate: None,
            focus: FocusArea::Terminal,
            click_explorer: false,
            scroll: Command::Nothing
        }
    );
}
