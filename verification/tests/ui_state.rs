use rgb_workspace::layout::Rect;
use rgb_workspace::ui::state::{DirectoryEntry, ExplorerRequest, Ui};
use rgb_workspace::ui::AppState;

fn entry(name: &str, is_dir: bool) -> DirectoryEntry {
    DirectoryEntry { name: name.to_string(), is_dir, path: format!("./{}", name) }
}

fn names(ui: &Ui) -> Vec<String> {
    ui.file_tree().iter().map(|i| format!("{}{}", "  ".repeat(i.depth), i.name)).collect()
}

fn sample() -> Ui {
    let mut ui = Ui::new();
    ui.insert_directory_contents(
        0,
        &vec![entry("src", true), entry(".git", true), entry("docs", true), entry("a.txt", false), entry(".env", false)],
    );
    ui
}

fn open_src(ui: &mut Ui) {
    ui.file_explorer_move_down();
    let request = ui.file_explorer_toggle_expand();
    match request {
        ExplorerRequest::LoadDirectory { index, path } => {
            assert_eq!(index, 1);
            assert_eq!(path, "./src");
            ui.insert_directory_contents(
                index,
                &vec![entry("bin", true), entry("lib.rs", false)],
            );
        }
        _ => panic!("the directory was not opened"),
    }
}

#[test]
fn the_interface_starts_with_the_root_directory() {
    let ui = Ui::new();
    assert_eq!(ui.get_command(), "");
    assert_eq!(ui.error(), &None);
    assert!(!ui.is_help_visible());
    assert!(!ui.is_git_panel_visible());
    assert!(ui.is_file_explorer_visible());
    assert_eq!(ui.file_explorer_selected(), 0);
    assert_eq!(ui.get_file_explorer_area(), None);
    let tree = ui.file_tree();
    assert_eq!(tree.len(), 1);
    assert_eq!(tree[0].name, "./");
    assert_eq!(tree[0].path, ".");
    assert!(tree[0].is_dir && tree[0].is_expanded);
    assert_eq!(tree[0].depth, 0);
    assert_ne!(AppState::Normal, AppState::Command);
}

#[test]
fn the_command_line_is_edited() {
    let mut ui = Ui::new();
    ui.command_backspace();
    assert_eq!(ui.get_command(), "");
    for c in "néw".chars() {
        ui.command_push(c);
    }
    assert_eq!(ui.get_command(), "néw");
    ui.command_backspace();
    assert_eq!(ui.get_command(), "né");
    ui.command_backspace();
    assert_eq!(ui.get_command(), "n");
    ui.command_push('x');
    ui.clear_command();
    assert_eq!(ui.get_command(), "");
}

#[test]
fn panels_and_errors_are_toggled() {
    let mut ui = Ui::new();
    ui.toggle_help();
    assert!(ui.is_help_visible());
    ui.toggle_help();
    assert!(!ui.is_help_visible());
    ui.toggle_git_panel();
    assert!(ui.is_git_panel_visible());
    ui.toggle_file_explorer();
    assert!(!ui.is_file_explorer_visible());
    ui.show_error("Unknown command: x");
    assert_eq!(ui.error(), &Some("Unknown command: x".to_string()));
    ui.clear_error();
    assert_eq!(ui.error(), &None);
}

#[test]
fn entries_are_placed_below_their_directory() {
    let mut ui = sample();
    assert_eq!(names(&ui), vec!["./", "  src/", "  docs/", "  a.txt"]);
    let tree = ui.file_tree();
    assert!(tree[1].is_dir && !tree[1].is_expanded);
    assert!(!tree[3].is_dir);
    assert_eq!(tree[1].path, "./src");
    open_src(&mut ui);
    assert_eq!(names(&ui), vec!["./", "  src/", "    bin/", "    lib.rs", "  docs/", "  a.txt"]);
    assert!(ui.file_tree()[1].is_expanded);
    ui.insert_directory_contents(4, &Vec::new());
    assert_eq!(ui.file_tree().len(), 6);
}

#[test]
fn closing_a_directory_removes_what_stands_below_it() {
    let mut ui = sample();
    open_src(&mut ui);
    ui.file_explorer_move_down();
    let request = ui.file_explorer_toggle_expand();
    assert!(matches!(request, ExplorerRequest::LoadDirectory { index: 2, .. }));
    ui.insert_directory_contents(2, &vec![entry("main.rs", false)]);
    assert_eq!(
        names(&ui),
        vec!["./", "  src/", "    bin/", "      main.rs", "    lib.rs", "  docs/", "  a.txt"]
    );
    ui.file_explorer_move_up();
    assert_eq!(ui.file_explorer_selected(), 1);
    let request = ui.file_explorer_toggle_expand();
    assert!(matches!(request, ExplorerRequest::Nothing));
    assert_eq!(names(&ui), vec!["./", "  src/", "  docs/", "  a.txt"]);
    assert!(!ui.file_tree()[1].is_expanded);
    ui.collapse_directory(0);
    assert_eq!(names(&ui), vec!["./"]);
    ui.collapse_directory(0);
    assert_eq!(names(&ui), vec!["./"]);
}

#[test]
fn the_selection_moves_within_the_lines() {
    let mut ui = sample();
    ui.file_explorer_move_up();
    assert_eq!(ui.file_explorer_selected(), 0);
    for _ in 0..10 {
        ui.file_explorer_move_down();
    }
    assert_eq!(ui.file_explorer_selected(), 3);
    ui.file_explorer_move_up();
    assert_eq!(ui.file_explorer_selected(), 2);
}

#[test]
fn enter_opens_files_and_toggles_directories() {
    let mut ui = sample();
    for _ in 0..3 {
        ui.file_explorer_move_down();
    }
    match ui.file_explorer_open() {
        ExplorerRequest::OpenFile(path) => assert_eq!(path, "./a.txt"),
        _ => panic!("no file was opened"),
    }
    assert!(matches!(ui.file_explorer_toggle_expand(), ExplorerRequest::Nothing));
    assert_eq!(names(&ui), vec!["./", "  src/", "  docs/", "  a.txt"]);
    ui.file_explorer_move_up();
    match ui.file_explorer_open() {
        ExplorerRequest::LoadDirectory { index, path } => {
            assert_eq!((index, path.as_str()), (2, "./docs"));
        }
        _ => panic!("no directory was opened"),
    }
    assert!(ui.file_tree()[2].is_expanded);
    assert!(matches!(ui.file_explorer_open(), ExplorerRequest::Nothing));
    assert!(!ui.file_tree()[2].is_expanded);
}

#[test]
fn a_click_selects_the_line_in_its_row() {
    let mut ui = sample();
    ui.handle_file_explorer_click(3, 3);
    assert_eq!(ui.file_explorer_selected(), 0);
    ui.set_file_explorer_area(Some(Rect { x: 0, y: 1, width: 20, height: 22 }));
    assert_eq!(ui.get_file_explorer_area(), Some(Rect { x: 0, y: 1, width: 20, height: 22 }));
    ui.handle_file_explorer_click(3, 4);
    assert_eq!(ui.file_explorer_selected(), 2);
    ui.handle_file_explorer_click(3, 5);
    assert_eq!(ui.file_explorer_selected(), 3);
    ui.handle_file_explorer_click(3, 6);
    assert_eq!(ui.file_explorer_selected(), 3);
    ui.handle_file_explorer_click(3, 0);
    assert_eq!(ui.file_explorer_selected(), 0);
    ui.handle_file_explorer_click(3, 3);
    assert_eq!(ui.file_explorer_selected(), 1);
    ui.set_file_explorer_area(Some(Rect { x: 0, y: 65535, width: 20, height: 0 }));
    ui.handle_file_explorer_click(3, 65535);
    assert_eq!(ui.file_explorer_selected(), 0);
}
