use rgb_workspace::terminal::spawn::{build_child_env, contains_space, plan_spawn};

fn pair(name: &str, value: &str) -> (String, String) {
    (name.to_string(), value.to_string())
}

fn fixed() -> Vec<(String, String)> {
    vec![pair("TERM", "xterm-256color"), pair("COLORTERM", "truecolor")]
}

#[test]
fn a_plain_program_is_run_as_it_is() {
    let plan = plan_spawn(
        "/bin/ls",
        vec!["-l".to_string(), "a b".to_string()],
        Some("/bin/zsh".to_string()),
        &Vec::new(),
    );
    assert_eq!(plan.program, "/bin/ls");
    assert_eq!(plan.args, vec!["-l".to_string(), "a b".to_string()]);
    assert_eq!(plan.env, fixed());
}

#[test]
fn a_command_line_is_handed_to_the_shell() {
    let plan = plan_spawn("/bin/echo hello", vec!["x".to_string()], Some("/bin/zsh".to_string()), &Vec::new());
    assert_eq!(plan.program, "/bin/zsh");
    assert_eq!(plan.args, vec!["-c".to_string(), "/bin/echo hello".to_string()]);
    let plan = plan_spawn("a\tb", Vec::new(), None, &Vec::new());
    assert_eq!(plan.program, "/bin/bash");
    assert_eq!(plan.args, vec!["-c".to_string(), "a\tb".to_string()]);
}

#[test]
fn no_program_stands_for_a_login_shell() {
    let plan = plan_spawn("", vec!["ignored".to_string()], Some("/usr/bin/fish".to_string()), &Vec::new());
    assert_eq!(plan.program, "/usr/bin/fish");
    assert_eq!(plan.args, vec!["-l".to_string()]);
    let plan = plan_spawn("", Vec::new(), None, &Vec::new());
    assert_eq!(plan.program, "/bin/bash");
    assert_eq!(plan.args, vec!["-l".to_string()]);
    assert_eq!(plan.env, fixed());
}

#[test]
fn the_terminal_variables_are_always_set() {
    let explicit = vec![
        pair("EDITOR", "vi"),
        pair("TERM", "dumb"),
        pair("LANG", "C"),
        pair("COLORTERM", "no"),
        pair("EDITOR", "nano"),
    ];
    let env = build_child_env(&explicit);
    assert_eq!(
        env,
        vec![
            pair("EDITOR", "vi"),
            pair("LANG", "C"),
            pair("EDITOR", "nano"),
            pair("TERM", "xterm-256color"),
            pair("COLORTERM", "truecolor"),
        ]
    );
    assert_eq!(build_child_env(&Vec::new()), fixed());
    let plan = plan_spawn("sh", Vec::new(), None, &explicit);
    assert_eq!(plan.env, env);
    let env = build_child_env(&vec![pair("term", "x"), pair("TERM ", "y")]);
    assert_eq!(env.len(), 4);
}

#[test]
fn white_space_is_found() {
    assert!(!contains_space(""));
    assert!(!contains_space("/bin/bash"));
    assert!(contains_space(" "));
    assert!(contains_space("a b"));
    assert!(contains_space("ab "));
    assert!(contains_space("a\tb"));
    assert!(contains_space("a\nb"));
    assert!(contains_space("a\rb"));
    assert!(contains_space("a\x0Bb"));
    assert!(contains_space("a\x0Cb"));
    assert!(!contains_space("a\x08b\x0Ec"));
    assert!(!contains_space("héllo—wörld"));
}
