//! What is to be run for a session: the program, its arguments and the
//! variables that its environment adds to that of the parent.

use vstd::prelude::*;
use vstd::string::*;
use crate::text::texts;

verus! {

/// What a pseudo-terminal is to run.
#[derive(Debug)]
pub struct SpawnPlan {
    pub program: String,
    pub args: Vec<String>,
    /// The variables set for the child, each after those it overrides.
    pub env: Vec<(String, String)>,
}

/// The model of a spawn plan.
pub struct SpawnPlanView {
    pub program: Seq<char>,
    pub args: Seq<Seq<char>>,
    pub env: Seq<(Seq<char>, Seq<char>)>,
}

/// The texts of a list of variables, in order.
pub open spec fn variables(list: Seq<(String, String)>) -> Seq<(Seq<char>, Seq<char>)> {
    Seq::new(list.len(), |i: int| (list[i].0@, list[i].1@))
}

impl View for SpawnPlan {
    type V = SpawnPlanView;

    open spec fn view(&self) -> SpawnPlanView {
        SpawnPlanView {
            program: self.program@,
            args: texts(self.args@),
            env: variables(self.env@),
        }
    }
}

/// Whether a character is white space: a blank, or one of the controls from
/// the horizontal tab to the carriage return.
pub open spec fn is_space(v: int) -> bool {
    v == 0x20 || (0x09 <= v <= 0x0D)
}

/// Whether a text holds white space among its first `n` characters.
pub open spec fn has_space_before(text: Seq<char>, n: int) -> bool {
    exists|i: int| 0 <= i < n && i < text.len() && is_space(#[trigger] text[i] as int)
}

/// Whether a text holds white space.
pub open spec fn has_space(text: Seq<char>) -> bool {
    has_space_before(text, text.len() as int)
}

/// The shell of the user, and `/bin/bash` where none is known.
pub open spec fn shell_or_default(shell: Option<Seq<char>>) -> Seq<char> {
    match shell {
        Some(path) => path,
        None => "/bin/bash"@,
    }
}

/// Whether the environment of every child fixes the variable `name`.
pub open spec fn is_fixed_variable(name: Seq<char>) -> bool {
    name == "TERM"@ || name == "COLORTERM"@
}

/// The variables of `explicit` but those that every child has fixed.
pub open spec fn free_variables(explicit: Seq<(Seq<char>, Seq<char>)>) -> Seq<
    (Seq<char>, Seq<char>),
>
    decreases explicit.len(),
{
    if explicit.len() == 0 {
        Seq::empty()
    } else {
        let rest = free_variables(explicit.drop_last());
        if is_fixed_variable(explicit.last().0) {
            rest
        } else {
            rest.push(explicit.last())
        }
    }
}

/// The variables set for a child: the explicit ones, then `TERM` and
/// `COLORTERM`, which no explicit entry overrides.
pub open spec fn child_env(explicit: Seq<(Seq<char>, Seq<char>)>) -> Seq<(Seq<char>, Seq<char>)> {
    free_variables(explicit).push(("TERM"@, "xterm-256color"@)).push(
        ("COLORTERM"@, "truecolor"@),
    )
}

/// The plan for `program` with the arguments `argv`: no program stands for
/// a login shell, a program with white space in it is a command line for
/// the shell, and any other program is run as it is.
pub open spec fn plan_of(
    program: Seq<char>,
    argv: Seq<Seq<char>>,
    shell: Option<Seq<char>>,
    explicit: Seq<(Seq<char>, Seq<char>)>,
) -> SpawnPlanView {
    if program.len() == 0 {
        SpawnPlanView {
            program: shell_or_default(shell),
            args: seq!["-l"@],
            env: child_env(explicit),
        }
    } else if has_space(program) {
        SpawnPlanView {
            program: shell_or_default(shell),
            args: seq!["-c"@, program],
            env: child_env(explicit),
        }
    } else {
        SpawnPlanView { program, args: argv, env: child_env(explicit) }
    }
}

/// Whether `text` holds white space.
pub fn contains_space(text: &str) -> (found: bool)
    ensures
        found == has_space(text@),
{
    let len = text.unicode_len();
    let mut i: usize = 0;
    while i < len
        invariant
            i <= len,
            len == text@.len(),
            !has_space_before(text@, i as int),
        decreases len - i,
    {
        let c = text.get_char(i);
        let v = c as u32;
        if v == 0x20 || (0x09 <= v && v <= 0x0D) {
            assert(is_space(text@[i as int] as int));
            return true;
        }
        assert forall|j: int| 0 <= j < i + 1 && j < text@.len() implies !is_space(
            #[trigger] text@[j] as int,
        ) by {
            if j < i {
                assert(!has_space_before(text@, i as int));
            }
        }
        i += 1;
    }
    false
}

/// Whether the environment of every child fixes the variable `name`.
fn is_fixed(name: &String) -> (fixed: bool)
    ensures
        fixed == is_fixed_variable(name@),
{
    *name == "TERM".to_owned() || *name == "COLORTERM".to_owned()
}

/// The variables set for a child whose owner asks for `explicit`.
pub fn build_child_env(explicit: &Vec<(String, String)>) -> (env: Vec<(String, String)>)
    ensures
        variables(env@) == child_env(variables(explicit@)),
{
    let mut env: Vec<(String, String)> = Vec::new();
    let mut i: usize = 0;
    while i < explicit.len()
        invariant
            i <= explicit.len(),
            variables(env@) == free_variables(variables(explicit@).take(i as int)),
        decreases explicit.len() - i,
    {
        let ghost before = variables(env@);
        assert(variables(explicit@).take(i + 1).drop_last() =~= variables(explicit@).take(i as int));
        assert(variables(explicit@).take(i + 1).last() == (explicit@[i as int].0@, explicit@[i as int].1@));
        if !is_fixed(&explicit[i].0) {
            env.push((explicit[i].0.clone(), explicit[i].1.clone()));
            assert(variables(env@) =~= before.push((explicit@[i as int].0@, explicit@[i as int].1@)));
        }
        i += 1;
    }
    assert(variables(explicit@).take(explicit.len() as int) =~= variables(explicit@));
    let ghost free = variables(env@);
    env.push(("TERM".to_owned(), "xterm-256color".to_owned()));
    assert(variables(env@) =~= free.push(("TERM"@, "xterm-256color"@)));
    let ghost with_term = variables(env@);
    env.push(("COLORTERM".to_owned(), "truecolor".to_owned()));
    assert(variables(env@) =~= with_term.push(("COLORTERM"@, "truecolor"@)));
    env
}

/// Decides what the pseudo-terminal of a session is to run: `program` with
/// `argv`, where `shell` is the shell of the user, if known, and `explicit`
/// are the variables that the owner sets.
pub fn plan_spawn(
    program: &str,
    argv: Vec<String>,
    shell: Option<String>,
    explicit: &Vec<(String, String)>,
) -> (plan: SpawnPlan)
    ensures
        plan@ == plan_of(
            program@,
            texts(argv@),
            match shell {
                Some(path) => Some(path@),
                None => None,
            },
            variables(explicit@),
        ),
{
    let env = build_child_env(explicit);
    if program.unicode_len() == 0 {
        let shell = match shell {
            Some(path) => path,
            None => "/bin/bash".to_owned(),
        };
        let mut args: Vec<String> = Vec::new();
        args.push("-l".to_owned());
        assert(texts(args@) =~= seq!["-l"@]);
        SpawnPlan { program: shell, args, env }
    } else if contains_space(program) {
        let shell = match shell {
            Some(path) => path,
            None => "/bin/bash".to_owned(),
        };
        let mut args: Vec<String> = Vec::new();
        args.push("-c".to_owned());
        args.push(program.to_owned());
        assert(texts(args@) =~= seq!["-c"@, program@]);
        SpawnPlan { program: shell, args, env }
    } else {
        SpawnPlan { program: program.to_owned(), args: argv, env }
    }
}

} // verus!
