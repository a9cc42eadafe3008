//! What the container's process is executed with: its argument vector and
//! the clean environment it gets in place of the host's.

use vstd::prelude::*;
use crate::text::views;

verus! {

/// Why a command cannot be executed.
#[derive(Debug, Clone, Copy, PartialEq, Eq)]
pub enum ExecError {
    /// The command holds a NUL character.
    InvalidCommand,
    /// An argument holds a NUL character.
    InvalidArgument,
}

/// The text that each exec error is reported with.
pub open spec fn exec_error_text(e: ExecError) -> Seq<char> {
    match e {
        ExecError::InvalidCommand => "invalid command string"@,
        ExecError::InvalidArgument => "invalid argument string"@,
    }
}

impl ExecError {
    /// The message this error is reported with.
    pub fn message(&self) -> (m: String)
        ensures
            m@ == exec_error_text(*self),
    {
        match self {
            ExecError::InvalidCommand => "invalid command string".to_owned(),
            ExecError::InvalidArgument => "invalid argument string".to_owned(),
        }
    }
}

/// Whether `s` holds a NUL character, which a C string cannot carry.
pub open spec fn has_nul(s: Seq<char>) -> bool {
    exists|i: int| 0 <= i < s.len() && s[i] == '\0'
}

/// The environment of the container's process.
pub open spec fn container_env() -> Seq<Seq<char>> {
    seq![
        "PATH=/bin:/usr/bin:/sbin:/usr/sbin:/usr/local/bin"@,
        "HOME=/root"@,
        "TERM=xterm-256color"@,
    ]
}

/// The program, argument vector and environment of the container's process.
#[derive(Debug, PartialEq, Eq)]
pub struct ExecPlan {
    /// The program, looked up on the `PATH` of `env`.
    pub program: String,
    /// The argument vector: the program, then its arguments.
    pub argv: Vec<String>,
    /// The environment, `NAME=value` entries.
    pub env: Vec<String>,
}

fn contains_nul(s: &str) -> (b: bool)
    ensures
        b == has_nul(s@),
{
    let v = crate::text::chars_of(s);
    let mut i: usize = 0;
    while i < v.len()
        invariant
            i <= v@.len(),
            v@ == s@,
            forall|k: int| 0 <= k < i ==> v@[k] != '\0',
        decreases v.len() - i,
    {
        if v[i] == '\0' {
            return true;
        }
        i = i + 1;
    }
    false
}

/// What executing `cmd` with `args` gives: a NUL in the command refuses
/// the command, then a NUL in any argument refuses the arguments; otherwise
/// the command is run with itself followed by the arguments as argument
/// vector, in the container's environment.
pub open spec fn exec_result(cmd: Seq<char>, args: Seq<String>, r: Result<ExecPlan, ExecError>) -> bool {
    &&& has_nul(cmd) ==> r == Err::<ExecPlan, ExecError>(ExecError::InvalidCommand)
    &&& !has_nul(cmd) && (exists|i: int| 0 <= i < args.len() && has_nul(#[trigger] args[i]@))
        ==> r == Err::<ExecPlan, ExecError>(ExecError::InvalidArgument)
    &&& !has_nul(cmd) && (forall|i: int| 0 <= i < args.len() ==> !has_nul(#[trigger] args[i]@))
        ==> (r matches Ok(p) && p.program@ == cmd && views(p.argv@) == seq![cmd] + views(args)
        && views(p.env@) == container_env())
}

/// Only a NUL character makes a command or an argument unusable: a command
/// and arguments free of `'\0'` are executed with the command followed by
/// the arguments as argument vector, and a refusal always points at a `'\0'`.
pub proof fn lemma_exec_refuses_only_nul(
    cmd: Seq<char>,
    args: Seq<String>,
    r: Result<ExecPlan, ExecError>,
)
    requires
        exec_result(cmd, args, r),
    ensures
        (forall|i: int| 0 <= i < cmd.len() ==> cmd[i] != '\0') && (forall|j: int, i: int|
            0 <= j < args.len() && 0 <= i < args[j]@.len() ==> #[trigger] args[j]@[i] != '\0')
            ==> (r matches Ok(p) && p.program@ == cmd && views(p.argv@) == seq![cmd] + views(args)),
        r == Err::<ExecPlan, ExecError>(ExecError::InvalidCommand) ==> exists|i: int|
            0 <= i < cmd.len() && cmd[i] == '\0',
        r == Err::<ExecPlan, ExecError>(ExecError::InvalidArgument) ==> exists|j: int, i: int|
            0 <= j < args.len() && 0 <= i < args[j]@.len() && #[trigger] args[j]@[i] == '\0',
{
    if (forall|i: int| 0 <= i < cmd.len() ==> cmd[i] != '\0') && (forall|j: int, i: int|
        0 <= j < args.len() && 0 <= i < args[j]@.len() ==> #[trigger] args[j]@[i] != '\0') {
        assert(!has_nul(cmd));
        assert forall|j: int| 0 <= j < args.len() implies !has_nul(#[trigger] args[j]@) by {
            if has_nul(args[j]@) {
                let i = choose|i: int| 0 <= i < args[j]@.len() && args[j]@[i] == '\0';
                assert(args[j]@[i] != '\0');
            }
        }
    }
    if r == Err::<ExecPlan, ExecError>(ExecError::InvalidArgument) {
        assert(!has_nul(cmd) ==> exists|j: int| 0 <= j < args.len() && has_nul(#[trigger] args[j]@));
        if !has_nul(cmd) {
            let j = choose|j: int| 0 <= j < args.len() && has_nul(#[trigger] args[j]@);
            let i = choose|i: int| 0 <= i < args[j]@.len() && args[j]@[i] == '\0';
            assert(args[j]@[i] == '\0');
        }
    }
}

/// How `cmd` with `args` is executed: the command must carry no NUL, then
/// each argument in turn must carry none; the argument vector is the
/// command followed by the arguments, and the environment is `PATH`,
/// `HOME` and `TERM` only.
pub fn exec_command(cmd: &str, args: &Vec<String>) -> (r: Result<ExecPlan, ExecError>)
    ensures
        has_nul(cmd@) ==> r == Err::<ExecPlan, ExecError>(ExecError::InvalidCommand),
        !has_nul(cmd@) && (exists|i: int| 0 <= i < args@.len() && has_nul(#[trigger] args@[i]@))
            ==> r == Err::<ExecPlan, ExecError>(ExecError::InvalidArgument),
        !has_nul(cmd@) && (forall|i: int| 0 <= i < args@.len() ==> !has_nul(#[trigger] args@[i]@))
            ==> (r matches Ok(p) && p.program@ == cmd@ && views(p.argv@) == seq![cmd@] + views(
            args@,
        ) && views(p.env@) == container_env()),
        exec_result(cmd@, args@, r),
{
    if contains_nul(cmd) {
        return Err(ExecError::InvalidCommand);
    }
    let mut argv: Vec<String> = Vec::new();
    argv.push(cmd.to_owned());
    let mut i: usize = 0;
    while i < args.len()
        invariant
            i <= args@.len(),
            !has_nul(cmd@),
            views(argv@) == seq![cmd@] + views(args@.take(i as int)),
            forall|k: int| 0 <= k < i ==> !has_nul(#[trigger] args@[k]@),
        decreases args.len() - i,
    {
        if contains_nul(args[i].as_str()) {
            return Err(ExecError::InvalidArgument);
        }
        let ghost before = argv@;
        argv.push(args[i].clone());
        assert(views(argv@) =~= views(before).push(args@[i as int]@));
        assert(views(args@.take(i as int + 1)) =~= views(args@.take(i as int)).push(
            args@[i as int]@,
        ));
        assert(views(argv@) =~= seq![cmd@] + views(args@.take(i as int + 1)));
        i = i + 1;
    }
    assert(args@.take(args@.len() as int) =~= args@);
    let mut env: Vec<String> = Vec::new();
    env.push("PATH=/bin:/usr/bin:/sbin:/usr/sbin:/usr/local/bin".to_owned());
    env.push("HOME=/root".to_owned());
    env.push("TERM=xterm-256color".to_owned());
    assert(views(env@) =~= container_env());
    Ok(ExecPlan { program: cmd.to_owned(), argv, env })
}

} // verus!
