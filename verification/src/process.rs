//! Decisions the shell and the user library take around `fork`, `exec` and
//! `wait`; the system calls themselves are made by the caller.

use vstd::prelude::*;
use crate::shell::text_bytes;

verus! {

/// What `spawn` does once `fork` has returned.
#[derive(Clone, Copy, PartialEq, Eq, Debug)]
pub enum SpawnStep {
    /// In the child: replace the process with the program (an `exec` error
    /// is the result of `spawn`).
    Exec,
    /// In the parent: wait for this child (a `wait` error is the result of
    /// `spawn`).
    Wait(usize),
    /// `fork` failed: `spawn` fails with this message.
    Fail(&'static str),
}

/// What running one shell command does once `fork` has returned.
#[derive(Clone, Copy, PartialEq, Eq, Structural, Debug)]
pub enum CommandStep {
    /// In the child: `exec` the program; if that fails, report that the
    /// command was not found and exit with status 1.
    Exec,
    /// In the parent of a background command: announce `[pid] program`.
    Announce(usize),
    /// In the parent of a foreground command: wait for this child.
    Wait(usize),
    /// `fork` failed: report it.
    ForkFailed,
}

/// What the shell does with the words of one command before it forks.
#[derive(PartialEq, Eq, Debug)]
pub enum Launch<'a> {
    /// An empty command: nothing.
    Nothing,
    /// The built-in `exit`: leave the shell with status 0.
    Exit,
    /// Fork and run the program (the first word) with the other words as
    /// its arguments.
    Run(&'a str, Vec<&'a str>),
}

/// The bytes of `exit`.
pub open spec fn exit_bytes() -> Seq<u8> {
    seq![0x65u8, 0x78u8, 0x69u8, 0x74u8]
}

/// What the shell does with the words of a command, program name first.
pub fn command_launch<'a>(words: &Vec<&'a str>) -> (launch: Launch<'a>)
    ensures
        words@.len() == 0 ==> launch is Nothing,
        words@.len() > 0 && text_bytes(words@[0]) == exit_bytes() ==> launch is Exit,
        words@.len() > 0 && text_bytes(words@[0]) != exit_bytes() ==> (launch matches Launch::Run(
            program,
            args,
        ) && program == words@[0] && args@ == words@.subrange(1, words@.len() as int)),
{
    if words.len() == 0 {
        return Launch::Nothing;
    }
    let program = words[0];
    if is_exit(program) {
        return Launch::Exit;
    }
    let mut args: Vec<&'a str> = Vec::new();
    let mut i: usize = 1;
    while i < words.len()
        invariant
            1 <= i <= words@.len(),
            args@ == words@.subrange(1, i as int),
        decreases words.len() - i,
    {
        args.push(words[i]);
        i = i + 1;
        assert(args@ =~= words@.subrange(1, i as int));
    }
    Launch::Run(program, args)
}

/// Runs a program as a child and waits for it: the step after `fork`
/// returned `forked` (the child's pid in the parent, 0 in the child).
pub fn spawn(forked: Result<usize, ()>) -> (step: SpawnStep)
    ensures
        step == match forked {
            Ok(0) => SpawnStep::Exec,
            Ok(pid) => SpawnStep::Wait(pid),
            Err(_) => SpawnStep::Fail("fork failed"),
        },
{
    match forked {
        Ok(fc) => {
            if fc == 0 {
                SpawnStep::Exec
            } else {
                SpawnStep::Wait(fc)
            }
        },
        Err(_) => SpawnStep::Fail("fork failed"),
    }
}

/// The step of running a shell command after `fork` returned `forked`.
pub fn command_step(forked: Result<usize, ()>, background: bool) -> (step: CommandStep)
    ensures
        step == match forked {
            Ok(0) => CommandStep::Exec,
            Ok(pid) => if background {
                CommandStep::Announce(pid)
            } else {
                CommandStep::Wait(pid)
            },
            Err(_) => CommandStep::ForkFailed,
        },
{
    match forked {
        Ok(0) => CommandStep::Exec,
        Ok(pid) => {
            if background {
                CommandStep::Announce(pid)
            } else {
                CommandStep::Wait(pid)
            }
        },
        Err(_) => CommandStep::ForkFailed,
    }
}

/// Whether `program` is the shell's built-in `exit`.
pub fn is_exit(program: &str) -> (exit: bool)
    ensures
        exit == (text_bytes(program) == exit_bytes()),
{
    let b = program.as_bytes();
    let r = b.len() == 4 && b[0] == 0x65 && b[1] == 0x78 && b[2] == 0x69 && b[3] == 0x74;
    proof {
        if r {
            assert(b@ =~= seq![0x65u8, 0x78u8, 0x69u8, 0x74u8]);
        }
    }
    r
}

} // verus!
