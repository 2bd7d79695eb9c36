//! The `help` program: which text it shows for its arguments.

use vstd::prelude::*;
use crate::shell::text_bytes;

verus! {

pub const INIT_HELP: &'static str = "[init] \n| The initial program that is spawned by the kernel. It spawns the shell, \n| and any other programs needed. Orphan processes are reparented to this \n| program and it reaps them continuously. ";

pub const HELP_HELP: &'static str = "[help] \n| You are using this right now. It shows help information for commands and programs ";

pub const INFO_HELP: &'static str = "[info] \n| Display information about the operating system. Inspired by Linux's `fastfetch`. ";

pub const ECHO_HELP: &'static str = "[echo] \n| Display a line of text. Simply writes back arguments given to it. ";

pub const CLEAR_HELP: &'static str = "[clear] \n| Clear the terminal screen. ";

pub const PTEST_HELP: &'static str = "[ptest] \n| A test program for process management. Tests forking, execution, waiting, \n| and termination. It spawns `waittest` and `exectest` programs as well. ";

pub const WAITTEST_HELP: &'static str = "[waittest] \n| A test program for waiting on child processes. Tests the wait() syscall ";

pub const EXECTEST_HELP: &'static str = "[exectest] \n| A test program for executing other programs. Tests the exec() syscall ";

pub const WC_HELP: &'static str = "[wc] \n| Count lines, words, and bytes in input. ";

pub const TETRIS_HELP: &'static str = "[tetris] \n| Play a game of Tetris on AtOS! ";

pub const EXIT_HELP: &'static str = "[exit] \n| Exit the shell. This command is implemented in the shell itself, not as \n| a separate program. ";

/// What `help` shows.
#[derive(Clone, Copy, PartialEq, Eq, Debug)]
pub enum HelpReply {
    /// No topic given: the usage, the list of programs and the command syntax.
    Usage,
    /// The description of the topic asked for.
    Topic(&'static str),
    /// A topic `help` does not know.
    Unknown,
}

/// The description of a topic, by the topic's bytes.
pub open spec fn help_topic_text(topic: Seq<u8>) -> Option<Seq<u8>> {
    if topic == text_bytes("init") {
        Some(text_bytes(INIT_HELP))
    } else if topic == text_bytes("help") {
        Some(text_bytes(HELP_HELP))
    } else if topic == text_bytes("info") {
        Some(text_bytes(INFO_HELP))
    } else if topic == text_bytes("echo") {
        Some(text_bytes(ECHO_HELP))
    } else if topic == text_bytes("clear") {
        Some(text_bytes(CLEAR_HELP))
    } else if topic == text_bytes("ptest") {
        Some(text_bytes(PTEST_HELP))
    } else if topic == text_bytes("waittest") {
        Some(text_bytes(WAITTEST_HELP))
    } else if topic == text_bytes("exectest") {
        Some(text_bytes(EXECTEST_HELP))
    } else if topic == text_bytes("wc") {
        Some(text_bytes(WC_HELP))
    } else if topic == text_bytes("tetris") {
        Some(text_bytes(TETRIS_HELP))
    } else if topic == text_bytes("exit") {
        Some(text_bytes(EXIT_HELP))
    } else {
        None
    }
}

/// Whether two texts are the same bytes.
pub fn same_text(a: &str, b: &str) -> (same: bool)
    ensures
        same == (text_bytes(a) == text_bytes(b)),
{
    let x = a.as_bytes();
    let y = b.as_bytes();
    if x.len() != y.len() {
        return false;
    }
    let mut i: usize = 0;
    while i < x.len()
        invariant
            x@ == text_bytes(a),
            y@ == text_bytes(b),
            x@.len() == y@.len(),
            i <= x@.len(),
            forall|k: int| 0 <= k < i ==> x@[k] == y@[k],
        decreases x.len() - i,
    {
        if x[i] != y[i] {
            return false;
        }
        i = i + 1;
    }
    assert(x@ =~= y@);
    true
}

/// What `help` shows for its arguments (the program name first, then the
/// topic, if any).
pub fn help_reply(args: &[&str]) -> (reply: HelpReply)
    ensures
        args@.len() < 2 ==> reply is Usage,
        args@.len() >= 2 ==> match help_topic_text(text_bytes(args@[1])) {
            Some(t) => reply matches HelpReply::Topic(s) && text_bytes(s) == t,
            None => reply is Unknown,
        },
{
    if args.len() < 2 {
        return HelpReply::Usage;
    }
    let topic = args[1];
    if same_text(topic, "init") {
        HelpReply::Topic(INIT_HELP)
    } else if same_text(topic, "help") {
        HelpReply::Topic(HELP_HELP)
    } else if same_text(topic, "info") {
        HelpReply::Topic(INFO_HELP)
    } else if same_text(topic, "echo") {
        HelpReply::Topic(ECHO_HELP)
    } else if same_text(topic, "clear") {
        HelpReply::Topic(CLEAR_HELP)
    } else if same_text(topic, "ptest") {
        HelpReply::Topic(PTEST_HELP)
    } else if same_text(topic, "waittest") {
        HelpReply::Topic(WAITTEST_HELP)
    } else if same_text(topic, "exectest") {
        HelpReply::Topic(EXECTEST_HELP)
    } else if same_text(topic, "wc") {
        HelpReply::Topic(WC_HELP)
    } else if same_text(topic, "tetris") {
        HelpReply::Topic(TETRIS_HELP)
    } else if same_text(topic, "exit") {
        HelpReply::Topic(EXIT_HELP)
    } else {
        HelpReply::Unknown
    }
}

} // verus!
