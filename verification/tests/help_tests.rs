use lib::help::{help_reply, same_text, HelpReply, EXIT_HELP, INIT_HELP, WC_HELP};

#[test]
fn usage_without_topic() {
    assert_eq!(help_reply(&[]), HelpReply::Usage);
    assert_eq!(help_reply(&["help"]), HelpReply::Usage);
}

#[test]
fn known_topics() {
    assert_eq!(help_reply(&["help", "init"]), HelpReply::Topic(INIT_HELP));
    assert_eq!(help_reply(&["help", "wc", "extra"]), HelpReply::Topic(WC_HELP));
    match help_reply(&["help", "exit"]) {
        HelpReply::Topic(t) => {
            assert_eq!(t, EXIT_HELP);
            assert!(t.starts_with("[exit] \n| Exit the shell."));
        }
        other => panic!("unexpected {:?}", other),
    }
    let topics = ["init", "help", "info", "echo", "clear", "ptest", "waittest", "exectest", "wc", "tetris", "exit"];
    for t in topics {
        match help_reply(&["help", t]) {
            HelpReply::Topic(text) => assert!(text.starts_with(&format!("[{}] \n| ", t))),
            other => panic!("unexpected {:?} for {}", other, t),
        }
    }
}

#[test]
fn unknown_topics() {
    assert_eq!(help_reply(&["help", "ls"]), HelpReply::Unknown);
    assert_eq!(help_reply(&["help", "Init"]), HelpReply::Unknown);
    assert_eq!(help_reply(&["help", ""]), HelpReply::Unknown);
}

#[test]
fn same_text_compares_bytes() {
    assert!(same_text("abc", "abc"));
    assert!(same_text("", ""));
    assert!(!same_text("abc", "abd"));
    assert!(!same_text("abc", "ab"));
}
