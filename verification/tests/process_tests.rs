use lib::process::{command_launch, command_step, is_exit, spawn, CommandStep, Launch, SpawnStep};

#[test]
fn spawn_steps() {
    assert_eq!(spawn(Ok(0)), SpawnStep::Exec);
    assert_eq!(spawn(Ok(7)), SpawnStep::Wait(7));
    assert_eq!(spawn(Err(())), SpawnStep::Fail("fork failed"));
}

#[test]
fn command_steps() {
    assert_eq!(command_step(Ok(0), false), CommandStep::Exec);
    assert_eq!(command_step(Ok(0), true), CommandStep::Exec);
    assert_eq!(command_step(Ok(3), true), CommandStep::Announce(3));
    assert_eq!(command_step(Ok(3), false), CommandStep::Wait(3));
    assert_eq!(command_step(Err(()), false), CommandStep::ForkFailed);
}

#[test]
fn exit_builtin() {
    assert!(is_exit("exit"));
    assert!(!is_exit("exi"));
    assert!(!is_exit("exit2"));
    assert!(!is_exit("Exit"));
    assert!(!is_exit(""));
}

#[test]
fn command_launches() {
    assert_eq!(command_launch(&vec![]), Launch::Nothing);
    assert_eq!(command_launch(&vec!["exit"]), Launch::Exit);
    assert_eq!(command_launch(&vec!["exit", "3"]), Launch::Exit);
    assert_eq!(command_launch(&vec!["ls"]), Launch::Run("ls", vec![]));
    assert_eq!(command_launch(&vec!["echo", "a b", "c"]), Launch::Run("echo", vec!["a b", "c"]));
}
