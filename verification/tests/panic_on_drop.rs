use std::borrow::Cow;

use tokio_process_tools::{DropAction, PanicOnDrop};

fn guard(error_msg: &'static str, help_msg: &'static str) -> PanicOnDrop {
    PanicOnDrop::new(
        Cow::Borrowed("ResourceX"),
        Cow::Borrowed(error_msg),
        Cow::Borrowed(help_msg),
    )
}

#[test]
fn armed_drop_panics_with_expected_message() {
    let guard = guard("must be defused", "call defuse()");
    let DropAction::Panic(message) = guard.on_drop(false, "<trace>") else {
        panic!("an armed guard panics");
    };
    assert!(message.contains("ResourceX"));
    assert!(message.contains("must be defused"));
    assert!(message.contains("call defuse()"));
    assert_eq!(
        message,
        "Resource 'ResourceX' should not have been dropped at this point!\n\n\
         Err: must be defused\n\nHelp: call defuse()\n\nBacktrace: <trace>"
    );
}

#[test]
fn defused_drop_does_not_panic() {
    let mut guard = guard("err", "help");
    assert!(guard.is_armed());
    guard.defuse();
    assert!(!guard.is_armed());
    assert_eq!(guard.on_drop(false, ""), DropAction::Nothing);
    assert_eq!(guard.on_drop(true, ""), DropAction::Nothing);
}

#[test]
fn defuse_is_idempotent() {
    let mut guard = guard("err", "help");
    guard.defuse();
    guard.defuse();
    assert!(!guard.is_armed());
}

#[test]
fn drop_during_panic_suppresses_secondary_panic() {
    let guard = guard("must be defused", "call defuse()");
    let DropAction::Warn(message) = guard.on_drop(true, "<trace>") else {
        panic!("a thread that already panics must not panic again");
    };
    assert_eq!(DropAction::Panic(message), guard.on_drop(false, "<trace>"));
}
