use pipeshare::command::{
    judge_pactl, judge_pw_link, printed_text, run_pactl, run_pw_link, CommandError, CommandReply,
    Program,
};

fn finished(success: bool, stdout: &[u8], stderr: &[u8]) -> CommandReply {
    CommandReply::Finished { success, stdout: stdout.to_vec(), stderr: stderr.to_vec() }
}

fn not_started() -> CommandReply {
    CommandReply::NotStarted { reason: "No such file or directory (os error 2)".to_string() }
}

#[test]
fn programs_have_their_names() {
    assert_eq!(Program::Pactl.name(), "pactl");
    assert_eq!(Program::PwLink.name(), "pw-link");
    assert_eq!(Program::Kdialog.name(), "kdialog");
    assert_eq!(Program::Zenity.name(), "zenity");
}

#[test]
fn a_success_gives_what_was_printed() {
    assert_eq!(run_pactl(&finished(true, b"42\n", b"warning")).unwrap(), "42\n");
    assert_eq!(run_pw_link(&finished(true, b"a:b\n", b"")).unwrap(), "a:b\n");
}

#[test]
fn bytes_that_are_no_text_are_replaced() {
    assert_eq!(run_pactl(&finished(true, b"a\xffb", b"")).unwrap(), "a\u{fffd}b");
    assert_eq!(run_pactl(&finished(true, "Grüße".as_bytes(), b"")).unwrap(), "Grüße");
    assert_eq!(printed_text(&finished(false, b"\xc3", b"")).unwrap(), "\u{fffd}");
}

#[test]
fn a_refusal_gives_the_trimmed_complaint() {
    let error = run_pactl(&finished(false, b"x", b" Failure: No such entity \n")).unwrap_err();
    assert_eq!(error.message(), "pactl error: Failure: No such entity");
    assert!(matches!(error, CommandError::Refused { program: Program::Pactl, .. }));
    let error = run_pw_link(&finished(false, b"", b"failed to link ports: Invalid argument\n"));
    assert_eq!(
        error.unwrap_err().message(),
        "pw-link error: failed to link ports: Invalid argument"
    );
}

#[test]
fn a_link_that_is_there_already_is_no_failure() {
    let reply = finished(false, b"ignored", b"failed to link ports: already linked\n");
    assert_eq!(run_pw_link(&reply).unwrap(), "");
    assert!(run_pactl(&reply).is_err());
}

#[test]
fn a_program_that_is_missing_gives_an_error() {
    assert_eq!(
        run_pactl(&not_started()).unwrap_err().message(),
        "Failed to execute pactl command"
    );
    assert_eq!(
        run_pw_link(&not_started()).unwrap_err().message(),
        "Failed to execute pw-link command"
    );
    assert_eq!(
        printed_text(&not_started()).unwrap_err().message(),
        "No such file or directory (os error 2)"
    );
}

#[test]
fn what_was_printed_counts_without_success_too() {
    assert_eq!(printed_text(&finished(false, b"1\tmodule\n", b"no")).unwrap(), "1\tmodule\n");
}

#[test]
fn texts_are_judged_as_replies_are() {
    assert_eq!(judge_pactl(true, "7".to_string(), "no").unwrap(), "7");
    assert_eq!(
        judge_pactl(false, "7".to_string(), " no ").unwrap_err().message(),
        "pactl error: no"
    );
    assert_eq!(judge_pw_link(false, "7".to_string(), "x already linked y").unwrap(), "");
    assert_eq!(
        judge_pw_link(false, String::new(), "no\n").unwrap_err().message(),
        "pw-link error: no"
    );
}

#[test]
fn missing_devices_have_their_messages() {
    assert_eq!(CommandError::NoDefaultSource.message(), "Default audio source not found");
    assert_eq!(CommandError::NoDefaultSink.message(), "Default audio sink not found");
}
