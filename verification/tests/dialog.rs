use pipeshare::command::{CommandReply, Program, Request};
use pipeshare::dialog::{notify_command, read_kdialog, read_zenity};
use pipeshare::prompt::{ask_user_for_audio_source, AudioPrompt};

const PORTS: &str = "Firefox:output_FL\nGoogle Chrome:output_FL\n";

fn printed(text: &str) -> CommandReply {
    CommandReply::Finished { success: true, stdout: text.as_bytes().to_vec(), stderr: Vec::new() }
}

fn closed() -> CommandReply {
    CommandReply::Finished { success: false, stdout: b"\"x\"".to_vec(), stderr: Vec::new() }
}

fn missing() -> CommandReply {
    CommandReply::NotStarted { reason: "No such file or directory".to_string() }
}

fn asked(prompt: &AudioPrompt) -> (Program, Vec<String>) {
    match prompt.request() {
        Request::Run { program, args } => (program, args),
        other => panic!("{:?}", other),
    }
}

fn prompt_with_sources() -> AudioPrompt {
    let mut prompt = ask_user_for_audio_source();
    assert_eq!(asked(&prompt), (Program::PwLink, vec!["-o".to_string()]));
    prompt.resume(&printed(PORTS));
    prompt
}

#[test]
fn quoted_names_are_read_with_their_spaces() {
    assert_eq!(
        read_kdialog("\"Google Chrome\" \"Firefox\" \n").unwrap(),
        ["Google Chrome", "Firefox"]
    );
    assert_eq!(read_kdialog("\" a \"\"b\"").unwrap(), [" a ", "b"]);
    assert_eq!(read_kdialog("\"a\" \"open").unwrap(), ["a"]);
    assert_eq!(read_kdialog("\"  \" \"a\"").unwrap(), ["a"]);
}

#[test]
fn lines_are_read_where_nothing_is_quoted() {
    assert_eq!(read_kdialog(" Firefox \n\n Google Chrome\n").unwrap(), ["Firefox", "Google Chrome"]);
}

#[test]
fn quotation_marks_around_nothing_are_no_choice() {
    assert!(read_kdialog("\"\"\n").is_none());
    assert!(read_kdialog("\" \" \"\"").is_none());
}

#[test]
fn a_single_quotation_mark_quotes_nothing() {
    assert_eq!(read_kdialog("Bob\"s Player\n").unwrap(), ["Bob\"s Player"]);
    assert_eq!(read_kdialog("\"open").unwrap(), ["\"open"]);
    assert_eq!(read_kdialog("Firefox\nBob\"s Player\n").unwrap(), ["Firefox", "Bob\"s Player"]);
}

#[test]
fn an_empty_answer_is_no_choice() {
    assert!(read_kdialog("").is_none());
    assert!(read_kdialog(" \n ").is_none());
    assert!(read_zenity("").is_none());
    assert!(read_zenity(" \n").is_none());
}

#[test]
fn lines_are_read_from_zenity() {
    assert_eq!(read_zenity("Firefox\nmpv\n").unwrap(), ["Firefox", "mpv"]);
    assert_eq!(read_zenity("Google Chrome\n").unwrap(), ["Google Chrome"]);
    assert_eq!(read_zenity("Google Chrome\n\n mpv").unwrap(), ["Google Chrome", "mpv"]);
}

#[test]
fn a_message_has_its_arguments() {
    assert_eq!(
        notify_command("Title", "Body text"),
        ["--app-name=PipeShare", "--icon=audio-card", "--urgency=normal", "Title", "Body text"]
    );
}

#[test]
fn kdialog_is_asked_first() {
    let mut prompt = prompt_with_sources();
    let (program, args) = asked(&prompt);
    assert_eq!(program, Program::Kdialog);
    assert_eq!(
        args,
        [
            "--checklist",
            "Screen share detected!\nPlease specify the application audio sources to share.",
            "Firefox",
            "Firefox",
            "on",
            "Google Chrome",
            "Google Chrome",
            "on",
            "--title",
            "PipeShare — Audio Link",
        ]
    );
    prompt.resume(&printed("\"Google Chrome\"\n"));
    assert!(matches!(prompt.request(), Request::Finished));
    assert_eq!(prompt.outcome().unwrap().unwrap().unwrap(), ["Google Chrome"]);
}

#[test]
fn zenity_is_asked_where_kdialog_is_missing() {
    let mut prompt = prompt_with_sources();
    prompt.resume(&missing());
    let (program, args) = asked(&prompt);
    assert_eq!(program, Program::Zenity);
    assert_eq!(
        args,
        [
            "--list",
            "--checklist",
            "--title=PipeShare — Audio Link",
            "--text=Please select applications to capture:",
            "--column=",
            "--column=Application",
            "--separator=\n",
            "TRUE",
            "Firefox",
            "TRUE",
            "Google Chrome",
        ]
    );
    prompt.resume(&printed("Google Chrome\nFirefox\n"));
    assert_eq!(prompt.outcome().unwrap().unwrap().unwrap(), ["Google Chrome", "Firefox"]);
}

#[test]
fn a_dialog_that_is_closed_is_no_choice() {
    let mut prompt = prompt_with_sources();
    prompt.resume(&closed());
    assert!(prompt.outcome().unwrap().unwrap().is_none());
    let mut prompt = prompt_with_sources();
    prompt.resume(&missing());
    prompt.resume(&closed());
    assert!(prompt.outcome().unwrap().unwrap().is_none());
}

#[test]
fn without_any_dialog_the_prompt_fails() {
    let mut prompt = prompt_with_sources();
    prompt.resume(&missing());
    prompt.resume(&missing());
    assert!(matches!(prompt.request(), Request::Finished));
    assert_eq!(prompt.outcome().unwrap().unwrap_err().message(), "No such file or directory");
}

#[test]
fn without_sources_the_user_is_told() {
    let mut prompt = ask_user_for_audio_source();
    prompt.resume(&printed("PipeShare_Mix:output_FL\n"));
    match prompt.request() {
        Request::Notify { title, body } => {
            assert_eq!(title, "PipeShare");
            assert_eq!(
                body,
                "No audio-producing applications were located. Start video playback in a browser first."
            );
        }
        other => panic!("{:?}", other),
    }
    prompt.proceed();
    assert!(prompt.outcome().unwrap().unwrap().is_none());
}

#[test]
fn sources_that_cannot_be_listed_fail_the_prompt() {
    let mut prompt = ask_user_for_audio_source();
    prompt.resume(&missing());
    assert_eq!(
        prompt.outcome().unwrap().unwrap_err().message(),
        "Failed to execute pw-link command"
    );
    assert!(ask_user_for_audio_source().outcome().is_none());
}
