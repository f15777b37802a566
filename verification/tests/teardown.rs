use pipeshare::audio::AudioRoute;
use pipeshare::command::{CommandError, CommandReply, Program, Request};
use pipeshare::teardown::{cleanup_all, destroy_audio_route, Cleanup};

fn printed(text: &str) -> CommandReply {
    CommandReply::Finished { success: true, stdout: text.as_bytes().to_vec(), stderr: Vec::new() }
}

fn missing() -> CommandReply {
    CommandReply::NotStarted { reason: "No such file or directory".to_string() }
}

fn route(module_ids: Vec<u32>) -> AudioRoute {
    AudioRoute {
        module_ids,
        target_apps: vec!["Firefox".to_string()],
        previous_default_source: Some("old".to_string()),
    }
}

fn take_down(module_ids: Vec<u32>, reply: impl Fn(&str) -> CommandReply) -> Vec<String> {
    let mut commands = Vec::new();
    let mut teardown = destroy_audio_route(&route(module_ids));
    loop {
        match teardown.request() {
            Request::Run { program, args } => {
                assert_eq!(program, Program::Pactl);
                let line = args.join(" ");
                teardown.resume(&reply(&line));
                commands.push(line);
            }
            Request::RunEach { program, runs } => {
                assert_eq!(program, Program::Pactl);
                commands.extend(runs.iter().map(|args| args.join(" ")));
                teardown.proceed();
            }
            Request::Finished => return commands,
            other => panic!("{:?}", other),
        }
    }
}

const OUTPUTS: &str = "Source Output #9\n\tnode.target = \"PipeShare_Mic\"\n\
Source Output #10\n\tapplication.name = \"Element\"\n\
Source Output #11\n\tmedia.name = \"pipeshare\"\n";

fn working(line: &str) -> CommandReply {
    match line {
        "info" => printed("Default Source: alsa_input.usb\n"),
        "list source-outputs" => printed(OUTPUTS),
        _ => panic!("{}", line),
    }
}

#[test]
fn streams_go_back_before_modules_go() {
    assert_eq!(
        take_down(vec![101, 102, 4294967295], working),
        [
            "info",
            "list source-outputs",
            "move-source-output 9 alsa_input.usb",
            "move-source-output 11 alsa_input.usb",
            "unload-module 4294967295",
            "unload-module 102",
            "unload-module 101",
        ]
    );
}

#[test]
fn modules_go_though_the_streams_cannot_be_given_back() {
    assert_eq!(take_down(vec![1, 2], |_| missing()), ["info", "unload-module 2", "unload-module 1"]);
    let commands = take_down(vec![1], |line| match line {
        "info" => working(line),
        _ => missing(),
    });
    assert_eq!(commands, ["info", "list source-outputs", "unload-module 1"]);
}

#[test]
fn a_route_without_modules_is_gone_at_once() {
    assert_eq!(take_down(vec![], |_| missing()), ["info"]);
}

fn clean(
    reply: impl Fn(&str) -> CommandReply,
) -> (Vec<String>, Option<Result<u32, CommandError>>) {
    let mut commands = Vec::new();
    let mut cleanup: Cleanup = cleanup_all();
    loop {
        match cleanup.request() {
            Request::Run { program, args } => {
                assert_eq!(program, Program::Pactl);
                let line = args.join(" ");
                cleanup.resume(&reply(&line));
                commands.push(line);
            }
            Request::RunEach { runs, .. } => {
                commands.extend(runs.iter().map(|args| args.join(" ")));
                cleanup.proceed();
            }
            Request::Finished => return (commands, cleanup.outcome()),
            other => panic!("{:?}", other),
        }
    }
}

const MODULES: &str = "1\tmodule-x\n7\tmodule-null-sink\tsink_name=PipeShare_Mix\n\
9\tmodule-loopback\tsource=PipeShare_AppSink.monitor\n";

const SOURCES: &str = "5\tPipeShare_Mic\n6\talsa_input.usb\tPipeWire\n";

#[test]
fn everything_is_removed_and_counted() {
    let (commands, outcome) = clean(|line| match line {
        "list modules short" => printed(MODULES),
        "list sources short" => printed(SOURCES),
        _ => panic!("{}", line),
    });
    assert_eq!(
        commands,
        [
            "list modules short",
            "unload-module 7",
            "unload-module 9",
            "list sources short",
            "set-default-source alsa_input.usb",
        ]
    );
    assert_eq!(outcome.unwrap().unwrap(), 2);
}

#[test]
fn without_a_real_microphone_no_default_is_set() {
    let (commands, outcome) = clean(|_| printed("5\tPipeShare_Mic\n"));
    assert_eq!(commands, ["list modules short", "unload-module 5", "list sources short"]);
    assert_eq!(outcome.unwrap().unwrap(), 1);
}

#[test]
fn a_listing_counts_though_the_program_failed() {
    let (commands, outcome) = clean(|line| CommandReply::Finished {
        success: false,
        stdout: if line == "list modules short" { MODULES.as_bytes().to_vec() } else { Vec::new() },
        stderr: b"error".to_vec(),
    });
    assert_eq!(commands.len(), 4);
    assert_eq!(outcome.unwrap().unwrap(), 2);
}

#[test]
fn a_listing_that_cannot_be_had_is_an_error() {
    let (commands, outcome) = clean(|_| missing());
    assert_eq!(commands, ["list modules short"]);
    assert_eq!(outcome.unwrap().unwrap_err().message(), "No such file or directory");
    let (commands, outcome) = clean(|line| match line {
        "list modules short" => printed(MODULES),
        _ => missing(),
    });
    assert_eq!(commands.len(), 4);
    assert!(outcome.unwrap().is_err());
}

#[test]
fn a_removal_in_progress_has_no_outcome() {
    let mut cleanup = cleanup_all();
    cleanup.accept(Ok(String::new()));
    assert!(cleanup.outcome().is_none());
}

#[test]
fn no_stream_is_moved_to_an_empty_device() {
    let commands = take_down(vec![1], |line| match line {
        "info" => printed("Default Source:\n"),
        _ => working(line),
    });
    assert_eq!(commands, ["info", "unload-module 1"]);
}
