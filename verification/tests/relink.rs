use pipeshare::command::{CommandReply, Program, Request};
use pipeshare::relink::{link_app_to_mix, relink_app_to_mix};

fn printed(text: &str) -> CommandReply {
    CommandReply::Finished { success: true, stdout: text.as_bytes().to_vec(), stderr: Vec::new() }
}

fn missing() -> CommandReply {
    CommandReply::NotStarted { reason: "gone".to_string() }
}

fn single(request: Request) -> (Program, String) {
    match request {
        Request::Run { program, args } => (program, args.join(" ")),
        other => panic!("{:?}", other),
    }
}

fn several(request: Request) -> (Program, Vec<String>) {
    match request {
        Request::RunEach { program, runs } => {
            (program, runs.iter().map(|args| args.join(" ")).collect())
        }
        other => panic!("{:?}", other),
    }
}

#[test]
fn an_application_is_moved_to_the_sink_again() {
    let mut relink = relink_app_to_mix("Firefox");
    assert_eq!(single(relink.request()), (Program::Pactl, "list sink-inputs".to_string()));
    relink.resume(&printed(
        "Sink Input #4\n\tnode.name = \"firefox-bin\"\nSink Input #5\n\tnode.name = \"mpv\"\n",
    ));
    let moves = vec!["move-sink-input 4 PipeShare_AppSink".to_string()];
    assert_eq!(several(relink.request()), (Program::Pactl, moves));
    relink.proceed();
    assert!(matches!(relink.request(), Request::Finished));
}

#[test]
fn streams_that_cannot_be_listed_are_not_moved() {
    let mut relink = relink_app_to_mix("Firefox");
    relink.resume(&missing());
    assert!(matches!(relink.request(), Request::Finished));
}

#[test]
fn ports_are_linked_to_the_mix() {
    let mut link = link_app_to_mix("Firefox");
    assert_eq!(single(link.request()), (Program::PwLink, "-o".to_string()));
    link.resume(&printed("Firefox:output_FL\nFirefox:output_FR\nmpv:output_FL\n"));
    let links = vec![
        "Firefox:output_FL PipeShare_Mix:playback_FL".to_string(),
        "Firefox:output_FR PipeShare_Mix:playback_FR".to_string(),
    ];
    assert_eq!(several(link.request()), (Program::PwLink, links));
    link.proceed();
    assert!(matches!(link.request(), Request::Finished));
    assert!(link.outcome().unwrap().is_ok());
}

#[test]
fn an_application_without_ports_is_not_linked() {
    let mut link = link_app_to_mix("vlc");
    link.resume(&printed("Firefox:output_FL\n"));
    assert!(matches!(link.request(), Request::Finished));
    assert!(link.outcome().unwrap().is_ok());
}

#[test]
fn ports_that_cannot_be_listed_are_an_error() {
    let mut link = link_app_to_mix("vlc");
    link.resume(&missing());
    assert!(matches!(link.request(), Request::Finished));
    assert_eq!(
        link.outcome().unwrap().unwrap_err().message(),
        "Failed to execute pw-link command"
    );
    assert!(link_app_to_mix("vlc").outcome().is_none());
}
