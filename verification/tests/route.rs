use pipeshare::audio::AudioRoute;
use pipeshare::command::{CommandError, CommandReply, Program, Request};
use pipeshare::route::{create_audio_route, create_audio_route_single, RouteSetup};

/// What a set-up did: its commands, its pauses and its result.
struct Trace {
    commands: Vec<String>,
    pauses: Vec<u64>,
    result: Result<AudioRoute, CommandError>,
}

fn printed(text: &str) -> CommandReply {
    CommandReply::Finished { success: true, stdout: text.as_bytes().to_vec(), stderr: Vec::new() }
}

fn refused(text: &str) -> CommandReply {
    CommandReply::Finished { success: false, stdout: Vec::new(), stderr: text.as_bytes().to_vec() }
}

fn drive(mut setup: RouteSetup, reply: impl Fn(&str) -> CommandReply) -> Trace {
    let (mut commands, mut pauses) = (Vec::new(), Vec::new());
    loop {
        match setup.request() {
            Request::Run { program, args } => {
                assert_eq!(program, Program::Pactl);
                let line = args.join(" ");
                setup.resume(&reply(&line));
                commands.push(line);
            }
            Request::RunEach { program, runs } => {
                assert_eq!(program, Program::Pactl);
                commands.extend(runs.iter().map(|args| args.join(" ")));
                setup.proceed();
            }
            Request::Pause { millis } => {
                pauses.push(millis);
                setup.proceed();
            }
            Request::Notify { .. } => panic!("a set-up shows no message"),
            Request::Finished => break,
        }
    }
    Trace { commands, pauses, result: setup.outcome().unwrap() }
}

const INPUTS: &str = "Sink Input #7\n\tapplication.name = \"Firefox\"\n\
Sink Input #8\n\tapplication.name = \"mpv\"\n";

const OUTPUTS: &str = "Source Output #9\n\tapplication.name = \"Element\"\n";

fn working(line: &str) -> CommandReply {
    match line {
        "info" => printed("Default Source: alsa_input.usb\n"),
        "list sink-inputs" => printed(INPUTS),
        "list source-outputs" => printed(OUTPUTS),
        _ if line.contains("sink_name=PipeShare_AppSink") => printed("101\n"),
        _ if line.contains("sink_name=PipeShare_Mix") => printed("102\n"),
        _ if line.contains("module-remap-source") => printed("103\n"),
        _ if line.contains("source=alsa_input.usb") => printed("104\n"),
        _ if line.contains("source=PipeShare_AppSink.monitor sink=") => printed("105\n"),
        _ if line.contains("source=PipeShare_AppSink.monitor") => printed("106\n"),
        _ => panic!("{}", line),
    }
}

#[test]
fn a_route_is_set_up_step_by_step() {
    let apps = vec!["firefox".to_string(), "mpv".to_string()];
    let trace = drive(create_audio_route(&apps), working);
    assert_eq!(
        trace.commands,
        [
            "info",
            "load-module module-null-sink sink_name=PipeShare_AppSink sink_properties=\"device.description=PipeShare_AppSink device.class=filter node.virtual=true\" channel_map=stereo",
            "load-module module-null-sink sink_name=PipeShare_Mix sink_properties=\"device.description=PipeShare_Mix device.class=filter node.virtual=true\" channel_map=stereo",
            "load-module module-remap-source source_name=PipeShare_Mic master=PipeShare_Mix.monitor source_properties=\"device.description=PipeShare_Mic device.class=filter node.virtual=true\"",
            "load-module module-loopback source=alsa_input.usb sink=PipeShare_Mix latency_msec=30",
            "load-module module-loopback source=PipeShare_AppSink.monitor sink=PipeShare_Mix latency_msec=30",
            "load-module module-loopback source=PipeShare_AppSink.monitor latency_msec=30",
            "list sink-inputs",
            "move-sink-input 7 PipeShare_AppSink",
            "list sink-inputs",
            "move-sink-input 8 PipeShare_AppSink",
            "list source-outputs",
            "move-source-output 9 PipeShare_Mic.monitor",
        ]
    );
    assert_eq!(trace.pauses, [500, 300, 300]);
    let route = trace.result.unwrap();
    assert_eq!(route.module_ids, [101, 102, 103, 104, 105, 106]);
    assert_eq!(route.target_apps, apps);
    assert_eq!(route.previous_default_source.as_deref(), Some("alsa_input.usb"));
}

#[test]
fn a_set_up_never_touches_the_default_source() {
    let trace = drive(create_audio_route_single("Firefox"), working);
    assert!(trace.commands.iter().all(|line| !line.starts_with("set-default-source")));
}

#[test]
fn one_application_is_routed_like_several() {
    let trace = drive(create_audio_route_single("mpv"), working);
    let route = trace.result.unwrap();
    assert_eq!(route.target_apps, ["mpv"]);
    assert_eq!(trace.commands.iter().filter(|line| *line == "list sink-inputs").count(), 1);
}

#[test]
fn without_a_default_source_the_microphone_is_left_out() {
    let trace = drive(create_audio_route_single("mpv"), |line| match line {
        "info" => CommandReply::NotStarted { reason: "gone".to_string() },
        _ => working(line),
    });
    let route = trace.result.unwrap();
    assert_eq!(route.module_ids, [101, 102, 103, 105, 106]);
    assert_eq!(route.previous_default_source, None);
}

#[test]
fn a_loopback_that_fails_is_left_out() {
    let trace = drive(create_audio_route_single("mpv"), |line| {
        if line.contains("module-loopback") {
            refused("no")
        } else {
            working(line)
        }
    });
    assert_eq!(trace.result.unwrap().module_ids, [101, 102, 103]);
}

#[test]
fn an_id_that_is_no_number_is_not_kept() {
    let trace = drive(create_audio_route_single("mpv"), |line| {
        if line.contains("sink_name=PipeShare_Mix") {
            printed("4294967296\n")
        } else {
            working(line)
        }
    });
    assert_eq!(trace.result.unwrap().module_ids, [101, 103, 104, 105, 106]);
}

#[test]
fn a_device_that_fails_ends_the_set_up() {
    for (device, done) in
        [("sink_name=PipeShare_AppSink", 2), ("sink_name=PipeShare_Mix", 3), ("module-remap", 4)]
    {
        let trace = drive(create_audio_route_single("mpv"), |line| {
            if line.contains(device) {
                refused("Failure: Module initialization failed\n")
            } else {
                working(line)
            }
        });
        assert_eq!(
            trace.result.unwrap_err().message(),
            "pactl error: Failure: Module initialization failed"
        );
        assert_eq!(trace.commands.len(), done);
    }
}

#[test]
fn playing_streams_that_cannot_be_listed_are_passed_over() {
    let apps = vec!["a".to_string(), "b".to_string()];
    let trace = drive(create_audio_route(&apps), |line| match line {
        "list sink-inputs" => refused("no"),
        _ => working(line),
    });
    assert!(trace.result.is_ok());
    assert_eq!(trace.commands.iter().filter(|line| *line == "list sink-inputs").count(), 2);
}

#[test]
fn recording_streams_that_cannot_be_listed_end_the_set_up() {
    let trace = drive(create_audio_route_single("mpv"), |line| match line {
        "list source-outputs" => refused("no"),
        _ => working(line),
    });
    assert_eq!(trace.result.unwrap_err().message(), "pactl error: no");
}

#[test]
fn a_set_up_ends_within_its_number_of_requests() {
    let apps: Vec<String> = (0..5).map(|i| format!("app{}", i)).collect();
    let mut setup = create_audio_route(&apps);
    let mut requests = 0;
    loop {
        match setup.request() {
            Request::Run { args, .. } => setup.resume(&working(&args.join(" "))),
            Request::Finished => break,
            _ => setup.proceed(),
        }
        requests += 1;
    }
    assert_eq!(requests, 12 + 2 * 5);
}

#[test]
fn a_set_up_in_progress_has_no_outcome() {
    assert!(create_audio_route_single("x").outcome().is_none());
}

#[test]
fn no_applications_make_a_route_of_the_microphone_alone() {
    let trace = drive(create_audio_route(&[]), working);
    assert!(trace.result.unwrap().target_apps.is_empty());
    assert!(!trace.commands.contains(&"list sink-inputs".to_string()));
}

#[test]
fn texts_are_accepted_as_replies_are() {
    let mut setup = create_audio_route_single("x");
    setup.accept(Ok("Default Source: mic\n".to_string()));
    setup.accept(Ok("5".to_string()));
    setup.accept(Err(CommandError::System { reason: "gone".to_string() }));
    assert!(matches!(setup.request(), Request::Finished));
    assert_eq!(setup.outcome().unwrap().unwrap_err().message(), "gone");
}

#[test]
fn an_empty_default_source_is_left_out() {
    let trace = drive(create_audio_route_single("mpv"), |line| match line {
        "info" => printed("Default Source: \n"),
        _ => working(line),
    });
    assert!(trace.commands.iter().all(|line| !line.contains("source= ")));
    let route = trace.result.unwrap();
    assert_eq!(route.module_ids, [101, 102, 103, 105, 106]);
    assert_eq!(route.previous_default_source, None);
}
