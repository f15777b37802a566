//! Setting up an audio route.
//!
//! A route mixes the audio of the chosen applications and the real microphone
//! into a virtual microphone:
//!
//! ```text
//!   applications -> PipeShare_AppSink -> PipeShare_Mix -> PipeShare_Mic
//!                           |                  ^
//!                           v                  |
//!                       speakers        real microphone
//! ```

use crate::audio::{
    default_source, default_source_in, picked, picked_streams, AudioRoute, PickModel, RouteModel,
    StreamPick,
};
use crate::command::{
    answer_model, answers, pactl_answer, run_pactl, CommandError, CommandReply, ErrorModel,
    Program, Request, RequestModel, TaskEvent,
};
use crate::number::{parse_u32, u32_value};
use crate::pulse::{
    app_loop_args, app_loop_command, app_sink_args, app_sink_command, info_args, info_command,
    list_inputs_args, list_inputs_command, list_outputs_args, list_outputs_command, mic_args,
    mic_command, mic_loop_args, mic_loop_command, mix_args, mix_command, move_commands, moves,
    pactl, pactl_each, speaker_loop_args, speaker_loop_command,
};
use crate::text::{chars_of, copy_strings, lines, opt_text, strings_of, texts, trim, trimmed};
use vstd::prelude::*;

verus! {

// ---------------------------------------------------------------------------
// Setting up a route
// ---------------------------------------------------------------------------

/// What the set-up of a route does next.
#[derive(Debug, Clone, Copy, PartialEq, Eq, Structural)]
pub enum SetupPhase {
    /// Ask for the default source.
    AskDefault,
    /// Load the sink of the applications.
    LoadAppSink,
    /// Load the mix.
    LoadMix,
    /// Wait until the sinks are there.
    RestForSinks,
    /// Load the virtual microphone.
    LoadMic,
    /// Wait until the virtual microphone is there.
    RestForMic,
    /// Loop the real microphone to the mix.
    LoopMic,
    /// Loop the applications to the mix.
    LoopApps,
    /// Loop the applications to the default output.
    LoopSpeaker,
    /// Wait until the loops are there.
    RestForLoops,
    /// List the streams that play, for the current application.
    ListInputs,
    /// Move the streams of the current application.
    MoveInputs,
    /// List the streams that record.
    ListOutputs,
    /// Move the streams that record.
    MoveOutputs,
    /// The route is set up.
    Built,
    /// The route could not be set up.
    Failed,
}

/// The set-up of a route, in progress.
#[derive(Debug)]
pub struct RouteSetup {
    phase: SetupPhase,
    module_ids: Vec<u32>,
    target_apps: Vec<String>,
    previous_default_source: Option<String>,
    next_app: usize,
    current_app: String,
    streams: Vec<String>,
    error: Option<CommandError>,
}

/// A [`RouteSetup`] as a mathematical value.
#[verifier::ext_equal]
pub ghost struct SetupModel {
    /// What is to be done next.
    pub phase: SetupPhase,
    /// The modules loaded so far.
    pub modules: Seq<u32>,
    /// The applications to route.
    pub apps: Seq<Seq<char>>,
    /// The default source, once it is known.
    pub source: Option<Seq<char>>,
    /// How many of the applications have had their turn.
    pub next_app: nat,
    /// The application whose turn it is.
    pub current_app: Seq<char>,
    /// The streams to move.
    pub streams: Seq<Seq<char>>,
    /// Why the set-up failed, if it did.
    pub error: Option<ErrorModel>,
}

/// The set-up of a route before its first step.
pub open spec fn setup_start(apps: Seq<Seq<char>>) -> SetupModel {
    SetupModel {
        phase: SetupPhase::AskDefault,
        modules: seq![],
        apps,
        source: None,
        next_app: 0,
        current_app: seq![],
        streams: seq![],
        error: None,
    }
}

/// What the set-up asks for.
pub open spec fn setup_request(m: SetupModel) -> RequestModel {
    let run = |args: Seq<Seq<char>>| RequestModel::Run { program: Program::Pactl, args };
    let each = |runs: Seq<Seq<Seq<char>>>| RequestModel::RunEach { program: Program::Pactl, runs };
    match m.phase {
        SetupPhase::AskDefault => run(info_args()),
        SetupPhase::LoadAppSink => run(app_sink_args()),
        SetupPhase::LoadMix => run(mix_args()),
        SetupPhase::RestForSinks => RequestModel::Pause { millis: 500 },
        SetupPhase::LoadMic => run(mic_args()),
        SetupPhase::RestForMic => RequestModel::Pause { millis: 300 },
        SetupPhase::LoopMic => run(
            mic_loop_args(
                match m.source {
                    Some(mic) => mic,
                    None => Seq::empty(),
                },
            ),
        ),
        SetupPhase::LoopApps => run(app_loop_args()),
        SetupPhase::LoopSpeaker => run(speaker_loop_args()),
        SetupPhase::RestForLoops => RequestModel::Pause { millis: 300 },
        SetupPhase::ListInputs => run(list_inputs_args()),
        SetupPhase::MoveInputs => each(moves("move-sink-input"@, m.streams, "PipeShare_AppSink"@)),
        SetupPhase::ListOutputs => run(list_outputs_args()),
        SetupPhase::MoveOutputs => each(
            moves("move-source-output"@, m.streams, "PipeShare_Mic.monitor"@),
        ),
        SetupPhase::Built => RequestModel::Finished,
        SetupPhase::Failed => RequestModel::Finished,
    }
}

/// The modules after a module was loaded: the answer holds its id.
pub open spec fn with_module(modules: Seq<u32>, answer: Seq<char>) -> Seq<u32> {
    match u32_value(trim(answer)) {
        Some(id) => modules.push(id),
        None => modules,
    }
}

/// The answer to a load without which the set-up fails.
pub open spec fn needed_load(
    m: SetupModel,
    answer: Result<Seq<char>, ErrorModel>,
    next: SetupPhase,
) -> SetupModel {
    match answer {
        Ok(text) => SetupModel { phase: next, modules: with_module(m.modules, text), ..m },
        Err(error) => SetupModel { phase: SetupPhase::Failed, error: Some(error), ..m },
    }
}

/// The answer to a load that the set-up can do without.
pub open spec fn wanted_load(
    m: SetupModel,
    answer: Result<Seq<char>, ErrorModel>,
    next: SetupPhase,
) -> SetupModel {
    match answer {
        Ok(text) => SetupModel { phase: next, modules: with_module(m.modules, text), ..m },
        Err(_) => SetupModel { phase: next, ..m },
    }
}

/// The turn passes to the next application, or to the streams that record.
pub open spec fn next_turn(m: SetupModel) -> SetupModel {
    if m.next_app < m.apps.len() {
        SetupModel {
            phase: SetupPhase::ListInputs,
            current_app: m.apps[m.next_app as int],
            next_app: m.next_app + 1,
            ..m
        }
    } else {
        SetupModel { phase: SetupPhase::ListOutputs, ..m }
    }
}

/// The set-up after the answer to a command.
pub open spec fn setup_answered(m: SetupModel, answer: Result<Seq<char>, ErrorModel>) -> SetupModel {
    match m.phase {
        SetupPhase::AskDefault => SetupModel {
            phase: SetupPhase::LoadAppSink,
            source: match default_source(answer) {
                Ok(name) => Some(name),
                Err(_) => None,
            },
            ..m
        },
        SetupPhase::LoadAppSink => needed_load(m, answer, SetupPhase::LoadMix),
        SetupPhase::LoadMix => needed_load(m, answer, SetupPhase::RestForSinks),
        SetupPhase::LoadMic => needed_load(m, answer, SetupPhase::RestForMic),
        SetupPhase::LoopMic => wanted_load(m, answer, SetupPhase::LoopApps),
        SetupPhase::LoopApps => wanted_load(m, answer, SetupPhase::LoopSpeaker),
        SetupPhase::LoopSpeaker => wanted_load(m, answer, SetupPhase::RestForLoops),
        SetupPhase::ListInputs => match answer {
            Ok(listing) => SetupModel {
                phase: SetupPhase::MoveInputs,
                streams: picked(
                    lines(listing),
                    "Sink Input #"@,
                    PickModel::Named { app: m.current_app },
                ),
                ..m
            },
            Err(_) => next_turn(m),
        },
        SetupPhase::ListOutputs => match answer {
            Ok(listing) => SetupModel {
                phase: SetupPhase::MoveOutputs,
                streams: picked(lines(listing), "Source Output #"@, PickModel::Recording),
                ..m
            },
            Err(error) => SetupModel { phase: SetupPhase::Failed, error: Some(error), ..m },
        },
        _ => m,
    }
}

/// The set-up after a pause, or after the runs whose success makes no
/// difference.
pub open spec fn setup_proceeded(m: SetupModel) -> SetupModel {
    match m.phase {
        SetupPhase::RestForSinks => SetupModel { phase: SetupPhase::LoadMic, ..m },
        SetupPhase::RestForMic => SetupModel {
            phase: if m.source is Some {
                SetupPhase::LoopMic
            } else {
                SetupPhase::LoopApps
            },
            ..m
        },
        SetupPhase::RestForLoops => next_turn(m),
        SetupPhase::MoveInputs => next_turn(m),
        SetupPhase::MoveOutputs => SetupModel { phase: SetupPhase::Built, ..m },
        _ => m,
    }
}

/// The route that a set-up has come to.
pub open spec fn built_route(m: SetupModel) -> RouteModel {
    RouteModel { modules: m.modules, apps: m.apps, source: m.source }
}

impl View for RouteSetup {
    type V = SetupModel;

    closed spec fn view(&self) -> SetupModel {
        SetupModel {
            phase: self.phase,
            modules: self.module_ids@,
            apps: texts(self.target_apps@),
            source: opt_text(self.previous_default_source),
            next_app: self.next_app as nat,
            current_app: self.current_app@,
            streams: texts(self.streams@),
            error: match self.error {
                Some(error) => Some(error@),
                None => None,
            },
        }
    }
}

/// Starts to set up a route for the given applications.
pub fn create_audio_route(target_app_names: &[String]) -> (r: RouteSetup)
    ensures
        r@ == setup_start(texts(target_app_names@)),
{
    RouteSetup {
        phase: SetupPhase::AskDefault,
        module_ids: Vec::new(),
        target_apps: copy_strings(target_app_names),
        previous_default_source: None,
        next_app: 0,
        current_app: String::new(),
        streams: Vec::new(),
        error: None,
    }
}

/// Starts to set up a route for one application.
pub fn create_audio_route_single(target_app_name: &str) -> (r: RouteSetup)
    ensures
        r@ == setup_start(seq![target_app_name@]),
{
    let apps = strings_of(&[target_app_name]);
    assert(texts(apps@) =~= seq![target_app_name@]);
    create_audio_route(apps.as_slice())
}

impl RouteSetup {
    /// What is to be done next.
    pub fn request(&self) -> (r: Request)
        ensures
            r@ == setup_request(self@),
    {
        match self.phase {
            SetupPhase::AskDefault => pactl(info_command()),
            SetupPhase::LoadAppSink => pactl(app_sink_command()),
            SetupPhase::LoadMix => pactl(mix_command()),
            SetupPhase::RestForSinks => Request::Pause { millis: 500 },
            SetupPhase::LoadMic => pactl(mic_command()),
            SetupPhase::RestForMic => Request::Pause { millis: 300 },
            SetupPhase::LoopMic => match &self.previous_default_source {
                Some(mic) => pactl(mic_loop_command(mic.as_str())),
                None => pactl(mic_loop_command(String::new().as_str())),
            },
            SetupPhase::LoopApps => pactl(app_loop_command()),
            SetupPhase::LoopSpeaker => pactl(speaker_loop_command()),
            SetupPhase::RestForLoops => Request::Pause { millis: 300 },
            SetupPhase::ListInputs => pactl(list_inputs_command()),
            SetupPhase::MoveInputs => pactl_each(
                move_commands("move-sink-input", &self.streams, "PipeShare_AppSink"),
            ),
            SetupPhase::ListOutputs => pactl(list_outputs_command()),
            SetupPhase::MoveOutputs => pactl_each(
                move_commands("move-source-output", &self.streams, "PipeShare_Mic.monitor"),
            ),
            SetupPhase::Built => Request::Finished,
            SetupPhase::Failed => Request::Finished,
        }
    }

    /// See [`needed_load`].
    fn load_needed(&mut self, answer: Result<String, CommandError>, next: SetupPhase)
        ensures
            final(self)@ == needed_load(old(self)@, answer_model(answer), next),
    {
        match answer {
            Ok(text) => {
                self.keep_module(text.as_str());
                self.phase = next;
            },
            Err(error) => {
                self.fail(error);
            },
        }
    }

    /// See [`wanted_load`].
    fn load_wanted(&mut self, answer: Result<String, CommandError>, next: SetupPhase)
        ensures
            final(self)@ == wanted_load(old(self)@, answer_model(answer), next),
    {
        if let Ok(text) = answer {
            self.keep_module(text.as_str());
        }
        self.phase = next;
    }

    /// See [`with_module`].
    fn keep_module(&mut self, text: &str)
        ensures
            final(self)@ == (SetupModel {
                modules: with_module(old(self)@.modules, text@),
                ..old(self)@
            }),
    {
        let chars = chars_of(text);
        if let Some(id) = parse_u32(trimmed(chars.as_slice())) {
            self.module_ids.push(id);
        }
    }

    /// Ends the set-up with an error.
    fn fail(&mut self, error: CommandError)
        ensures
            final(self)@ == (SetupModel {
                phase: SetupPhase::Failed,
                error: Some(error@),
                ..old(self)@
            }),
    {
        self.phase = SetupPhase::Failed;
        self.error = Some(error);
    }

    /// See [`next_turn`].
    fn pass_turn(&mut self)
        ensures
            final(self)@ == next_turn(old(self)@),
    {
        if self.next_app < self.target_apps.len() {
            self.phase = SetupPhase::ListInputs;
            self.current_app = self.target_apps[self.next_app].clone();
            self.next_app = self.next_app + 1;
        } else {
            self.phase = SetupPhase::ListOutputs;
        }
    }

    /// Takes the answer to the command that was asked for.
    pub fn accept(&mut self, answer: Result<String, CommandError>)
        ensures
            final(self)@ == setup_answered(old(self)@, answer_model(answer)),
    {
        match self.phase {
            SetupPhase::AskDefault => {
                self.previous_default_source = match default_source_in(answer) {
                    Ok(name) => Some(name),
                    Err(_) => None,
                };
                self.phase = SetupPhase::LoadAppSink;
            },
            SetupPhase::LoadAppSink => self.load_needed(answer, SetupPhase::LoadMix),
            SetupPhase::LoadMix => self.load_needed(answer, SetupPhase::RestForSinks),
            SetupPhase::LoadMic => self.load_needed(answer, SetupPhase::RestForMic),
            SetupPhase::LoopMic => self.load_wanted(answer, SetupPhase::LoopApps),
            SetupPhase::LoopApps => self.load_wanted(answer, SetupPhase::LoopSpeaker),
            SetupPhase::LoopSpeaker => self.load_wanted(answer, SetupPhase::RestForLoops),
            SetupPhase::ListInputs => match answer {
                Ok(listing) => {
                    let pick = StreamPick::Named { app: self.current_app.clone() };
                    self.streams = picked_streams(listing.as_str(), "Sink Input #", &pick);
                    self.phase = SetupPhase::MoveInputs;
                },
                Err(_) => self.pass_turn(),
            },
            SetupPhase::ListOutputs => match answer {
                Ok(listing) => {
                    self.streams = picked_streams(
                        listing.as_str(),
                        "Source Output #",
                        &StreamPick::Recording,
                    );
                    self.phase = SetupPhase::MoveOutputs;
                },
                Err(error) => self.fail(error),
            },
            _ => {},
        }
    }

    /// Takes the reply to the command that was asked for.
    pub fn resume(&mut self, reply: &CommandReply)
        ensures
            final(self)@ == setup_answered(old(self)@, pactl_answer(*reply)),
    {
        self.accept(run_pactl(reply));
    }

    /// Goes on after a pause, or after the runs that were asked for.
    pub fn proceed(&mut self)
        ensures
            final(self)@ == setup_proceeded(old(self)@),
    {
        match self.phase {
            SetupPhase::RestForSinks => {
                self.phase = SetupPhase::LoadMic;
            },
            SetupPhase::RestForMic => {
                self.phase = if self.previous_default_source.is_some() {
                    SetupPhase::LoopMic
                } else {
                    SetupPhase::LoopApps
                };
            },
            SetupPhase::RestForLoops => self.pass_turn(),
            SetupPhase::MoveInputs => self.pass_turn(),
            SetupPhase::MoveOutputs => {
                self.phase = SetupPhase::Built;
            },
            _ => {},
        }
    }

    /// What came of the set-up, once it is over.
    pub fn outcome(self) -> (r: Option<Result<AudioRoute, CommandError>>)
        ensures
            match r {
                Some(Ok(route)) => {
                    &&& self@.error is None
                    &&& self@.phase == SetupPhase::Built
                    &&& route@ == built_route(self@)
                },
                Some(Err(error)) => self@.error == Some(error@),
                None => self@.error is None && self@.phase != SetupPhase::Built,
            },
    {
        match self.error {
            Some(error) => Some(Err(error)),
            None => {
                if self.phase == SetupPhase::Built {
                    Some(
                        Ok(
                            AudioRoute {
                                module_ids: self.module_ids,
                                target_apps: self.target_apps,
                                previous_default_source: self.previous_default_source,
                            },
                        ),
                    )
                } else {
                    None
                }
            },
        }
    }
}

// ---------------------------------------------------------------------------
// Laws
// ---------------------------------------------------------------------------

/// The set-up after an event.
pub open spec fn setup_step(m: SetupModel, event: TaskEvent) -> SetupModel {
    match event {
        TaskEvent::Answered { answer } => setup_answered(m, answer),
        TaskEvent::Proceeded => setup_proceeded(m),
    }
}

/// The set-up after some events.
pub open spec fn setup_run(m: SetupModel, events: Seq<TaskEvent>) -> SetupModel
    decreases events.len(),
{
    if events.len() == 0 {
        m
    } else {
        setup_step(setup_run(m, events.drop_last()), events.last())
    }
}

/// Whether each of the events answers the request before it.
pub open spec fn setup_fits(m: SetupModel, events: Seq<TaskEvent>) -> bool
    decreases events.len(),
{
    events.len() > 0 ==> setup_fits(m, events.drop_last()) && answers(
        setup_request(setup_run(m, events.drop_last())),
        events.last(),
    )
}

/// The module that an event tells to be loaded, if the request was to load one.
pub open spec fn loaded_module(request: RequestModel, event: TaskEvent) -> Option<u32> {
    match (request, event) {
        (RequestModel::Run { args, .. }, TaskEvent::Answered { answer: Ok(text) }) => if args.len()
            > 0 && args[0] == "load-module"@ {
            u32_value(trim(text))
        } else {
            None
        },
        _ => None,
    }
}

/// All modules that some events tell to be loaded, in order.
pub open spec fn loaded_modules(m: SetupModel, events: Seq<TaskEvent>) -> Seq<u32>
    decreases events.len(),
{
    if events.len() == 0 {
        seq![]
    } else {
        let earlier = loaded_modules(m, events.drop_last());
        match loaded_module(setup_request(setup_run(m, events.drop_last())), events.last()) {
            Some(id) => earlier.push(id),
            None => earlier,
        }
    }
}

/// Whether a command was asked for and succeeded.
pub open spec fn succeeded(m: SetupModel, events: Seq<TaskEvent>, args: Seq<Seq<char>>) -> bool {
    exists|i: int|
        0 <= i < events.len() && #[trigger] setup_request(setup_run(m, events.take(i))) == (
        RequestModel::Run { program: Program::Pactl, args }) && (events[i] matches
            TaskEvent::Answered { answer } && answer is Ok)
}

/// A route holds the id of every module that its set-up loaded, in the order of
/// loading, and no other.
pub proof fn route_holds_what_was_loaded(apps: Seq<Seq<char>>, events: Seq<TaskEvent>)
    requires
        setup_fits(setup_start(apps), events),
    ensures
        setup_run(setup_start(apps), events).modules == loaded_modules(setup_start(apps), events),
        setup_run(setup_start(apps), events).apps == apps,
    decreases events.len(),
{
    if events.len() > 0 {
        route_holds_what_was_loaded(apps, events.drop_last());
        reveal_strlit("load-module");
        reveal_strlit("info");
        reveal_strlit("list");
        assert("load-module"@.len() != "info"@.len());
        assert("load-module"@.len() != "list"@.len());
    }
}

/// The set-up fails exactly where one of the three devices cannot be loaded or
/// the recording streams cannot be listed. The error is that of the command.
pub proof fn setup_fails_only_for_its_devices(m: SetupModel, event: TaskEvent)
    requires
        answers(setup_request(m), event),
    ensures
        setup_step(m, event).phase == SetupPhase::Failed <==> (event matches TaskEvent::Answered {
            answer,
        } && answer is Err) && (m.phase == SetupPhase::LoadAppSink || m.phase == SetupPhase::LoadMix
            || m.phase == SetupPhase::LoadMic || m.phase == SetupPhase::ListOutputs),
        setup_step(m, event).phase == SetupPhase::Failed ==> (event matches TaskEvent::Answered {
            answer,
        } && setup_step(m, event).error == Some(answer->Err_0)),
{
}

/// A set-up that is over has either failed, with the error of a command, or its
/// route stands.
pub proof fn setup_ends_with_a_route_or_an_error(apps: Seq<Seq<char>>, events: Seq<TaskEvent>)
    requires
        setup_fits(setup_start(apps), events),
    ensures
        ({
            let m = setup_run(setup_start(apps), events);
            &&& m.error is Some <==> m.phase == SetupPhase::Failed
            &&& setup_request(m) is Finished ==> m.error is Some || m.phase == SetupPhase::Built
        }),
    decreases events.len(),
{
    if events.len() > 0 {
        setup_ends_with_a_route_or_an_error(apps, events.drop_last());
    }
}

/// Whether a request makes some source the default one.
pub open spec fn sets_default_source(request: RequestModel) -> bool {
    match request {
        RequestModel::Run { args, .. } => args.len() > 0 && args[0] == "set-default-source"@,
        RequestModel::RunEach { runs, .. } => exists|i: int|
            0 <= i < runs.len() && (#[trigger] runs[i]).len() > 0 && runs[i][0]
                == "set-default-source"@,
        _ => false,
    }
}

/// The set-up never touches the default source of the system.
pub proof fn setup_leaves_the_default_source_alone(m: SetupModel)
    ensures
        !sets_default_source(setup_request(m)),
{
    reveal_strlit("set-default-source");
    reveal_strlit("info");
    reveal_strlit("list");
    reveal_strlit("load-module");
    reveal_strlit("move-sink-input");
    reveal_strlit("move-source-output");
    assert("set-default-source"@[0] == 's');
    assert("info"@[0] == 'i');
    assert("list"@[0] == 'l');
    assert("load-module"@[0] == 'l');
    assert("move-sink-input"@[0] == 'm');
    assert("move-source-output"@[0] == 'm');
}

/// How many requests the set-up still makes at most.
pub open spec fn requests_left(m: SetupModel) -> int {
    let turns = 2 * (m.apps.len() - m.next_app);
    match m.phase {
        SetupPhase::AskDefault => 12 + turns,
        SetupPhase::LoadAppSink => 11 + turns,
        SetupPhase::LoadMix => 10 + turns,
        SetupPhase::RestForSinks => 9 + turns,
        SetupPhase::LoadMic => 8 + turns,
        SetupPhase::RestForMic => 7 + turns,
        SetupPhase::LoopMic => 6 + turns,
        SetupPhase::LoopApps => 5 + turns,
        SetupPhase::LoopSpeaker => 4 + turns,
        SetupPhase::RestForLoops => 3 + turns,
        SetupPhase::ListInputs => 4 + turns,
        SetupPhase::MoveInputs => 3 + turns,
        SetupPhase::ListOutputs => 2,
        SetupPhase::MoveOutputs => 1,
        SetupPhase::Built => 0,
        SetupPhase::Failed => 0,
    }
}

/// The set-up of a route ends, whatever the replies are: two requests for each
/// application and twelve more at most.
pub proof fn setup_always_ends(apps: Seq<Seq<char>>, events: Seq<TaskEvent>)
    requires
        setup_fits(setup_start(apps), events),
    ensures
        events.len() <= 12 + 2 * apps.len(),
        setup_request(setup_run(setup_start(apps), events)) is Finished
            <==> requests_left(setup_run(setup_start(apps), events)) == 0,
{
    lemma_requests_left(apps, events);
}

proof fn lemma_requests_left(apps: Seq<Seq<char>>, events: Seq<TaskEvent>)
    requires
        setup_fits(setup_start(apps), events),
    ensures
        ({
            let m = setup_run(setup_start(apps), events);
            &&& m.apps == apps
            &&& m.next_app <= apps.len()
            &&& 0 <= requests_left(m) <= 12 + 2 * apps.len() - events.len()
        }),
    decreases events.len(),
{
    if events.len() > 0 {
        lemma_requests_left(apps, events.drop_last());
    }
}

/// How far the set-up has come with its devices.
spec fn devices_loaded(phase: SetupPhase) -> int {
    match phase {
        SetupPhase::AskDefault => 0,
        SetupPhase::LoadAppSink => 0,
        SetupPhase::LoadMix => 1,
        SetupPhase::RestForSinks => 2,
        SetupPhase::LoadMic => 2,
        SetupPhase::Failed => 0,
        _ => 3,
    }
}

proof fn lemma_succeeded_stays(
    m: SetupModel,
    events: Seq<TaskEvent>,
    args: Seq<Seq<char>>,
)
    requires
        events.len() > 0,
        succeeded(m, events.drop_last(), args),
    ensures
        succeeded(m, events, args),
{
    let shorter = events.drop_last();
    let i = choose|i: int|
        0 <= i < shorter.len() && #[trigger] setup_request(setup_run(m, shorter.take(i))) == (
        RequestModel::Run { program: Program::Pactl, args }) && (shorter[i] matches
            TaskEvent::Answered { answer } && answer is Ok);
    assert(shorter.take(i) =~= events.take(i));
    assert(events[i] == shorter[i]);
    assert(setup_request(setup_run(m, events.take(i))) == (RequestModel::Run {
        program: Program::Pactl,
        args,
    }));
}

proof fn lemma_devices(apps: Seq<Seq<char>>, events: Seq<TaskEvent>)
    requires
        setup_fits(setup_start(apps), events),
    ensures
        ({
            let start = setup_start(apps);
            let done = devices_loaded(setup_run(start, events).phase);
            &&& done >= 1 ==> succeeded(start, events, app_sink_args())
            &&& done >= 2 ==> succeeded(start, events, mix_args())
            &&& done >= 3 ==> succeeded(start, events, mic_args())
        }),
    decreases events.len(),
{
    if events.len() > 0 {
        let start = setup_start(apps);
        let shorter = events.drop_last();
        lemma_devices(apps, shorter);
        let m = setup_run(start, shorter);
        let last = events.len() - 1;
        assert(events.take(last) =~= shorter);
        assert(setup_request(setup_run(start, events.take(last))) == setup_request(m));
        if succeeded(start, shorter, app_sink_args()) {
            lemma_succeeded_stays(start, events, app_sink_args());
        }
        if succeeded(start, shorter, mix_args()) {
            lemma_succeeded_stays(start, events, mix_args());
        }
        if succeeded(start, shorter, mic_args()) {
            lemma_succeeded_stays(start, events, mic_args());
        }
    }
}

/// No stream is moved, and no route is handed out, before the sink of the
/// applications, the mix and the virtual microphone were all loaded.
pub proof fn streams_move_to_loaded_devices_only(apps: Seq<Seq<char>>, events: Seq<TaskEvent>)
    requires
        setup_fits(setup_start(apps), events),
        ({
            let phase = setup_run(setup_start(apps), events).phase;
            phase == SetupPhase::MoveInputs || phase == SetupPhase::MoveOutputs || phase
                == SetupPhase::Built
        }),
    ensures
        succeeded(setup_start(apps), events, app_sink_args()),
        succeeded(setup_start(apps), events, mix_args()),
        succeeded(setup_start(apps), events, mic_args()),
{
    lemma_devices(apps, events);
}

/// The applications for which the playing streams were listed in the course of
/// some events, in order.
pub open spec fn listed_apps(m: SetupModel, events: Seq<TaskEvent>) -> Seq<Seq<char>>
    decreases events.len(),
{
    if events.len() == 0 {
        seq![]
    } else {
        let before = setup_run(m, events.drop_last());
        let earlier = listed_apps(m, events.drop_last());
        if before.phase == SetupPhase::ListInputs {
            earlier.push(before.current_app)
        } else {
            earlier
        }
    }
}

/// Each of the applications has its turn once, in their order, and no other has:
/// when the route stands, the streams of exactly these were listed and picked.
pub proof fn each_application_has_its_turn(apps: Seq<Seq<char>>, events: Seq<TaskEvent>)
    requires
        setup_fits(setup_start(apps), events),
        setup_run(setup_start(apps), events).phase == SetupPhase::Built,
    ensures
        listed_apps(setup_start(apps), events) == apps,
{
    lemma_turns(apps, events);
    assert(apps.take(apps.len() as int) =~= apps);
}

proof fn lemma_turns(apps: Seq<Seq<char>>, events: Seq<TaskEvent>)
    requires
        setup_fits(setup_start(apps), events),
    ensures
        ({
            let m = setup_run(setup_start(apps), events);
            let listed = listed_apps(setup_start(apps), events);
            &&& m.apps == apps
            &&& m.next_app <= apps.len()
            &&& m.phase == SetupPhase::ListInputs ==> m.next_app > 0 && listed == apps.take(
                m.next_app - 1,
            ) && m.current_app == apps[m.next_app - 1]
            &&& m.phase != SetupPhase::ListInputs ==> listed == apps.take(m.next_app as int)
            &&& m.phase == SetupPhase::ListOutputs || m.phase == SetupPhase::MoveOutputs || m.phase
                == SetupPhase::Built ==> m.next_app == apps.len()
        }),
    decreases events.len(),
{
    if events.len() == 0 {
        assert(apps.take(0) =~= Seq::<Seq<char>>::empty());
    } else {
        let shorter = events.drop_last();
        lemma_turns(apps, shorter);
        let m = setup_run(setup_start(apps), shorter);
        if m.phase == SetupPhase::ListInputs {
            assert(apps.take(m.next_app - 1).push(apps[m.next_app - 1]) =~= apps.take(
                m.next_app as int,
            ));
        }
    }
}

/// How many times a request was made in the course of some events.
pub open spec fn times_asked(
    m: SetupModel,
    events: Seq<TaskEvent>,
    request: RequestModel,
) -> nat
    decreases events.len(),
{
    if events.len() == 0 {
        0
    } else {
        let earlier = times_asked(m, events.drop_last(), request);
        if setup_request(setup_run(m, events.drop_last())) == request {
            earlier + 1
        } else {
            earlier
        }
    }
}

/// The request for the playing streams.
pub open spec fn asks_for_inputs() -> RequestModel {
    RequestModel::Run { program: Program::Pactl, args: seq!["list"@, "sink-inputs"@] }
}

/// What is done with a listing of the playing streams depends on which of the
/// listings it is: the first moves the streams of the first application, the
/// second those of the second, and so on. They go to the sink of the applications.
/// A route stands only after as many listings as there are applications.
pub proof fn each_listing_moves_its_application(
    apps: Seq<Seq<char>>,
    events: Seq<TaskEvent>,
    listing: Seq<char>,
)
    requires
        setup_fits(setup_start(apps), events),
    ensures
        ({
            let m = setup_run(setup_start(apps), events);
            let turn = times_asked(setup_start(apps), events, asks_for_inputs()) as int;
            let moved = setup_request(setup_answered(m, Ok(listing)));
            &&& setup_request(m) == asks_for_inputs() ==> turn < apps.len() && moved == (
            RequestModel::RunEach {
                program: Program::Pactl,
                runs: moves(
                    "move-sink-input"@,
                    picked(lines(listing), "Sink Input #"@, PickModel::Named { app: apps[turn] }),
                    "PipeShare_AppSink"@,
                ),
            })
            &&& m.phase == SetupPhase::Built ==> turn == apps.len()
        }),
{
    lemma_turns(apps, events);
    lemma_times_listed(apps, events);
    let m = setup_run(setup_start(apps), events);
    lemma_inputs_request(m);
    let n = m.next_app as int;
    if m.phase == SetupPhase::ListInputs {
        assert(apps.take(n - 1).len() == n - 1);
    } else {
        assert(apps.take(n).len() == n);
    }
}

/// The playing streams are asked for in one phase only.
proof fn lemma_inputs_request(m: SetupModel)
    ensures
        setup_request(m) == asks_for_inputs() <==> m.phase == SetupPhase::ListInputs,
{
    reveal_strlit("list");
    reveal_strlit("info");
    reveal_strlit("load-module");
    reveal_strlit("sink-inputs");
    reveal_strlit("source-outputs");
    assert("load-module"@.len() != "list"@.len());
    assert("info"@[0] == 'i');
    assert("list"@[0] == 'l');
    assert("sink-inputs"@.len() != "source-outputs"@.len());
    assert(asks_for_inputs()->Run_args[0] == "list"@);
    assert(asks_for_inputs()->Run_args[1] == "sink-inputs"@);
    if let RequestModel::Run { program, args } = setup_request(m) {
        assert(args[0] == "info"@ || args[0] == "load-module"@ || args[0] == "list"@);
    }
}

proof fn lemma_times_listed(apps: Seq<Seq<char>>, events: Seq<TaskEvent>)
    requires
        setup_fits(setup_start(apps), events),
    ensures
        times_asked(setup_start(apps), events, asks_for_inputs()) == listed_apps(
            setup_start(apps),
            events,
        ).len(),
    decreases events.len(),
{
    if events.len() > 0 {
        lemma_times_listed(apps, events.drop_last());
        lemma_inputs_request(setup_run(setup_start(apps), events.drop_last()));
    }
}

/// The recording streams that are picked from their listing are moved to the
/// virtual microphone, and then the route stands.
pub proof fn recording_streams_move_to_the_microphone(m: SetupModel, listing: Seq<char>)
    requires
        m.phase == SetupPhase::ListOutputs,
    ensures
        ({
            let moving = setup_answered(m, Ok(listing));
            &&& setup_request(m) == (RequestModel::Run {
                program: Program::Pactl,
                args: seq!["list"@, "source-outputs"@],
            })
            &&& setup_request(moving) == (RequestModel::RunEach {
                program: Program::Pactl,
                runs: moves(
                    "move-source-output"@,
                    picked(lines(listing), "Source Output #"@, PickModel::Recording),
                    "PipeShare_Mic.monitor"@,
                ),
            })
            &&& setup_proceeded(moving).phase == SetupPhase::Built
            &&& built_route(setup_proceeded(moving)) == built_route(m)
        }),
{
}

/// All requests of a set-up in the course of some events, in order.
pub open spec fn setup_requests(m: SetupModel, events: Seq<TaskEvent>) -> Seq<RequestModel>
    decreases events.len(),
{
    if events.len() == 0 {
        seq![]
    } else {
        setup_requests(m, events.drop_last()).push(
            setup_request(setup_run(m, events.drop_last())),
        )
    }
}

/// The requests that come before the first application has its turn. The real
/// microphone is looped to the mix where there is one.
pub open spec fn device_requests(mic: Option<Seq<char>>) -> Seq<RequestModel> {
    let run = |args: Seq<Seq<char>>| RequestModel::Run { program: Program::Pactl, args };
    seq![
        run(info_args()),
        run(app_sink_args()),
        run(mix_args()),
        RequestModel::Pause { millis: 500 },
        run(mic_args()),
        RequestModel::Pause { millis: 300 },
    ] + match mic {
        Some(name) => seq![
            run(
                seq![
                    "load-module"@,
                    "module-loopback"@,
                    "source="@ + name,
                    "sink=PipeShare_Mix"@,
                    "latency_msec=30"@,
                ],
            ),
        ],
        None => seq![],
    } + seq![run(app_loop_args()), run(speaker_loop_args()), RequestModel::Pause { millis: 300 }]
}

/// Before a route stands, all its devices and loops were asked for, in this
/// order: the real microphone is looped by its whole name wherever the first
/// answer names one, and the route keeps that name.
pub proof fn route_stands_on_its_devices(apps: Seq<Seq<char>>, events: Seq<TaskEvent>)
    requires
        setup_fits(setup_start(apps), events),
        setup_run(setup_start(apps), events).phase == SetupPhase::Built,
    ensures
        ({
            let mic = match events[0] {
                TaskEvent::Answered { answer } => match default_source(answer) {
                    Ok(name) => Some(name),
                    Err(_) => None,
                },
                _ => None,
            };
            let requests = setup_requests(setup_start(apps), events);
            let wanted = device_requests(mic);
            &&& events.len() > 0
            &&& events[0] is Answered
            &&& requests.len() == events.len()
            &&& wanted.len() <= requests.len()
            &&& requests.take(wanted.len() as int) == wanted
            &&& setup_run(setup_start(apps), events).source == mic
        }),
{
    lemma_device_requests(apps, events);
}

/// The default source that a set-up learns from its first answer.
spec fn learned(events: Seq<TaskEvent>) -> Option<Seq<char>> {
    match events[0] {
        TaskEvent::Answered { answer } => match default_source(answer) {
            Ok(name) => Some(name),
            Err(_) => None,
        },
        _ => None,
    }
}

/// How many of the requests for the devices were made.
spec fn devices_asked(m: SetupModel) -> int {
    let extra: int = if m.source is Some {
        1
    } else {
        0
    };
    match m.phase {
        SetupPhase::AskDefault => 0,
        SetupPhase::LoadAppSink => 1,
        SetupPhase::LoadMix => 2,
        SetupPhase::RestForSinks => 3,
        SetupPhase::LoadMic => 4,
        SetupPhase::RestForMic => 5,
        SetupPhase::LoopMic => 6,
        SetupPhase::LoopApps => 6 + extra,
        SetupPhase::LoopSpeaker => 7 + extra,
        SetupPhase::RestForLoops => 8 + extra,
        _ => 9 + extra,
    }
}

proof fn lemma_device_requests(apps: Seq<Seq<char>>, events: Seq<TaskEvent>)
    requires
        setup_fits(setup_start(apps), events),
        setup_run(setup_start(apps), events).phase != SetupPhase::Failed,
    ensures
        ({
            let m = setup_run(setup_start(apps), events);
            let requests = setup_requests(setup_start(apps), events);
            let wanted = device_requests(m.source);
            let asked = devices_asked(m);
            &&& requests.len() == events.len()
            &&& asked <= requests.len()
            &&& asked < wanted.len() ==> asked == requests.len()
            &&& requests.take(asked) == wanted.take(asked)
            &&& asked <= wanted.len()
            &&& m.phase != SetupPhase::AskDefault ==> events.len() > 0 && events[0] is Answered
                && m.source == learned(events)
            &&& m.phase == SetupPhase::AskDefault ==> m.source is None
            &&& m.phase == SetupPhase::LoopMic ==> m.source is Some
        }),
    decreases events.len(),
{
    if events.len() == 0 {
        assert(setup_requests(setup_start(apps), events).take(0) =~= device_requests(None).take(0));
    } else {
        let shorter = events.drop_last();
        let before = setup_run(setup_start(apps), shorter);
        assert(before.phase != SetupPhase::Failed);
        lemma_device_requests(apps, shorter);
        let m = setup_run(setup_start(apps), events);
        let old_requests = setup_requests(setup_start(apps), shorter);
        let requests = setup_requests(setup_start(apps), events);
        let request = setup_request(before);
        assert(requests == old_requests.push(request));
        if shorter.len() > 0 {
            assert(shorter[0] == events[0]);
        }
        let asked = devices_asked(before);
        let wanted = device_requests(m.source);
        if before.phase == SetupPhase::AskDefault {
            assert(shorter.len() == 0);
            assert(requests.take(1) =~= wanted.take(1));
        } else {
            assert(before.source == m.source);
            if devices_asked(m) > asked {
                assert(asked == old_requests.len());
                assert(request == wanted[asked]);
                assert(requests.take(asked + 1) =~= old_requests.take(asked).push(request));
                assert(wanted.take(asked + 1) =~= wanted.take(asked).push(wanted[asked]));
            } else {
                assert(requests.take(asked) =~= old_requests.take(asked));
            }
        }
    }
}

/// The route that a set-up comes to names the applications that were asked for and
/// the modules that were loaded, all of them, and the default source that was there
/// before.
pub proof fn route_is_what_was_set_up(apps: Seq<Seq<char>>, events: Seq<TaskEvent>)
    requires
        setup_fits(setup_start(apps), events),
        setup_run(setup_start(apps), events).phase == SetupPhase::Built,
    ensures
        ({
            let route = built_route(setup_run(setup_start(apps), events));
            &&& route.apps == apps
            &&& route.modules == loaded_modules(setup_start(apps), events)
            &&& events.len() > 0
            &&& events[0] matches TaskEvent::Answered { answer } && match default_source(answer) {
                Ok(name) => route.source == Some(name),
                Err(_) => route.source is None,
            }
        }),
{
    route_holds_what_was_loaded(apps, events);
    lemma_device_requests(apps, events);
}

} // verus!
