//! Taking a route down, and removing what earlier runs left behind.

use crate::audio::{
    default_source, default_source_in, first_real_source, lemma_mention_has_words,
    leftover_modules, mentions_pipeshare, own_modules, picked, picked_streams, real_microphone,
    real_source, AudioRoute, PickModel, StreamPick,
};
use crate::command::{
    answer_model, answers, pactl_answer, printed_answer, printed_text, run_pactl, CommandError,
    CommandReply, ErrorModel, Program, Request, RequestModel, TaskEvent,
};
use crate::number::{decimal, decimal_reads_back, u32_value};
use crate::pulse::{
    ids_in_unload_order, info_args, info_command, list_modules_args, list_modules_command,
    list_outputs_args, list_outputs_command, list_sources_args, list_sources_command,
    move_commands, moves, pactl, pactl_each, set_default_args, set_default_command,
    unload_commands, unload_order, unloads,
};
use crate::route::{
    built_route, loaded_modules, route_holds_what_was_loaded, setup_fits, setup_run, setup_start,
};
use crate::text::{contains, lines, opt_text, texts, words};
use vstd::prelude::*;
use vstd::slice::slice_to_vec;

verus! {

// ---------------------------------------------------------------------------
// Taking a route down
// ---------------------------------------------------------------------------

/// What the removal of a route does next.
#[derive(Debug, Clone, Copy, PartialEq, Eq, Structural)]
pub enum TeardownPhase {
    /// Ask for the default source.
    AskDefault,
    /// List the streams that record.
    ListOutputs,
    /// Move the streams that record from the route back to the default source.
    MoveOutputs,
    /// Unload the modules of the route.
    Unload,
    /// The route is gone.
    Done,
}

/// The removal of a route, in progress.
///
/// The recording streams are given back before any module is unloaded: a stream
/// whose source vanished would break.
#[derive(Debug)]
pub struct RouteTeardown {
    phase: TeardownPhase,
    module_ids: Vec<u32>,
    default_source: String,
    streams: Vec<String>,
}

/// A [`RouteTeardown`] as a mathematical value.
#[verifier::ext_equal]
pub ghost struct TeardownModel {
    /// What is to be done next.
    pub phase: TeardownPhase,
    /// The modules of the route, in the order of loading.
    pub modules: Seq<u32>,
    /// The default source, once it is known.
    pub device: Seq<char>,
    /// The streams to move.
    pub streams: Seq<Seq<char>>,
}

/// The removal of a route before its first step.
pub open spec fn teardown_start(modules: Seq<u32>) -> TeardownModel {
    TeardownModel {
        phase: TeardownPhase::AskDefault,
        modules,
        device: seq![],
        streams: seq![],
    }
}

/// What the removal asks for.
pub open spec fn teardown_request(m: TeardownModel) -> RequestModel {
    let run = |args: Seq<Seq<char>>| RequestModel::Run { program: Program::Pactl, args };
    let each = |runs: Seq<Seq<Seq<char>>>| RequestModel::RunEach { program: Program::Pactl, runs };
    match m.phase {
        TeardownPhase::AskDefault => run(info_args()),
        TeardownPhase::ListOutputs => run(list_outputs_args()),
        TeardownPhase::MoveOutputs => each(moves("move-source-output"@, m.streams, m.device)),
        TeardownPhase::Unload => each(unloads(unload_order(m.modules))),
        TeardownPhase::Done => RequestModel::Finished,
    }
}

/// The removal after the answer to a command.
pub open spec fn teardown_answered(
    m: TeardownModel,
    answer: Result<Seq<char>, ErrorModel>,
) -> TeardownModel {
    match m.phase {
        TeardownPhase::AskDefault => match default_source(answer) {
            Ok(name) => TeardownModel { phase: TeardownPhase::ListOutputs, device: name, ..m },
            Err(_) => TeardownModel { phase: TeardownPhase::Unload, ..m },
        },
        TeardownPhase::ListOutputs => match answer {
            Ok(listing) => TeardownModel {
                phase: TeardownPhase::MoveOutputs,
                streams: picked(lines(listing), "Source Output #"@, PickModel::OnPipeShare),
                ..m
            },
            Err(_) => TeardownModel { phase: TeardownPhase::Unload, ..m },
        },
        _ => m,
    }
}

/// The removal after the runs whose success makes no difference.
pub open spec fn teardown_proceeded(m: TeardownModel) -> TeardownModel {
    match m.phase {
        TeardownPhase::MoveOutputs => TeardownModel { phase: TeardownPhase::Unload, ..m },
        TeardownPhase::Unload => TeardownModel { phase: TeardownPhase::Done, ..m },
        _ => m,
    }
}

impl View for RouteTeardown {
    type V = TeardownModel;

    closed spec fn view(&self) -> TeardownModel {
        TeardownModel {
            phase: self.phase,
            modules: self.module_ids@,
            device: self.default_source@,
            streams: texts(self.streams@),
        }
    }
}

/// Starts to take a route down.
pub fn destroy_audio_route(route: &AudioRoute) -> (r: RouteTeardown)
    ensures
        r@ == teardown_start(route.module_ids@),
{
    RouteTeardown {
        phase: TeardownPhase::AskDefault,
        module_ids: slice_to_vec(route.module_ids.as_slice()),
        default_source: String::new(),
        streams: Vec::new(),
    }
}

impl RouteTeardown {
    /// What is to be done next.
    pub fn request(&self) -> (r: Request)
        ensures
            r@ == teardown_request(self@),
    {
        match self.phase {
            TeardownPhase::AskDefault => pactl(info_command()),
            TeardownPhase::ListOutputs => pactl(list_outputs_command()),
            TeardownPhase::MoveOutputs => pactl_each(
                move_commands("move-source-output", &self.streams, self.default_source.as_str()),
            ),
            TeardownPhase::Unload => pactl_each(
                unload_commands(&ids_in_unload_order(&self.module_ids)),
            ),
            TeardownPhase::Done => Request::Finished,
        }
    }

    /// Takes the answer to the command that was asked for.
    pub fn accept(&mut self, answer: Result<String, CommandError>)
        ensures
            final(self)@ == teardown_answered(old(self)@, answer_model(answer)),
    {
        match self.phase {
            TeardownPhase::AskDefault => match default_source_in(answer) {
                Ok(name) => {
                    self.default_source = name;
                    self.phase = TeardownPhase::ListOutputs;
                },
                Err(_) => {
                    self.phase = TeardownPhase::Unload;
                },
            },
            TeardownPhase::ListOutputs => match answer {
                Ok(listing) => {
                    self.streams = picked_streams(
                        listing.as_str(),
                        "Source Output #",
                        &StreamPick::OnPipeShare,
                    );
                    self.phase = TeardownPhase::MoveOutputs;
                },
                Err(_) => {
                    self.phase = TeardownPhase::Unload;
                },
            },
            _ => {},
        }
    }

    /// Takes the reply to the command that was asked for.
    pub fn resume(&mut self, reply: &CommandReply)
        ensures
            final(self)@ == teardown_answered(old(self)@, pactl_answer(*reply)),
    {
        self.accept(run_pactl(reply));
    }

    /// Goes on after the runs that were asked for.
    pub fn proceed(&mut self)
        ensures
            final(self)@ == teardown_proceeded(old(self)@),
    {
        match self.phase {
            TeardownPhase::MoveOutputs => {
                self.phase = TeardownPhase::Unload;
            },
            TeardownPhase::Unload => {
                self.phase = TeardownPhase::Done;
            },
            _ => {},
        }
    }
}

// ---------------------------------------------------------------------------
// Removing everything
// ---------------------------------------------------------------------------

/// What the removal of all modules does next.
#[derive(Debug, Clone, Copy, PartialEq, Eq, Structural)]
pub enum CleanupPhase {
    /// List the loaded modules.
    ListModules,
    /// Unload those of this program.
    Unload,
    /// List the sources.
    ListSources,
    /// Make a real microphone the default source.
    SetDefault,
    /// Everything is removed.
    Done,
    /// A listing could not be had.
    Failed,
}

/// The removal of all modules of this program, in progress.
#[derive(Debug)]
pub struct Cleanup {
    phase: CleanupPhase,
    modules: Vec<String>,
    microphone: Option<String>,
    error: Option<CommandError>,
}

/// A [`Cleanup`] as a mathematical value.
#[verifier::ext_equal]
pub ghost struct CleanupModel {
    /// What is to be done next.
    pub phase: CleanupPhase,
    /// The modules to unload, as listed.
    pub modules: Seq<Seq<char>>,
    /// The microphone that becomes the default source.
    pub microphone: Option<Seq<char>>,
    /// Why the removal failed, if it did.
    pub error: Option<ErrorModel>,
}

/// The removal of all modules before its first step.
pub open spec fn cleanup_start() -> CleanupModel {
    CleanupModel {
        phase: CleanupPhase::ListModules,
        modules: seq![],
        microphone: None,
        error: None,
    }
}

/// What the removal of all modules asks for.
pub open spec fn cleanup_request(m: CleanupModel) -> RequestModel {
    let run = |args: Seq<Seq<char>>| RequestModel::Run { program: Program::Pactl, args };
    let each = |runs: Seq<Seq<Seq<char>>>| RequestModel::RunEach { program: Program::Pactl, runs };
    match m.phase {
        CleanupPhase::ListModules => run(list_modules_args()),
        CleanupPhase::Unload => each(unloads(m.modules)),
        CleanupPhase::ListSources => run(list_sources_args()),
        CleanupPhase::SetDefault => each(
            match m.microphone {
                Some(name) => seq![set_default_args(name)],
                None => seq![],
            },
        ),
        CleanupPhase::Done => RequestModel::Finished,
        CleanupPhase::Failed => RequestModel::Finished,
    }
}

/// The removal of all modules after the answer to a listing.
pub open spec fn cleanup_answered(
    m: CleanupModel,
    answer: Result<Seq<char>, ErrorModel>,
) -> CleanupModel {
    match (m.phase, answer) {
        (CleanupPhase::ListModules, Ok(listing)) => CleanupModel {
            phase: CleanupPhase::Unload,
            modules: own_modules(lines(listing)),
            ..m
        },
        (CleanupPhase::ListSources, Ok(listing)) => CleanupModel {
            phase: CleanupPhase::SetDefault,
            microphone: first_real_source(lines(listing)),
            ..m
        },
        (CleanupPhase::ListModules, Err(error)) => CleanupModel {
            phase: CleanupPhase::Failed,
            error: Some(error),
            ..m
        },
        (CleanupPhase::ListSources, Err(error)) => CleanupModel {
            phase: CleanupPhase::Failed,
            error: Some(error),
            ..m
        },
        _ => m,
    }
}

/// The removal of all modules after the runs whose success makes no difference.
pub open spec fn cleanup_proceeded(m: CleanupModel) -> CleanupModel {
    match m.phase {
        CleanupPhase::Unload => CleanupModel { phase: CleanupPhase::ListSources, ..m },
        CleanupPhase::SetDefault => CleanupModel { phase: CleanupPhase::Done, ..m },
        _ => m,
    }
}

/// How many modules were to be unloaded, within the range of a `u32`.
pub open spec fn cleaned_count(m: CleanupModel) -> int {
    m.modules.len() as int % 0x1_0000_0000
}

impl View for Cleanup {
    type V = CleanupModel;

    closed spec fn view(&self) -> CleanupModel {
        CleanupModel {
            phase: self.phase,
            modules: texts(self.modules@),
            microphone: opt_text(self.microphone),
            error: match self.error {
                Some(error) => Some(error@),
                None => None,
            },
        }
    }
}

/// Starts to remove all modules of this program, wherever they came from.
pub fn cleanup_all() -> (r: Cleanup)
    ensures
        r@ == cleanup_start(),
{
    Cleanup {
        phase: CleanupPhase::ListModules,
        modules: Vec::new(),
        microphone: None,
        error: None,
    }
}

impl Cleanup {
    /// What is to be done next.
    pub fn request(&self) -> (r: Request)
        ensures
            r@ == cleanup_request(self@),
    {
        match self.phase {
            CleanupPhase::ListModules => pactl(list_modules_command()),
            CleanupPhase::Unload => pactl_each(unload_commands(&self.modules)),
            CleanupPhase::ListSources => pactl(list_sources_command()),
            CleanupPhase::SetDefault => {
                let mut runs: Vec<Vec<String>> = Vec::new();
                if let Some(name) = &self.microphone {
                    runs.push(set_default_command(name.as_str()));
                }
                pactl_each(runs)
            },
            CleanupPhase::Done => Request::Finished,
            CleanupPhase::Failed => Request::Finished,
        }
    }

    /// Takes the answer to the listing that was asked for.
    pub fn accept(&mut self, answer: Result<String, CommandError>)
        ensures
            final(self)@ == cleanup_answered(old(self)@, answer_model(answer)),
    {
        match self.phase {
            CleanupPhase::ListModules => match answer {
                Ok(listing) => {
                    self.modules = leftover_modules(listing.as_str());
                    self.phase = CleanupPhase::Unload;
                },
                Err(error) => {
                    self.error = Some(error);
                    self.phase = CleanupPhase::Failed;
                },
            },
            CleanupPhase::ListSources => match answer {
                Ok(listing) => {
                    self.microphone = real_microphone(listing.as_str());
                    self.phase = CleanupPhase::SetDefault;
                },
                Err(error) => {
                    self.error = Some(error);
                    self.phase = CleanupPhase::Failed;
                },
            },
            _ => {},
        }
    }

    /// Takes the reply to the listing that was asked for. What was printed
    /// counts, whether the program succeeded or not.
    pub fn resume(&mut self, reply: &CommandReply)
        ensures
            final(self)@ == cleanup_answered(old(self)@, printed_answer(*reply)),
    {
        self.accept(printed_text(reply));
    }

    /// Goes on after the runs that were asked for.
    pub fn proceed(&mut self)
        ensures
            final(self)@ == cleanup_proceeded(old(self)@),
    {
        match self.phase {
            CleanupPhase::Unload => {
                self.phase = CleanupPhase::ListSources;
            },
            CleanupPhase::SetDefault => {
                self.phase = CleanupPhase::Done;
            },
            _ => {},
        }
    }

    /// What came of the removal, once it is over: the number of modules that
    /// were to be unloaded, within the range of a `u32`.
    pub fn outcome(self) -> (r: Option<Result<u32, CommandError>>)
        ensures
            match r {
                Some(Ok(cleaned)) => {
                    &&& self@.error is None
                    &&& self@.phase == CleanupPhase::Done
                    &&& cleaned == cleaned_count(self@)
                },
                Some(Err(error)) => self@.error == Some(error@),
                None => self@.error is None && self@.phase != CleanupPhase::Done,
            },
    {
        assert(texts(self.modules@).len() == self.modules@.len());
        match self.error {
            Some(error) => Some(Err(error)),
            None => {
                if self.phase == CleanupPhase::Done {
                    Some(Ok((self.modules.len() as u64 % 0x1_0000_0000) as u32))
                } else {
                    None
                }
            },
        }
    }
}

// ---------------------------------------------------------------------------
// Laws
// ---------------------------------------------------------------------------

/// The removal of a route after an event.
pub open spec fn teardown_step(m: TeardownModel, event: TaskEvent) -> TeardownModel {
    match event {
        TaskEvent::Answered { answer } => teardown_answered(m, answer),
        TaskEvent::Proceeded => teardown_proceeded(m),
    }
}

/// The removal of a route after some events.
pub open spec fn teardown_run(m: TeardownModel, events: Seq<TaskEvent>) -> TeardownModel
    decreases events.len(),
{
    if events.len() == 0 {
        m
    } else {
        teardown_step(teardown_run(m, events.drop_last()), events.last())
    }
}

/// The requests that the events answered, in order.
pub open spec fn teardown_requests(m: TeardownModel, events: Seq<TaskEvent>) -> Seq<RequestModel>
    decreases events.len(),
{
    if events.len() == 0 {
        seq![]
    } else {
        teardown_requests(m, events.drop_last()).push(
            teardown_request(teardown_run(m, events.drop_last())),
        )
    }
}

/// Whether each of the events answers the request before it.
pub open spec fn teardown_fits(m: TeardownModel, events: Seq<TaskEvent>) -> bool
    decreases events.len(),
{
    events.len() > 0 ==> teardown_fits(m, events.drop_last()) && answers(
        teardown_request(teardown_run(m, events.drop_last())),
        events.last(),
    )
}

/// Whether a request only gives recording streams back, and unloads nothing.
pub open spec fn gives_back(request: RequestModel) -> bool {
    ||| request == (RequestModel::Run { program: Program::Pactl, args: info_args() })
    ||| request == (RequestModel::Run { program: Program::Pactl, args: list_outputs_args() })
    ||| exists|streams: Seq<Seq<char>>, device: Seq<char>|
        request == (RequestModel::RunEach {
            program: Program::Pactl,
            runs: #[trigger] moves("move-source-output"@, streams, device),
        })
}

/// How far the removal of a route has come.
spec fn teardown_rank(phase: TeardownPhase) -> int {
    match phase {
        TeardownPhase::AskDefault => 0,
        TeardownPhase::ListOutputs => 1,
        TeardownPhase::MoveOutputs => 2,
        TeardownPhase::Unload => 3,
        TeardownPhase::Done => 4,
    }
}

proof fn lemma_teardown_run(modules: Seq<u32>, events: Seq<TaskEvent>)
    requires
        teardown_fits(teardown_start(modules), events),
    ensures
        teardown_run(teardown_start(modules), events).modules == modules,
        events.len() <= teardown_rank(teardown_run(teardown_start(modules), events).phase),
        teardown_requests(teardown_start(modules), events).len() == events.len(),
        ({
            let m = teardown_run(teardown_start(modules), events);
            let requests = teardown_requests(teardown_start(modules), events);
            let given_back = if m.phase == TeardownPhase::Done {
                requests.len() - 1
            } else {
                requests.len() as int
            };
            &&& forall|i: int| 0 <= i < given_back ==> gives_back(#[trigger] requests[i])
            &&& m.phase == TeardownPhase::Done ==> requests.len() > 0 && requests.last() == (
            RequestModel::RunEach { program: Program::Pactl, runs: unloads(unload_order(modules)) })
        }),
    decreases events.len(),
{
    if events.len() > 0 {
        let shorter = events.drop_last();
        lemma_teardown_run(modules, shorter);
        let m = teardown_run(teardown_start(modules), shorter);
        let earlier = teardown_requests(teardown_start(modules), shorter);
        let requests = teardown_requests(teardown_start(modules), events);
        assert(m.phase != TeardownPhase::Done);
        assert(requests == earlier.push(teardown_request(m)));
        if m.phase == TeardownPhase::MoveOutputs {
            assert(teardown_request(m) == (RequestModel::RunEach {
                program: Program::Pactl,
                runs: moves("move-source-output"@, m.streams, m.device),
            }));
        }
        if m.phase != TeardownPhase::Unload {
            assert(gives_back(teardown_request(m)));
        }
        assert forall|i: int| 0 <= i < earlier.len() implies gives_back(#[trigger] requests[i]) by {
            assert(requests[i] == earlier[i]);
        }
    }
}

/// Whatever the replies are, the removal of a route ends with one request that
/// unloads all its modules, the last loaded first. What comes before only gives
/// the recording streams back.
pub proof fn streams_go_back_before_modules_go(modules: Seq<u32>, events: Seq<TaskEvent>)
    requires
        teardown_fits(teardown_start(modules), events),
        teardown_run(teardown_start(modules), events).phase == TeardownPhase::Done,
    ensures
        ({
            let requests = teardown_requests(teardown_start(modules), events);
            &&& requests.len() > 0
            &&& requests.last() == (RequestModel::RunEach {
                program: Program::Pactl,
                runs: unloads(unload_order(modules)),
            })
            &&& forall|i: int| 0 <= i < requests.len() - 1 ==> gives_back(#[trigger] requests[i])
        }),
{
    lemma_teardown_run(modules, events);
}

/// The removal of a route ends after four requests at most, whatever the replies
/// are: no failure keeps the modules loaded.
pub proof fn teardown_always_ends(modules: Seq<u32>, events: Seq<TaskEvent>)
    requires
        teardown_fits(teardown_start(modules), events),
    ensures
        events.len() <= 4,
        events.len() == 4 ==> teardown_run(teardown_start(modules), events).phase
            == TeardownPhase::Done,
        teardown_request(teardown_run(teardown_start(modules), events)) is Finished
            <==> teardown_run(teardown_start(modules), events).phase == TeardownPhase::Done,
{
    lemma_teardown_run(modules, events);
}

/// Taking a route down unloads every module that its set-up loaded, the last
/// loaded first, and no other.
pub proof fn teardown_undoes_the_setup(
    apps: Seq<Seq<char>>,
    setup_events: Seq<TaskEvent>,
    events: Seq<TaskEvent>,
)
    requires
        setup_fits(setup_start(apps), setup_events),
        ({
            let route = built_route(setup_run(setup_start(apps), setup_events));
            let start = teardown_start(route.modules);
            teardown_fits(start, events) && teardown_run(start, events).phase == TeardownPhase::Done
        }),
    ensures
        ({
            let route = built_route(setup_run(setup_start(apps), setup_events));
            let loaded = loaded_modules(setup_start(apps), setup_events);
            let requests = teardown_requests(teardown_start(route.modules), events);
            requests.len() > 0 && requests.last() == (RequestModel::RunEach {
                program: Program::Pactl,
                runs: unloads(unload_order(loaded)),
            })
        }),
{
    route_holds_what_was_loaded(apps, setup_events);
    lemma_teardown_run(built_route(setup_run(setup_start(apps), setup_events)).modules, events);
}

/// Each module of a route is named once among those that are unloaded, in the
/// reverse order of loading, by a text that stands for its id.
pub proof fn unloads_name_the_modules(modules: Seq<u32>, i: int)
    requires
        0 <= i < modules.len(),
    ensures
        unloads(unload_order(modules)).len() == modules.len(),
        unloads(unload_order(modules))[i].len() == 2,
        unloads(unload_order(modules))[i][0] == "unload-module"@,
        u32_value(unloads(unload_order(modules))[i][1]) == Some(modules[modules.len() - 1 - i]),
{
    decimal_reads_back(modules[modules.len() - 1 - i]);
}

/// The removal of everything counts a module for each line of the listing that
/// mentions this program, and names in each unload the first word of such a
/// line.
pub proof fn every_leftover_module_is_unloaded(listing: Seq<char>)
    ensures
        ({
            let m = cleanup_answered(cleanup_start(), Ok(listing));
            let ours = lines(listing).filter(|line: Seq<char>| mentions_pipeshare(line));
            &&& m.modules.len() == ours.len()
            &&& forall|i: int|
                0 <= i < ours.len() ==> words(#[trigger] ours[i]).len() > 0 && m.modules[i]
                    == words(ours[i])[0]
        }),
{
    lemma_own_modules(lines(listing));
}

proof fn lemma_own_modules(all: Seq<Seq<char>>)
    ensures
        ({
            let ours = all.filter(|line: Seq<char>| mentions_pipeshare(line));
            &&& own_modules(all).len() == ours.len()
            &&& forall|i: int|
                0 <= i < ours.len() ==> words(#[trigger] ours[i]).len() > 0 && own_modules(all)[i]
                    == words(ours[i])[0]
        }),
    decreases all.len(),
{
    reveal(Seq::filter);
    if all.len() > 0 {
        lemma_own_modules(all.drop_last());
        if mentions_pipeshare(all.last()) {
            lemma_mention_has_words(all.last());
        }
    }
}

/// The removal of everything after an event.
pub open spec fn cleanup_step(m: CleanupModel, event: TaskEvent) -> CleanupModel {
    match event {
        TaskEvent::Answered { answer } => cleanup_answered(m, answer),
        TaskEvent::Proceeded => cleanup_proceeded(m),
    }
}

/// The removal of everything after some events.
pub open spec fn cleanup_run(events: Seq<TaskEvent>) -> CleanupModel
    decreases events.len(),
{
    if events.len() == 0 {
        cleanup_start()
    } else {
        cleanup_step(cleanup_run(events.drop_last()), events.last())
    }
}

/// Whether each of the events answers the request before it.
pub open spec fn cleanup_fits(events: Seq<TaskEvent>) -> bool
    decreases events.len(),
{
    events.len() > 0 ==> cleanup_fits(events.drop_last()) && answers(
        cleanup_request(cleanup_run(events.drop_last())),
        events.last(),
    )
}

/// How far the removal of everything has come.
spec fn cleanup_rank(phase: CleanupPhase) -> int {
    match phase {
        CleanupPhase::ListModules => 0,
        CleanupPhase::Unload => 1,
        CleanupPhase::ListSources => 2,
        CleanupPhase::SetDefault => 3,
        CleanupPhase::Done => 4,
        CleanupPhase::Failed => 4,
    }
}

proof fn lemma_cleanup_run(events: Seq<TaskEvent>)
    requires
        cleanup_fits(events),
    ensures
        events.len() <= cleanup_rank(cleanup_run(events).phase),
        cleanup_run(events).error is Some <==> cleanup_run(events).phase == CleanupPhase::Failed,
    decreases events.len(),
{
    if events.len() > 0 {
        lemma_cleanup_run(events.drop_last());
    }
}

/// The removal of everything ends after four requests at most, whatever the
/// replies are. It has then either failed, with the error of a listing, or is
/// done.
pub proof fn cleanup_always_ends(events: Seq<TaskEvent>)
    requires
        cleanup_fits(events),
    ensures
        events.len() <= 4,
        events.len() == 4 ==> cleanup_request(cleanup_run(events)) is Finished,
        cleanup_request(cleanup_run(events)) is Finished ==> cleanup_run(events).error is Some
            || cleanup_run(events).phase == CleanupPhase::Done,
        cleanup_run(events).error is Some <==> cleanup_run(events).phase == CleanupPhase::Failed,
{
    lemma_cleanup_run(events);
}

/// The microphone that becomes the default one is the first real one of the
/// listing, never one of this program, and none where there is no real one.
pub proof fn restored_microphone_is_real(all: Seq<Seq<char>>)
    ensures
        match first_real_source(all) {
            Some(name) => exists|i: int|
                {
                    &&& 0 <= i < all.len()
                    &&& contains(#[trigger] all[i], "alsa_input"@)
                    &&& !contains(all[i], "PipeShare"@)
                    &&& words(all[i]).len() > 1
                    &&& words(all[i])[1] == name
                    &&& forall|j: int| 0 <= j < i ==> real_source(#[trigger] all[j]) is None
                },
            None => forall|j: int| 0 <= j < all.len() ==> real_source(#[trigger] all[j]) is None,
        },
    decreases all.len(),
{
    if all.len() > 0 {
        let rest = all.skip(1);
        if real_source(all[0]) is Some {
            assert(contains(all[0], "alsa_input"@));
        } else {
            restored_microphone_is_real(rest);
            match first_real_source(rest) {
                Some(name) => {
                    let i = choose|i: int|
                        {
                            &&& 0 <= i < rest.len()
                            &&& contains(#[trigger] rest[i], "alsa_input"@)
                            &&& !contains(rest[i], "PipeShare"@)
                            &&& words(rest[i]).len() > 1
                            &&& words(rest[i])[1] == name
                            &&& forall|j: int|
                                0 <= j < i ==> real_source(#[trigger] rest[j]) is None
                        };
                    assert(rest[i] == all[i + 1]);
                    assert forall|j: int| 0 <= j < i + 1 implies real_source(
                        #[trigger] all[j],
                    ) is None by {
                        if j > 0 {
                            assert(rest[j - 1] == all[j]);
                        }
                    }
                },
                None => {
                    assert forall|j: int| 0 <= j < all.len() implies real_source(
                        #[trigger] all[j],
                    ) is None by {
                        if j > 0 {
                            assert(rest[j - 1] == all[j]);
                        }
                    }
                },
            }
        }
    }
}

/// The removal of a route gives exactly the recording streams on its devices back
/// to the default source that the server names, and then unloads the modules.
pub proof fn recording_streams_go_back_to_the_default_source(
    modules: Seq<u32>,
    info: Seq<char>,
    name: Seq<char>,
    listing: Seq<char>,
)
    requires
        default_source(Ok(info)) == Ok::<Seq<char>, ErrorModel>(name),
    ensures
        ({
            let run = |args: Seq<Seq<char>>| RequestModel::Run { program: Program::Pactl, args };
            let m0 = teardown_start(modules);
            let m1 = teardown_answered(m0, Ok(info));
            let m2 = teardown_answered(m1, Ok(listing));
            let m3 = teardown_proceeded(m2);
            let m4 = teardown_proceeded(m3);
            &&& teardown_request(m0) == run(seq!["info"@])
            &&& teardown_request(m1) == run(seq!["list"@, "source-outputs"@])
            &&& teardown_request(m2) == (RequestModel::RunEach {
                program: Program::Pactl,
                runs: moves(
                    "move-source-output"@,
                    picked(lines(listing), "Source Output #"@, PickModel::OnPipeShare),
                    name,
                ),
            })
            &&& teardown_request(m3) == (RequestModel::RunEach {
                program: Program::Pactl,
                runs: unloads(unload_order(modules)),
            })
            &&& teardown_request(m4) is Finished
        }),
{
}

/// Where the default source cannot be told, or the recording streams cannot be
/// listed, no stream is moved, and the modules are unloaded all the same.
pub proof fn modules_go_though_streams_cannot_go_back(
    modules: Seq<u32>,
    info: Result<Seq<char>, ErrorModel>,
    error: ErrorModel,
)
    ensures
        ({
            let unload = RequestModel::RunEach {
                program: Program::Pactl,
                runs: unloads(unload_order(modules)),
            };
            let m1 = teardown_answered(teardown_start(modules), info);
            let m2 = teardown_answered(m1, Err(error));
            &&& default_source(info) is Err ==> teardown_request(m1) == unload
            &&& default_source(info) is Ok ==> teardown_request(m2) == unload
        }),
{
}

/// The removal of everything, where the listings can be had: every module of this
/// program is unloaded by the first word of its line, and the first real
/// microphone, where there is one, becomes the default source.
pub proof fn everything_is_removed(modules: Seq<char>, sources: Seq<char>)
    ensures
        ({
            let run = |args: Seq<Seq<char>>| RequestModel::Run { program: Program::Pactl, args };
            let m0 = cleanup_start();
            let m1 = cleanup_answered(m0, Ok(modules));
            let m2 = cleanup_proceeded(m1);
            let m3 = cleanup_answered(m2, Ok(sources));
            let m4 = cleanup_proceeded(m3);
            &&& cleanup_request(m0) == run(seq!["list"@, "modules"@, "short"@])
            &&& cleanup_request(m1) == (RequestModel::RunEach {
                program: Program::Pactl,
                runs: unloads(own_modules(lines(modules))),
            })
            &&& cleanup_request(m2) == run(seq!["list"@, "sources"@, "short"@])
            &&& cleanup_request(m3) == (RequestModel::RunEach {
                program: Program::Pactl,
                runs: match first_real_source(lines(sources)) {
                    Some(name) => seq![seq!["set-default-source"@, name]],
                    None => seq![],
                },
            })
            &&& cleanup_request(m4) is Finished
            &&& m4.phase == CleanupPhase::Done
            &&& m4.modules == own_modules(lines(modules))
            &&& m4.error is None
        }),
{
}

/// A listing that cannot be had ends the removal of everything with its error.
pub proof fn missing_listing_ends_the_removal(modules: Seq<char>, error: ErrorModel)
    ensures
        ({
            let first = cleanup_answered(cleanup_start(), Err(error));
            let second = cleanup_answered(
                cleanup_proceeded(cleanup_answered(cleanup_start(), Ok(modules))),
                Err(error),
            );
            &&& first.error == Some(error)
            &&& cleanup_request(first) is Finished
            &&& second.error == Some(error)
            &&& cleanup_request(second) is Finished
        }),
{
}

/// The modules of a route are unloaded in the reverse order of loading, each by its
/// number.
pub proof fn modules_go_in_reverse(a: Seq<u32>, id: u32)
    ensures
        unload_order(a.push(id)) == seq![decimal(id as nat)] + unload_order(a),
        unload_order(Seq::empty()) == Seq::<Seq<char>>::empty(),
{
    assert(a.push(id).reverse() =~= seq![id] + a.reverse());
    assert(unload_order(a.push(id)) =~= seq![decimal(id as nat)] + unload_order(a));
    assert(unload_order(Seq::empty()) =~= Seq::<Seq<char>>::empty());
}

/// The removal of everything counts one for each line of the listing that holds the
/// name of the program.
pub proof fn every_removed_module_counts(modules: Seq<char>, sources: Seq<char>)
    requires
        lines(modules).len() < 0x1_0000_0000,
    ensures
        ({
            let listed = cleanup_proceeded(cleanup_answered(cleanup_start(), Ok(modules)));
            let m = cleanup_proceeded(cleanup_answered(listed, Ok(sources)));
            let ours = lines(modules).filter(
                |line: Seq<char>| contains(line, "PipeShare"@) || contains(line, "pipeshare"@),
            );
            cleaned_count(m) == ours.len()
        }),
{
    let all = lines(modules);
    lemma_own_modules(all);
    let f = |line: Seq<char>| mentions_pipeshare(line);
    let g = |line: Seq<char>| contains(line, "PipeShare"@) || contains(line, "pipeshare"@);
    assert(f =~= g);
    all.lemma_filter_len(f);
}

} // verus!
