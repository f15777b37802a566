//! Moving the audio of a single application: to the sink of a route, or by
//! links beside its own output.

use crate::audio::{app_ports, picked, picked_streams, ports_among, PickModel, StreamPick};
use crate::command::{
    answer_model, pactl_answer, pw_link_answer, run_pactl, run_pw_link, CommandError, CommandReply,
    ErrorModel, Program, Request, RequestModel,
};
use crate::pulse::{
    link_commands, links, list_inputs_args, list_inputs_command, list_ports_args,
    list_ports_command, move_commands, moves, pactl, pactl_each,
};
use crate::route::{setup_answered, setup_request, SetupModel, SetupPhase};
use crate::text::{lines, texts};
use vstd::prelude::*;

verus! {

// ---------------------------------------------------------------------------
// Moving the streams of an application
// ---------------------------------------------------------------------------

/// What the move of an application does next.
#[derive(Debug, Clone, Copy, PartialEq, Eq, Structural)]
pub enum RelinkPhase {
    /// List the streams that play.
    ListInputs,
    /// Move those of the application.
    MoveInputs,
    /// The streams are moved.
    Done,
}

/// The move of an application to the sink of a route, in progress.
#[derive(Debug)]
pub struct Relink {
    phase: RelinkPhase,
    app: String,
    streams: Vec<String>,
}

/// A [`Relink`] as a mathematical value.
#[verifier::ext_equal]
pub ghost struct RelinkModel {
    /// What is to be done next.
    pub phase: RelinkPhase,
    /// The application.
    pub app: Seq<char>,
    /// The streams to move.
    pub streams: Seq<Seq<char>>,
}

/// The move of an application before its first step.
pub open spec fn relink_start(app: Seq<char>) -> RelinkModel {
    RelinkModel { phase: RelinkPhase::ListInputs, app, streams: seq![] }
}

/// What the move asks for.
pub open spec fn relink_request(m: RelinkModel) -> RequestModel {
    match m.phase {
        RelinkPhase::ListInputs => RequestModel::Run {
            program: Program::Pactl,
            args: list_inputs_args(),
        },
        RelinkPhase::MoveInputs => RequestModel::RunEach {
            program: Program::Pactl,
            runs: moves("move-sink-input"@, m.streams, "PipeShare_AppSink"@),
        },
        RelinkPhase::Done => RequestModel::Finished,
    }
}

/// The move after the answer to the listing.
pub open spec fn relink_answered(m: RelinkModel, answer: Result<Seq<char>, ErrorModel>) -> RelinkModel {
    match (m.phase, answer) {
        (RelinkPhase::ListInputs, Ok(listing)) => RelinkModel {
            phase: RelinkPhase::MoveInputs,
            streams: picked(lines(listing), "Sink Input #"@, PickModel::Named { app: m.app }),
            ..m
        },
        (RelinkPhase::ListInputs, Err(_)) => RelinkModel { phase: RelinkPhase::Done, ..m },
        _ => m,
    }
}

/// The move after the runs whose success makes no difference.
pub open spec fn relink_proceeded(m: RelinkModel) -> RelinkModel {
    match m.phase {
        RelinkPhase::MoveInputs => RelinkModel { phase: RelinkPhase::Done, ..m },
        _ => m,
    }
}

impl View for Relink {
    type V = RelinkModel;

    closed spec fn view(&self) -> RelinkModel {
        RelinkModel { phase: self.phase, app: self.app@, streams: texts(self.streams@) }
    }
}

/// Starts to move the audio of an application to the sink of the route.
pub fn relink_app_to_mix(target_app_name: &str) -> (r: Relink)
    ensures
        r@ == relink_start(target_app_name@),
{
    Relink {
        phase: RelinkPhase::ListInputs,
        app: target_app_name.to_owned(),
        streams: Vec::new(),
    }
}

impl Relink {
    /// What is to be done next.
    pub fn request(&self) -> (r: Request)
        ensures
            r@ == relink_request(self@),
    {
        match self.phase {
            RelinkPhase::ListInputs => pactl(list_inputs_command()),
            RelinkPhase::MoveInputs => pactl_each(
                move_commands("move-sink-input", &self.streams, "PipeShare_AppSink"),
            ),
            RelinkPhase::Done => Request::Finished,
        }
    }

    /// Takes the answer to the listing that was asked for.
    pub fn accept(&mut self, answer: Result<String, CommandError>)
        ensures
            final(self)@ == relink_answered(old(self)@, answer_model(answer)),
    {
        if self.phase == RelinkPhase::ListInputs {
            match answer {
                Ok(listing) => {
                    let pick = StreamPick::Named { app: self.app.clone() };
                    self.streams = picked_streams(listing.as_str(), "Sink Input #", &pick);
                    self.phase = RelinkPhase::MoveInputs;
                },
                Err(_) => {
                    self.phase = RelinkPhase::Done;
                },
            }
        }
    }

    /// Takes the reply to the listing that was asked for.
    pub fn resume(&mut self, reply: &CommandReply)
        ensures
            final(self)@ == relink_answered(old(self)@, pactl_answer(*reply)),
    {
        self.accept(run_pactl(reply));
    }

    /// Goes on after the runs that were asked for.
    pub fn proceed(&mut self)
        ensures
            final(self)@ == relink_proceeded(old(self)@),
    {
        if self.phase == RelinkPhase::MoveInputs {
            self.phase = RelinkPhase::Done;
        }
    }
}

// ---------------------------------------------------------------------------
// Linking the ports of an application
// ---------------------------------------------------------------------------

/// What the linking of an application does next.
#[derive(Debug, Clone, Copy, PartialEq, Eq, Structural)]
pub enum LinkPhase {
    /// List the output ports.
    ListPorts,
    /// Link those of the application to the mix.
    Link,
    /// The ports are linked.
    Done,
    /// The ports could not be listed.
    Failed,
}

/// The linking of an application to the mix, in progress. The application keeps
/// its own output.
#[derive(Debug)]
pub struct MixLink {
    phase: LinkPhase,
    app: String,
    ports: Vec<String>,
    error: Option<CommandError>,
}

/// A [`MixLink`] as a mathematical value.
#[verifier::ext_equal]
pub ghost struct LinkModel {
    /// What is to be done next.
    pub phase: LinkPhase,
    /// The application.
    pub app: Seq<char>,
    /// The ports to link.
    pub ports: Seq<Seq<char>>,
    /// Why the linking failed, if it did.
    pub error: Option<ErrorModel>,
}

/// The linking of an application before its first step.
pub open spec fn link_start(app: Seq<char>) -> LinkModel {
    LinkModel { phase: LinkPhase::ListPorts, app, ports: seq![], error: None }
}

/// What the linking asks for.
pub open spec fn link_request(m: LinkModel) -> RequestModel {
    match m.phase {
        LinkPhase::ListPorts => RequestModel::Run {
            program: Program::PwLink,
            args: list_ports_args(),
        },
        LinkPhase::Link => RequestModel::RunEach { program: Program::PwLink, runs: links(m.ports) },
        LinkPhase::Done => RequestModel::Finished,
        LinkPhase::Failed => RequestModel::Finished,
    }
}

/// The linking after the answer to the listing.
pub open spec fn link_answered(m: LinkModel, answer: Result<Seq<char>, ErrorModel>) -> LinkModel {
    match (m.phase, answer) {
        (LinkPhase::ListPorts, Ok(listing)) => {
            let ports = ports_among(lines(listing), m.app);
            LinkModel {
                phase: if ports.len() == 0 {
                    LinkPhase::Done
                } else {
                    LinkPhase::Link
                },
                ports,
                ..m
            }
        },
        (LinkPhase::ListPorts, Err(error)) => LinkModel {
            phase: LinkPhase::Failed,
            error: Some(error),
            ..m
        },
        _ => m,
    }
}

/// The linking after the runs whose success makes no difference.
pub open spec fn link_proceeded(m: LinkModel) -> LinkModel {
    match m.phase {
        LinkPhase::Link => LinkModel { phase: LinkPhase::Done, ..m },
        _ => m,
    }
}

impl View for MixLink {
    type V = LinkModel;

    closed spec fn view(&self) -> LinkModel {
        LinkModel {
            phase: self.phase,
            app: self.app@,
            ports: texts(self.ports@),
            error: match self.error {
                Some(error) => Some(error@),
                None => None,
            },
        }
    }
}

/// Starts to link the output ports of an application to the mix.
pub fn link_app_to_mix(target_app_name: &str) -> (r: MixLink)
    ensures
        r@ == link_start(target_app_name@),
{
    MixLink {
        phase: LinkPhase::ListPorts,
        app: target_app_name.to_owned(),
        ports: Vec::new(),
        error: None,
    }
}

impl MixLink {
    /// What is to be done next.
    pub fn request(&self) -> (r: Request)
        ensures
            r@ == link_request(self@),
    {
        match self.phase {
            LinkPhase::ListPorts => Request::Run {
                program: Program::PwLink,
                args: list_ports_command(),
            },
            LinkPhase::Link => Request::RunEach {
                program: Program::PwLink,
                runs: link_commands(&self.ports),
            },
            LinkPhase::Done => Request::Finished,
            LinkPhase::Failed => Request::Finished,
        }
    }

    /// Takes the answer to the listing that was asked for.
    pub fn accept(&mut self, answer: Result<String, CommandError>)
        ensures
            final(self)@ == link_answered(old(self)@, answer_model(answer)),
    {
        if self.phase == LinkPhase::ListPorts {
            match answer {
                Ok(listing) => {
                    self.ports = app_ports(listing.as_str(), self.app.as_str());
                    assert(texts(self.ports@).len() == self.ports@.len());
                    self.phase = if self.ports.len() == 0 {
                        LinkPhase::Done
                    } else {
                        LinkPhase::Link
                    };
                },
                Err(error) => {
                    self.error = Some(error);
                    self.phase = LinkPhase::Failed;
                },
            }
        }
    }

    /// Takes the reply to the listing that was asked for.
    pub fn resume(&mut self, reply: &CommandReply)
        ensures
            final(self)@ == link_answered(old(self)@, pw_link_answer(*reply)),
    {
        self.accept(run_pw_link(reply));
    }

    /// Goes on after the runs that were asked for.
    pub fn proceed(&mut self)
        ensures
            final(self)@ == link_proceeded(old(self)@),
    {
        if self.phase == LinkPhase::Link {
            self.phase = LinkPhase::Done;
        }
    }

    /// What came of the linking, once it is over.
    pub fn outcome(self) -> (r: Option<Result<(), CommandError>>)
        ensures
            match r {
                Some(Ok(_)) => self@.error is None && self@.phase == LinkPhase::Done,
                Some(Err(error)) => self@.error == Some(error@),
                None => self@.error is None && self@.phase != LinkPhase::Done,
            },
    {
        match self.error {
            Some(error) => Some(Err(error)),
            None => {
                if self.phase == LinkPhase::Done {
                    Some(Ok(()))
                } else {
                    None
                }
            },
        }
    }
}

// ---------------------------------------------------------------------------
// Laws
// ---------------------------------------------------------------------------

/// An application is moved again just as it was moved when the route was set up:
/// from the same listing, by the same commands.
pub proof fn relink_repeats_the_setup(m: SetupModel, answer: Result<Seq<char>, ErrorModel>)
    requires
        m.phase == SetupPhase::ListInputs,
    ensures
        ({
            let relink = relink_start(m.current_app);
            let moved = relink_answered(relink, answer);
            &&& relink_request(relink) == setup_request(m)
            &&& answer is Ok ==> relink_request(moved) == setup_request(setup_answered(m, answer))
            &&& answer is Err ==> relink_request(moved) is Finished
        }),
{
}

/// The move of an application, where the playing streams can be listed: the streams
/// that are picked by its name are moved to the sink of the applications.
pub proof fn application_moves_to_the_sink(app: Seq<char>, listing: Seq<char>)
    ensures
        ({
            let m0 = relink_start(app);
            let m1 = relink_answered(m0, Ok(listing));
            let m2 = relink_proceeded(m1);
            &&& relink_request(m0) == (RequestModel::Run {
                program: Program::Pactl,
                args: seq!["list"@, "sink-inputs"@],
            })
            &&& relink_request(m1) == (RequestModel::RunEach {
                program: Program::Pactl,
                runs: moves(
                    "move-sink-input"@,
                    picked(lines(listing), "Sink Input #"@, PickModel::Named { app }),
                    "PipeShare_AppSink"@,
                ),
            })
            &&& relink_request(m2) is Finished
        }),
{
}

/// The linking of an application: every one of its ports in the listing is linked,
/// in order. An application without ports is not linked, and a listing that cannot
/// be had is an error.
pub proof fn every_port_of_the_application_is_linked(
    app: Seq<char>,
    listing: Seq<char>,
    error: ErrorModel,
)
    ensures
        ({
            let m0 = link_start(app);
            let m1 = link_answered(m0, Ok(listing));
            let m2 = link_proceeded(m1);
            let failed = link_answered(m0, Err(error));
            let ports = ports_among(lines(listing), app);
            &&& link_request(m0) == (RequestModel::Run {
                program: Program::PwLink,
                args: seq!["-o"@],
            })
            &&& ports.len() > 0 ==> link_request(m1) == (RequestModel::RunEach {
                program: Program::PwLink,
                runs: links(ports),
            })
            &&& ports.len() == 0 ==> link_request(m1) is Finished
            &&& link_request(m2) is Finished
            &&& m2.phase == LinkPhase::Done
            &&& m2.error is None
            &&& link_request(failed) is Finished
            &&& failed.error == Some(error)
        }),
{
}

} // verus!
