//! The prompt that follows the start of a screen share.

use crate::audio::{audio_sources, node_names, source_names, AudioNode};
use crate::command::{
    answer_model, pw_link_answer, run_pw_link, CommandError, CommandReply, ErrorModel, Program,
    Request, RequestModel,
};
use crate::dialog::{
    choice_texts, kdialog_args, kdialog_choice, kdialog_command, read_kdialog, read_zenity,
    zenity_args, zenity_choice, zenity_command,
};
use crate::pulse::{list_ports_args, list_ports_command};
use crate::text::{lossy_text, lossy_utf8};
use vstd::prelude::*;

verus! {

/// What came of a dialog.
#[derive(Debug)]
pub enum DialogAnswer {
    /// The dialog program could not be started.
    Missing { reason: String },
    /// The user closed the dialog.
    Dismissed,
    /// The user confirmed the dialog, which printed the choice.
    Printed { text: String },
}

/// A [`DialogAnswer`] as a mathematical value.
#[verifier::ext_equal]
pub ghost enum DialogModel {
    Missing { reason: Seq<char> },
    Dismissed,
    Printed { text: Seq<char> },
}

impl View for DialogAnswer {
    type V = DialogModel;

    open spec fn view(&self) -> DialogModel {
        match *self {
            DialogAnswer::Missing { reason } => DialogModel::Missing { reason: reason@ },
            DialogAnswer::Dismissed => DialogModel::Dismissed,
            DialogAnswer::Printed { text } => DialogModel::Printed { text: text@ },
        }
    }
}

/// What the reply of a dialog program says.
pub open spec fn dialog_answer(reply: CommandReply) -> DialogModel {
    match reply {
        CommandReply::NotStarted { reason } => DialogModel::Missing { reason: reason@ },
        CommandReply::Finished { success, stdout, stderr } => if success {
            DialogModel::Printed { text: lossy_utf8(stdout@) }
        } else {
            DialogModel::Dismissed
        },
    }
}

/// Reads the reply of a dialog program.
pub fn read_dialog(reply: &CommandReply) -> (r: DialogAnswer)
    ensures
        r@ == dialog_answer(*reply),
{
    match reply {
        CommandReply::NotStarted { reason } => DialogAnswer::Missing { reason: reason.clone() },
        CommandReply::Finished { success, stdout, .. } => if *success {
            DialogAnswer::Printed { text: lossy_text(stdout.as_slice()) }
        } else {
            DialogAnswer::Dismissed
        },
    }
}

/// What the prompt does next.
#[derive(Debug, Clone, Copy, PartialEq, Eq, Structural)]
pub enum PromptPhase {
    /// List the applications that produce audio.
    ListSources,
    /// Tell the user that there are none.
    TellNone,
    /// Ask by `kdialog`.
    AskKdialog,
    /// Ask by `zenity`, where `kdialog` is missing.
    AskZenity,
    /// The prompt is over.
    Done,
    /// The user could not be asked.
    Failed,
}

/// A prompt for the applications to share, in progress.
#[derive(Debug)]
pub struct AudioPrompt {
    phase: PromptPhase,
    sources: Vec<AudioNode>,
    chosen: Option<Vec<String>>,
    error: Option<CommandError>,
}

/// An [`AudioPrompt`] as a mathematical value.
#[verifier::ext_equal]
pub ghost struct PromptModel {
    /// What is to be done next.
    pub phase: PromptPhase,
    /// The names to choose from.
    pub names: Seq<Seq<char>>,
    /// What the user chose, if anything.
    pub chosen: Option<Seq<Seq<char>>>,
    /// Why the user could not be asked, if so.
    pub error: Option<ErrorModel>,
}

/// The prompt before its first step.
pub open spec fn prompt_start() -> PromptModel {
    PromptModel { phase: PromptPhase::ListSources, names: seq![], chosen: None, error: None }
}

/// What the prompt asks for.
pub open spec fn prompt_request(m: PromptModel) -> RequestModel {
    match m.phase {
        PromptPhase::ListSources => RequestModel::Run {
            program: Program::PwLink,
            args: list_ports_args(),
        },
        PromptPhase::TellNone => RequestModel::Notify {
            title: "PipeShare"@,
            body: "No audio-producing applications were located. Start video playback in a browser first."@,
        },
        PromptPhase::AskKdialog => RequestModel::Run {
            program: Program::Kdialog,
            args: kdialog_args(m.names),
        },
        PromptPhase::AskZenity => RequestModel::Run {
            program: Program::Zenity,
            args: zenity_args(m.names),
        },
        PromptPhase::Done => RequestModel::Finished,
        PromptPhase::Failed => RequestModel::Finished,
    }
}

/// The prompt after the listing of the applications.
pub open spec fn prompt_listed(m: PromptModel, answer: Result<Seq<char>, ErrorModel>) -> PromptModel {
    match (m.phase, answer) {
        (PromptPhase::ListSources, Ok(listing)) => {
            let names = source_names(listing);
            PromptModel {
                phase: if names.len() == 0 {
                    PromptPhase::TellNone
                } else {
                    PromptPhase::AskKdialog
                },
                names,
                ..m
            }
        },
        (PromptPhase::ListSources, Err(error)) => PromptModel {
            phase: PromptPhase::Failed,
            error: Some(error),
            ..m
        },
        _ => m,
    }
}

/// The prompt after a dialog.
pub open spec fn prompt_answered(m: PromptModel, answer: DialogModel) -> PromptModel {
    match (m.phase, answer) {
        (PromptPhase::AskKdialog, DialogModel::Missing { .. }) => PromptModel {
            phase: PromptPhase::AskZenity,
            ..m
        },
        (PromptPhase::AskKdialog, DialogModel::Printed { text }) => PromptModel {
            phase: PromptPhase::Done,
            chosen: kdialog_choice(text),
            ..m
        },
        (PromptPhase::AskZenity, DialogModel::Missing { reason }) => PromptModel {
            phase: PromptPhase::Failed,
            error: Some(ErrorModel::System { reason }),
            ..m
        },
        (PromptPhase::AskZenity, DialogModel::Printed { text }) => PromptModel {
            phase: PromptPhase::Done,
            chosen: zenity_choice(text),
            ..m
        },
        (PromptPhase::AskKdialog, DialogModel::Dismissed) => PromptModel {
            phase: PromptPhase::Done,
            chosen: None,
            ..m
        },
        (PromptPhase::AskZenity, DialogModel::Dismissed) => PromptModel {
            phase: PromptPhase::Done,
            chosen: None,
            ..m
        },
        _ => m,
    }
}

/// The prompt after the reply to the command that it asked for.
pub open spec fn prompt_replied(m: PromptModel, reply: CommandReply) -> PromptModel {
    if m.phase == PromptPhase::ListSources {
        prompt_listed(m, pw_link_answer(reply))
    } else {
        prompt_answered(m, dialog_answer(reply))
    }
}

/// The prompt after the user was told that there is nothing to choose.
pub open spec fn prompt_proceeded(m: PromptModel) -> PromptModel {
    if m.phase == PromptPhase::TellNone {
        PromptModel { phase: PromptPhase::Done, ..m }
    } else {
        m
    }
}

impl View for AudioPrompt {
    type V = PromptModel;

    closed spec fn view(&self) -> PromptModel {
        PromptModel {
            phase: self.phase,
            names: node_names(self.sources@),
            chosen: choice_texts(self.chosen),
            error: match self.error {
                Some(error) => Some(error@),
                None => None,
            },
        }
    }
}

/// Starts to ask the user which applications to share the audio of.
pub fn ask_user_for_audio_source() -> (r: AudioPrompt)
    ensures
        r@ == prompt_start(),
{
    let sources: Vec<AudioNode> = Vec::new();
    assert(node_names(sources@) =~= Seq::<Seq<char>>::empty());
    AudioPrompt { phase: PromptPhase::ListSources, sources, chosen: None, error: None }
}

impl AudioPrompt {
    /// What is to be done next.
    pub fn request(&self) -> (r: Request)
        ensures
            r@ == prompt_request(self@),
    {
        match self.phase {
            PromptPhase::ListSources => Request::Run {
                program: Program::PwLink,
                args: list_ports_command(),
            },
            PromptPhase::TellNone => Request::Notify {
                title: "PipeShare".to_owned(),
                body:
                    "No audio-producing applications were located. Start video playback in a browser first.".to_owned(),
            },
            PromptPhase::AskKdialog => Request::Run {
                program: Program::Kdialog,
                args: kdialog_command(&self.sources),
            },
            PromptPhase::AskZenity => Request::Run {
                program: Program::Zenity,
                args: zenity_command(&self.sources),
            },
            PromptPhase::Done => Request::Finished,
            PromptPhase::Failed => Request::Finished,
        }
    }

    /// Takes the listing of the output ports.
    pub fn accept_listing(&mut self, answer: Result<String, CommandError>)
        ensures
            final(self)@ == prompt_listed(old(self)@, answer_model(answer)),
    {
        if self.phase != PromptPhase::ListSources {
            return;
        }
        match answer {
            Ok(listing) => {
                self.sources = audio_sources(listing.as_str());
                assert(node_names(self.sources@).len() == self.sources@.len());
                self.phase = if self.sources.len() == 0 {
                    PromptPhase::TellNone
                } else {
                    PromptPhase::AskKdialog
                };
            },
            Err(error) => {
                self.error = Some(error);
                self.phase = PromptPhase::Failed;
            },
        }
    }

    /// Takes what came of a dialog.
    pub fn accept_dialog(&mut self, answer: DialogAnswer)
        ensures
            final(self)@ == prompt_answered(old(self)@, answer@),
    {
        match self.phase {
            PromptPhase::AskKdialog => match answer {
                DialogAnswer::Missing { .. } => {
                    self.phase = PromptPhase::AskZenity;
                },
                DialogAnswer::Dismissed => {
                    self.chosen = None;
                    self.phase = PromptPhase::Done;
                },
                DialogAnswer::Printed { text } => {
                    self.chosen = read_kdialog(text.as_str());
                    self.phase = PromptPhase::Done;
                },
            },
            PromptPhase::AskZenity => match answer {
                DialogAnswer::Missing { reason } => {
                    self.error = Some(CommandError::System { reason });
                    self.phase = PromptPhase::Failed;
                },
                DialogAnswer::Dismissed => {
                    self.chosen = None;
                    self.phase = PromptPhase::Done;
                },
                DialogAnswer::Printed { text } => {
                    self.chosen = read_zenity(text.as_str());
                    self.phase = PromptPhase::Done;
                },
            },
            _ => {},
        }
    }

    /// Takes the reply to the command that was asked for.
    pub fn resume(&mut self, reply: &CommandReply)
        ensures
            final(self)@ == prompt_replied(old(self)@, *reply),
    {
        if self.phase == PromptPhase::ListSources {
            self.accept_listing(run_pw_link(reply));
        } else {
            self.accept_dialog(read_dialog(reply));
        }
    }

    /// Goes on after the message that was asked for.
    pub fn proceed(&mut self)
        ensures
            final(self)@ == prompt_proceeded(old(self)@),
    {
        if self.phase == PromptPhase::TellNone {
            self.phase = PromptPhase::Done;
        }
    }

    /// What came of the prompt, once it is over: the chosen applications, if
    /// the user chose any.
    pub fn outcome(self) -> (r: Option<Result<Option<Vec<String>>, CommandError>>)
        ensures
            match r {
                Some(Ok(chosen)) => {
                    &&& self@.error is None
                    &&& self@.phase == PromptPhase::Done
                    &&& choice_texts(chosen) == self@.chosen
                },
                Some(Err(error)) => self@.error == Some(error@),
                None => self@.error is None && self@.phase != PromptPhase::Done,
            },
    {
        match self.error {
            Some(error) => Some(Err(error)),
            None => {
                if self.phase == PromptPhase::Done {
                    Some(Ok(self.chosen))
                } else {
                    None
                }
            },
        }
    }
}

// ---------------------------------------------------------------------------
// Laws
// ---------------------------------------------------------------------------

/// What the prompt is told: the listing, what came of a dialog, or that it may
/// go on.
#[verifier::ext_equal]
pub ghost enum PromptEvent {
    Listed { answer: Result<Seq<char>, ErrorModel> },
    Answered { answer: DialogModel },
    Proceeded,
}

/// Whether an event can follow what the prompt asked for. Nothing follows the
/// end.
pub open spec fn prompt_expects(m: PromptModel, event: PromptEvent) -> bool {
    match m.phase {
        PromptPhase::ListSources => event is Listed,
        PromptPhase::TellNone => event is Proceeded,
        PromptPhase::AskKdialog => event is Answered,
        PromptPhase::AskZenity => event is Answered,
        PromptPhase::Done => false,
        PromptPhase::Failed => false,
    }
}

/// The prompt after some events.
pub open spec fn prompt_run(events: Seq<PromptEvent>) -> PromptModel
    decreases events.len(),
{
    if events.len() == 0 {
        prompt_start()
    } else {
        let m = prompt_run(events.drop_last());
        match events.last() {
            PromptEvent::Listed { answer } => prompt_listed(m, answer),
            PromptEvent::Answered { answer } => prompt_answered(m, answer),
            PromptEvent::Proceeded => prompt_proceeded(m),
        }
    }
}

/// Whether each of the events can follow what was asked for before it.
pub open spec fn prompt_fits(events: Seq<PromptEvent>) -> bool
    decreases events.len(),
{
    events.len() > 0 ==> prompt_fits(events.drop_last()) && prompt_expects(
        prompt_run(events.drop_last()),
        events.last(),
    )
}

/// How far the prompt has come.
spec fn prompt_rank(phase: PromptPhase) -> int {
    match phase {
        PromptPhase::ListSources => 0,
        PromptPhase::TellNone => 1,
        PromptPhase::AskKdialog => 1,
        PromptPhase::AskZenity => 2,
        PromptPhase::Done => 3,
        PromptPhase::Failed => 3,
    }
}

proof fn lemma_prompt_run(events: Seq<PromptEvent>)
    requires
        prompt_fits(events),
    ensures
        ({
            let m = prompt_run(events);
            &&& events.len() <= prompt_rank(m.phase)
            &&& m.error is Some <==> m.phase == PromptPhase::Failed
            &&& m.chosen is Some ==> m.phase == PromptPhase::Done && m.chosen->0.len() > 0
            &&& m.phase == PromptPhase::AskKdialog || m.phase == PromptPhase::AskZenity
                ==> m.names.len() > 0
        }),
    decreases events.len(),
{
    if events.len() > 0 {
        lemma_prompt_run(events.drop_last());
    }
}

/// The prompt ends after three requests at most. It has then either failed, with
/// an error, or is done.
pub proof fn prompt_always_ends(events: Seq<PromptEvent>)
    requires
        prompt_fits(events),
    ensures
        events.len() <= 3,
        events.len() == 3 ==> prompt_request(prompt_run(events)) is Finished,
        prompt_run(events).error is Some <==> prompt_run(events).phase == PromptPhase::Failed,
{
    lemma_prompt_run(events);
}

/// A user is never asked to choose from nothing, and never counts as having
/// chosen nothing: a choice that is handed out names an application.
pub proof fn choice_is_never_empty(events: Seq<PromptEvent>)
    requires
        prompt_fits(events),
    ensures
        ({
            let m = prompt_run(events);
            &&& m.chosen matches Some(apps) ==> apps.len() > 0
            &&& m.phase == PromptPhase::AskKdialog || m.phase == PromptPhase::AskZenity
                ==> m.names.len() > 0
        }),
{
    lemma_prompt_run(events);
}

/// The user is asked about exactly the applications of the listing, by `kdialog`
/// first. Where there are none, the user is told so.
pub proof fn user_is_asked_about_all_applications(listing: Seq<char>, error: ErrorModel)
    ensures
        ({
            let m0 = prompt_start();
            let m1 = prompt_listed(m0, Ok(listing));
            let failed = prompt_listed(m0, Err(error));
            let names = source_names(listing);
            &&& prompt_request(m0) == (RequestModel::Run {
                program: Program::PwLink,
                args: seq!["-o"@],
            })
            &&& names.len() > 0 ==> prompt_request(m1) == (RequestModel::Run {
                program: Program::Kdialog,
                args: kdialog_args(names),
            })
            &&& names.len() == 0 ==> prompt_request(m1) is Notify && prompt_proceeded(m1).phase
                == PromptPhase::Done && prompt_proceeded(m1).chosen is None
            &&& prompt_request(failed) is Finished
            &&& failed.error == Some(error)
        }),
{
}

/// What comes of the dialogs: the choice that `kdialog` printed; where it is
/// missing, `zenity` is asked about the same applications, and its choice counts;
/// where both are missing, the prompt fails with the reason. A dialog that is
/// closed is no choice.
pub proof fn dialogs_are_asked_in_turn(listing: Seq<char>, text: Seq<char>, reason: Seq<char>)
    requires
        source_names(listing).len() > 0,
    ensures
        ({
            let first = prompt_listed(prompt_start(), Ok(listing));
            let chosen = prompt_answered(first, DialogModel::Printed { text });
            let closed = prompt_answered(first, DialogModel::Dismissed);
            let second = prompt_answered(first, DialogModel::Missing { reason });
            let chosen2 = prompt_answered(second, DialogModel::Printed { text });
            let closed2 = prompt_answered(second, DialogModel::Dismissed);
            let failed = prompt_answered(second, DialogModel::Missing { reason });
            &&& chosen.phase == PromptPhase::Done && chosen.chosen == kdialog_choice(text)
            &&& closed.phase == PromptPhase::Done && closed.chosen is None
            &&& prompt_request(second) == (RequestModel::Run {
                program: Program::Zenity,
                args: zenity_args(source_names(listing)),
            })
            &&& chosen2.phase == PromptPhase::Done && chosen2.chosen == zenity_choice(text)
            &&& closed2.phase == PromptPhase::Done && closed2.chosen is None
            &&& prompt_request(failed) is Finished
            &&& failed.error == Some(ErrorModel::System { reason })
        }),
{
}

/// The reply of a dialog program is read by whether it was started and succeeded.
pub proof fn dialogs_are_read_by_their_success(
    success: bool,
    stdout: Vec<u8>,
    stderr: Vec<u8>,
    reason: String,
)
    ensures
        dialog_answer(CommandReply::NotStarted { reason }) == (DialogModel::Missing {
            reason: reason@,
        }),
        dialog_answer(CommandReply::Finished { success: true, stdout, stderr }) == (
        DialogModel::Printed { text: lossy_utf8(stdout@) }),
        dialog_answer(CommandReply::Finished { success: false, stdout, stderr })
            == DialogModel::Dismissed,
{
}

} // verus!
