//! What the library asks of the system, and how it reads the replies.
//!
//! The library starts no process itself. A task hands out a [`Request`]; the
//! caller carries it out and hands the [`CommandReply`] back.

use crate::text::{chars_of, contains, holds, lossy_text, lossy_utf8, string_of, texts, trim, trimmed};
use vstd::prelude::*;

verus! {

/// The programs that the library asks for.
#[derive(Debug, Clone, Copy, PartialEq, Eq, Structural)]
pub enum Program {
    /// The PulseAudio control tool.
    Pactl,
    /// The PipeWire link tool.
    PwLink,
    /// The KDE dialog tool.
    Kdialog,
    /// The GTK dialog tool.
    Zenity,
}

/// The name by which a program is started.
pub open spec fn program_name(program: Program) -> Seq<char> {
    match program {
        Program::Pactl => "pactl"@,
        Program::PwLink => "pw-link"@,
        Program::Kdialog => "kdialog"@,
        Program::Zenity => "zenity"@,
    }
}

impl Program {
    /// The name by which the program is started.
    pub fn name(&self) -> (r: &'static str)
        ensures
            r@ == program_name(*self),
    {
        match self {
            Program::Pactl => "pactl",
            Program::PwLink => "pw-link",
            Program::Kdialog => "kdialog",
            Program::Zenity => "zenity",
        }
    }
}

/// What a task wants done next.
#[derive(Debug)]
pub enum Request {
    /// Run a program with arguments and hand back its reply.
    Run { program: Program, args: Vec<String> },
    /// Run a program once for each list of arguments, in order. Whether one of
    /// the runs succeeds makes no difference.
    RunEach { program: Program, runs: Vec<Vec<String>> },
    /// Wait.
    Pause { millis: u64 },
    /// Show the user a message.
    Notify { title: String, body: String },
    /// Nothing: the task is over.
    Finished,
}

/// A [`Request`] as a mathematical value.
#[verifier::ext_equal]
pub ghost enum RequestModel {
    Run { program: Program, args: Seq<Seq<char>> },
    RunEach { program: Program, runs: Seq<Seq<Seq<char>>> },
    Pause { millis: nat },
    Notify { title: Seq<char>, body: Seq<char> },
    Finished,
}

/// The texts of some lists of arguments.
pub open spec fn argument_lists(runs: Seq<Vec<String>>) -> Seq<Seq<Seq<char>>> {
    runs.map_values(|args: Vec<String>| texts(args@))
}

impl View for Request {
    type V = RequestModel;

    open spec fn view(&self) -> RequestModel {
        match *self {
            Request::Run { program, args } => RequestModel::Run { program, args: texts(args@) },
            Request::RunEach { program, runs } => RequestModel::RunEach {
                program,
                runs: argument_lists(runs@),
            },
            Request::Pause { millis } => RequestModel::Pause { millis: millis as nat },
            Request::Notify { title, body } => RequestModel::Notify { title: title@, body: body@ },
            Request::Finished => RequestModel::Finished,
        }
    }
}

/// What came of running a program.
#[derive(Debug)]
pub enum CommandReply {
    /// The program could not be started, for the reason that the system gave.
    NotStarted { reason: String },
    /// The program ran and ended.
    Finished { success: bool, stdout: Vec<u8>, stderr: Vec<u8> },
}

/// Why a command gave no answer.
#[derive(Debug)]
pub enum CommandError {
    /// The program could not be started.
    NotStarted { program: Program },
    /// The program ended with a failure.
    Refused { program: Program, reason: String },
    /// The server names no default source.
    NoDefaultSource,
    /// The server names no default sink.
    NoDefaultSink,
    /// The system reported an error.
    System { reason: String },
}

/// A [`CommandError`] as a mathematical value.
#[verifier::ext_equal]
pub ghost enum ErrorModel {
    NotStarted { program: Program },
    Refused { program: Program, reason: Seq<char> },
    NoDefaultSource,
    NoDefaultSink,
    System { reason: Seq<char> },
}

impl View for CommandError {
    type V = ErrorModel;

    open spec fn view(&self) -> ErrorModel {
        match *self {
            CommandError::NotStarted { program } => ErrorModel::NotStarted { program },
            CommandError::Refused { program, reason } => ErrorModel::Refused {
                program,
                reason: reason@,
            },
            CommandError::NoDefaultSource => ErrorModel::NoDefaultSource,
            CommandError::NoDefaultSink => ErrorModel::NoDefaultSink,
            CommandError::System { reason } => ErrorModel::System { reason: reason@ },
        }
    }
}

/// The message that tells a user of an error.
pub open spec fn error_message(error: ErrorModel) -> Seq<char> {
    match error {
        ErrorModel::NotStarted { program } => "Failed to execute "@ + program_name(program)
            + " command"@,
        ErrorModel::Refused { program, reason } => program_name(program) + " error: "@ + reason,
        ErrorModel::NoDefaultSource => "Default audio source not found"@,
        ErrorModel::NoDefaultSink => "Default audio sink not found"@,
        ErrorModel::System { reason } => reason,
    }
}

impl CommandError {
    /// The message that tells a user of the error.
    pub fn message(&self) -> (r: String)
        ensures
            r@ == error_message(self@),
    {
        match self {
            CommandError::NotStarted { program } => {
                let mut out = "Failed to execute ".to_owned();
                out.append(program.name());
                out.append(" command");
                out
            },
            CommandError::Refused { program, reason } => {
                let mut out = program.name().to_owned();
                out.append(" error: ");
                out.append(reason.as_str());
                out
            },
            CommandError::NoDefaultSource => "Default audio source not found".to_owned(),
            CommandError::NoDefaultSink => "Default audio sink not found".to_owned(),
            CommandError::System { reason } => reason.clone(),
        }
    }
}

/// The text of an answer, or the error in its place.
pub open spec fn answer_model(answer: Result<String, CommandError>) -> Result<
    Seq<char>,
    ErrorModel,
> {
    match answer {
        Ok(text) => Ok(text@),
        Err(error) => Err(error@),
    }
}

/// What `pactl` answered: what it printed where it succeeded, else the trimmed
/// text of its complaint.
pub open spec fn pactl_answer(reply: CommandReply) -> Result<Seq<char>, ErrorModel> {
    match reply {
        CommandReply::NotStarted { .. } => Err(ErrorModel::NotStarted { program: Program::Pactl }),
        CommandReply::Finished { success, stdout, stderr } => pactl_outcome(
            success,
            lossy_utf8(stdout@),
            lossy_utf8(stderr@),
        ),
    }
}

/// See [`pactl_answer`], on texts.
pub open spec fn pactl_outcome(success: bool, printed: Seq<char>, complaint: Seq<char>) -> Result<
    Seq<char>,
    ErrorModel,
> {
    if success {
        Ok(printed)
    } else {
        Err(ErrorModel::Refused { program: Program::Pactl, reason: trim(complaint) })
    }
}

/// What `pw-link` answered. That a link is there already is no failure: the
/// answer is then empty.
pub open spec fn pw_link_answer(reply: CommandReply) -> Result<Seq<char>, ErrorModel> {
    match reply {
        CommandReply::NotStarted { .. } => Err(ErrorModel::NotStarted { program: Program::PwLink }),
        CommandReply::Finished { success, stdout, stderr } => pw_link_outcome(
            success,
            lossy_utf8(stdout@),
            lossy_utf8(stderr@),
        ),
    }
}

/// See [`pw_link_answer`], on texts.
pub open spec fn pw_link_outcome(success: bool, printed: Seq<char>, complaint: Seq<char>) -> Result<
    Seq<char>,
    ErrorModel,
> {
    if success {
        Ok(printed)
    } else if contains(complaint, "already linked"@) {
        Ok(Seq::empty())
    } else {
        Err(ErrorModel::Refused { program: Program::PwLink, reason: trim(complaint) })
    }
}

/// What a program printed, whether it succeeded or not.
pub open spec fn printed_answer(reply: CommandReply) -> Result<Seq<char>, ErrorModel> {
    match reply {
        CommandReply::NotStarted { reason } => Err(ErrorModel::System { reason: reason@ }),
        CommandReply::Finished { success, stdout, stderr } => Ok(lossy_utf8(stdout@)),
    }
}

/// See [`pactl_outcome`].
pub fn judge_pactl(success: bool, printed: String, complaint: &str) -> (r: Result<
    String,
    CommandError,
>)
    ensures
        answer_model(r) == pactl_outcome(success, printed@, complaint@),
{
    if success {
        Ok(printed)
    } else {
        let chars = chars_of(complaint);
        Err(
            CommandError::Refused {
                program: Program::Pactl,
                reason: string_of(trimmed(chars.as_slice())),
            },
        )
    }
}

/// See [`pw_link_outcome`].
pub fn judge_pw_link(success: bool, printed: String, complaint: &str) -> (r: Result<
    String,
    CommandError,
>)
    ensures
        answer_model(r) == pw_link_outcome(success, printed@, complaint@),
{
    if success {
        Ok(printed)
    } else {
        let chars = chars_of(complaint);
        if holds(chars.as_slice(), "already linked") {
            return Ok(String::new());
        }
        Err(
            CommandError::Refused {
                program: Program::PwLink,
                reason: string_of(trimmed(chars.as_slice())),
            },
        )
    }
}

/// Reads the reply to a `pactl` command.
pub fn run_pactl(reply: &CommandReply) -> (r: Result<String, CommandError>)
    ensures
        answer_model(r) == pactl_answer(*reply),
{
    match reply {
        CommandReply::NotStarted { .. } => Err(CommandError::NotStarted { program: Program::Pactl }),
        CommandReply::Finished { success, stdout, stderr } => judge_pactl(
            *success,
            lossy_text(stdout.as_slice()),
            lossy_text(stderr.as_slice()).as_str(),
        ),
    }
}

/// Reads the reply to a `pw-link` command.
pub fn run_pw_link(reply: &CommandReply) -> (r: Result<String, CommandError>)
    ensures
        answer_model(r) == pw_link_answer(*reply),
{
    match reply {
        CommandReply::NotStarted { .. } => Err(
            CommandError::NotStarted { program: Program::PwLink },
        ),
        CommandReply::Finished { success, stdout, stderr } => judge_pw_link(
            *success,
            lossy_text(stdout.as_slice()),
            lossy_text(stderr.as_slice()).as_str(),
        ),
    }
}

/// Reads what a program printed, whether it succeeded or not.
pub fn printed_text(reply: &CommandReply) -> (r: Result<String, CommandError>)
    ensures
        answer_model(r) == printed_answer(*reply),
{
    match reply {
        CommandReply::NotStarted { reason } => Err(
            CommandError::System { reason: reason.clone() },
        ),
        CommandReply::Finished { stdout, .. } => Ok(lossy_text(stdout.as_slice())),
    }
}

/// What a task is told: the answer to a command, or that it may go on.
#[verifier::ext_equal]
pub ghost enum TaskEvent {
    Answered { answer: Result<Seq<char>, ErrorModel> },
    Proceeded,
}

/// Whether an event can follow a request: a command is answered, and all else is
/// done. Nothing follows the end.
pub open spec fn answers(request: RequestModel, event: TaskEvent) -> bool {
    match request {
        RequestModel::Run { .. } => event is Answered,
        RequestModel::RunEach { .. } => event is Proceeded,
        RequestModel::Pause { .. } => event is Proceeded,
        RequestModel::Notify { .. } => event is Proceeded,
        RequestModel::Finished => false,
    }
}

// ---------------------------------------------------------------------------
// Laws
// ---------------------------------------------------------------------------

/// A program that succeeds has answered with what it printed, whatever it
/// complained of.
pub proof fn success_gives_what_was_printed(printed: Seq<char>, complaint: Seq<char>)
    ensures
        pactl_outcome(true, printed, complaint) == Ok::<Seq<char>, ErrorModel>(printed),
        pw_link_outcome(true, printed, complaint) == Ok::<Seq<char>, ErrorModel>(printed),
{
}

/// A program that fails has answered with its trimmed complaint, whatever it
/// printed. The one exception is a link that is there already.
pub proof fn failure_gives_the_complaint(printed: Seq<char>, complaint: Seq<char>)
    ensures
        pactl_outcome(false, printed, complaint) == Err::<Seq<char>, ErrorModel>(
            ErrorModel::Refused { program: Program::Pactl, reason: trim(complaint) },
        ),
        contains(complaint, "already linked"@) ==> pw_link_outcome(false, printed, complaint)
            == Ok::<Seq<char>, ErrorModel>(Seq::empty()),
        !contains(complaint, "already linked"@) ==> pw_link_outcome(false, printed, complaint)
            == Err::<Seq<char>, ErrorModel>(
            ErrorModel::Refused { program: Program::PwLink, reason: trim(complaint) },
        ),
{
}

/// A reply is judged by the text of its bytes. A program that could not be started
/// is an error.
pub proof fn replies_are_judged_by_their_text(
    success: bool,
    stdout: Vec<u8>,
    stderr: Vec<u8>,
    reason: String,
)
    ensures
        ({
            let reply = CommandReply::Finished { success, stdout, stderr };
            let missing = CommandReply::NotStarted { reason };
            &&& pactl_answer(reply) == pactl_outcome(
                success,
                lossy_utf8(stdout@),
                lossy_utf8(stderr@),
            )
            &&& pw_link_answer(reply) == pw_link_outcome(
                success,
                lossy_utf8(stdout@),
                lossy_utf8(stderr@),
            )
            &&& printed_answer(reply) == Ok::<Seq<char>, ErrorModel>(lossy_utf8(stdout@))
            &&& pactl_answer(missing) == Err::<Seq<char>, ErrorModel>(
                ErrorModel::NotStarted { program: Program::Pactl },
            )
            &&& pw_link_answer(missing) == Err::<Seq<char>, ErrorModel>(
                ErrorModel::NotStarted { program: Program::PwLink },
            )
            &&& printed_answer(missing) == Err::<Seq<char>, ErrorModel>(
                ErrorModel::System { reason: reason@ },
            )
        }),
{
}

/// The message of an error tells the program and the whole reason.
pub proof fn messages_tell_the_reason(reason: Seq<char>)
    ensures
        error_message(ErrorModel::Refused { program: Program::Pactl, reason })
            == "pactl"@ + " error: "@ + reason,
        error_message(ErrorModel::Refused { program: Program::PwLink, reason })
            == "pw-link"@ + " error: "@ + reason,
        error_message(ErrorModel::System { reason }) == reason,
{
}

} // verus!
