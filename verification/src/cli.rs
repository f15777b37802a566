//! The command line: what the arguments ask for, and the reports that are
//! printed.

use crate::audio::{is_ours, mentions_pipeshare, node_names, AudioNode};
use crate::command::{printed_answer, printed_text, CommandError, CommandReply};
use crate::number::{decimal, decimal_text, pad_left, pad_right, padded_left, padded_right};
use crate::text::{
    chars_of, contains, lines, lossy_text, lossy_utf8, spans, split_lines, string_of, strings_of,
    texts, trim, trimmed,
};
use crate::tracker::{EventModel, ScreenShareEvent};
use vstd::prelude::*;

verus! {

// ---------------------------------------------------------------------------
// Arguments
// ---------------------------------------------------------------------------

/// What the program is asked to do.
#[derive(Debug)]
pub enum Invocation {
    /// Run as a background service.
    Daemon,
    /// List the applications that produce audio.
    List,
    /// Route the audio of an application.
    Route { app: String },
    /// A route was asked for, but no application was named.
    RouteWithoutApp,
    /// Remove everything.
    Stop,
    /// Show the state of the system.
    Status,
    /// Show the events of screen shares.
    Monitor,
    /// Show the usage.
    Help,
    /// Nothing that is known.
    Unknown { command: String },
}

/// An [`Invocation`] as a mathematical value.
#[verifier::ext_equal]
pub ghost enum InvocationModel {
    Daemon,
    List,
    Route { app: Seq<char> },
    RouteWithoutApp,
    Stop,
    Status,
    Monitor,
    Help,
    Unknown { command: Seq<char> },
}

impl View for Invocation {
    type V = InvocationModel;

    open spec fn view(&self) -> InvocationModel {
        match *self {
            Invocation::Daemon => InvocationModel::Daemon,
            Invocation::List => InvocationModel::List,
            Invocation::Route { app } => InvocationModel::Route { app: app@ },
            Invocation::RouteWithoutApp => InvocationModel::RouteWithoutApp,
            Invocation::Stop => InvocationModel::Stop,
            Invocation::Status => InvocationModel::Status,
            Invocation::Monitor => InvocationModel::Monitor,
            Invocation::Help => InvocationModel::Help,
            Invocation::Unknown { command } => InvocationModel::Unknown { command: command@ },
        }
    }
}

/// What some arguments ask for. The first of them is the program itself.
pub open spec fn invocation(args: Seq<Seq<char>>) -> InvocationModel {
    if args.len() <= 1 {
        InvocationModel::Help
    } else {
        let command = args[1];
        if command == "daemon"@ || command == "start"@ {
            InvocationModel::Daemon
        } else if command == "list"@ {
            InvocationModel::List
        } else if command == "route"@ {
            if args.len() > 2 {
                InvocationModel::Route { app: args[2] }
            } else {
                InvocationModel::RouteWithoutApp
            }
        } else if command == "stop"@ {
            InvocationModel::Stop
        } else if command == "status"@ {
            InvocationModel::Status
        } else if command == "monitor"@ {
            InvocationModel::Monitor
        } else if command == "help"@ || command == "--help"@ || command == "-h"@ {
            InvocationModel::Help
        } else {
            InvocationModel::Unknown { command }
        }
    }
}

/// Whether a string has the given text.
fn same(s: &String, text: &str) -> (r: bool)
    ensures
        r == (s@ == text@),
{
    *s == text.to_owned()
}

/// See [`invocation`].
pub fn parse_args(args: &Vec<String>) -> (r: Invocation)
    ensures
        r@ == invocation(texts(args@)),
{
    assert(texts(args@).len() == args@.len());
    if args.len() <= 1 {
        return Invocation::Help;
    }
    let command = &args[1];
    assert(texts(args@)[1] == command@);
    if same(command, "daemon") || same(command, "start") {
        Invocation::Daemon
    } else if same(command, "list") {
        Invocation::List
    } else if same(command, "route") {
        if args.len() > 2 {
            assert(texts(args@)[2] == args@[2]@);
            Invocation::Route { app: args[2].clone() }
        } else {
            Invocation::RouteWithoutApp
        }
    } else if same(command, "stop") {
        Invocation::Stop
    } else if same(command, "status") {
        Invocation::Status
    } else if same(command, "monitor") {
        Invocation::Monitor
    } else if same(command, "help") || same(command, "--help") || same(command, "-h") {
        Invocation::Help
    } else {
        Invocation::Unknown { command: command.clone() }
    }
}

// ---------------------------------------------------------------------------
// The list of applications
// ---------------------------------------------------------------------------

/// A row of the table of applications.
pub open spec fn table_row(number: nat, name: Seq<char>) -> Seq<char> {
    "  │ "@ + pad_left(decimal(number), 3) + " │ "@ + pad_right(name, 34) + " │"@
}

/// The rows of the table of applications, numbered from one.
pub open spec fn table_rows(names: Seq<Seq<char>>) -> Seq<Seq<char>> {
    Seq::new(names.len(), |i: int| table_row((i + 1) as nat, names[i]))
}

/// The lines above the table.
pub open spec fn table_head() -> Seq<Seq<char>> {
    seq![
        "  ┌─────┬────────────────────────────────────┐"@,
        "  │  #  │ Application                        │"@,
        "  ├─────┼────────────────────────────────────┤"@,
    ]
}

/// The lines below the table.
pub open spec fn table_foot(first: Seq<char>) -> Seq<Seq<char>> {
    seq![
        "  └─────┴────────────────────────────────────┘"@,
        ""@,
        "    Hint: run `pipeshare route \""@ + first + "\"`"@,
    ]
}

/// The report on the applications that produce audio.
pub open spec fn list_lines(names: Seq<Seq<char>>) -> Seq<Seq<char>> {
    if names.len() == 0 {
        seq![
            "[-] No audio-producing applications found currently."@,
            "    Hint: Start playing a video in a browser or open a music player."@,
        ]
    } else {
        table_head() + table_rows(names) + table_foot(names[0])
    }
}

/// See [`table_row`].
fn row_text(number: u64, name: &str) -> (r: String)
    ensures
        r@ == table_row(number as nat, name@),
{
    let mut out = "  │ ".to_owned();
    out.append(padded_left(decimal_text(number).as_str(), 3).as_str());
    out.append(" │ ");
    out.append(padded_right(name, 34).as_str());
    out.append(" │");
    out
}

/// See [`list_lines`].
pub fn list_report(sources: &Vec<AudioNode>) -> (r: Vec<String>)
    ensures
        texts(r@) == list_lines(node_names(sources@)),
{
    let ghost names = node_names(sources@);
    assert(names.len() == sources@.len());
    if sources.len() == 0 {
        let out = strings_of(
            &[
                "[-] No audio-producing applications found currently.",
                "    Hint: Start playing a video in a browser or open a music player.",
            ],
        );
        assert(texts(out@) =~= list_lines(names));
        return out;
    }
    let mut out = strings_of(
        &[
            "  ┌─────┬────────────────────────────────────┐",
            "  │  #  │ Application                        │",
            "  ├─────┼────────────────────────────────────┤",
        ],
    );
    assert(texts(out@) =~= table_head());
    assert(table_head() + table_rows(names).take(0) =~= table_head());
    for i in 0..sources.len()
        invariant
            names == node_names(sources@),
            texts(out@) == table_head() + table_rows(names).take(i as int),
    {
        let ghost old_out = out@;
        assert(names[i as int] == sources@[i as int].app_name@);
        let row = row_text(i as u64 + 1, sources[i].app_name.as_str());
        assert(row@ == table_rows(names)[i as int]);
        out.push(row);
        assert(texts(out@) =~= texts(old_out).push(row@));
        assert(texts(out@) =~= table_head() + table_rows(names).take(i + 1));
    }
    assert(table_rows(names).take(names.len() as int) =~= table_rows(names));
    let mut hint = "    Hint: run `pipeshare route \"".to_owned();
    hint.append(sources[0].app_name.as_str());
    hint.append("\"`");
    let ghost old_out = out@;
    out.push("  └─────┴────────────────────────────────────┘".to_owned());
    out.push("".to_owned());
    out.push(hint);
    assert(texts(out@) =~= texts(old_out) + table_foot(names[0]));
    out
}

// ---------------------------------------------------------------------------
// The removal of everything
// ---------------------------------------------------------------------------

/// The report on the removal of modules.
pub open spec fn stop_line(cleaned: nat) -> Seq<char> {
    if cleaned == 0 {
        "[-] No active PipeShare modules found to clean."@
    } else {
        "\n[+] Successfully cleaned "@ + decimal(cleaned) + " module(s)."@
    }
}

/// See [`stop_line`].
pub fn stop_report(cleaned: u32) -> (r: String)
    ensures
        r@ == stop_line(cleaned as nat),
{
    if cleaned == 0 {
        "[-] No active PipeShare modules found to clean.".to_owned()
    } else {
        let mut out = "\n[+] Successfully cleaned ".to_owned();
        out.append(decimal_text(cleaned as u64).as_str());
        out.append(" module(s).");
        out
    }
}

// ---------------------------------------------------------------------------
// Events
// ---------------------------------------------------------------------------

/// The report on an event of a screen share.
pub open spec fn event_lines(time: Seq<char>, event: EventModel) -> Seq<Seq<char>> {
    match event {
        EventModel::Started { app_name, node_id } => seq![
            "["@ + time + "] Screen sharing STARTED"@,
            "    Application : "@ + match app_name {
                Some(name) => name,
                None => "Unknown"@,
            },
            "    Node ID     : "@ + decimal(node_id as nat),
            "    Hint: use `pipeshare route <app>` to route audio manually."@,
        ],
        EventModel::Stopped { node_id } => seq![
            "["@ + time + "] Screen sharing STOPPED (node: "@ + decimal(node_id as nat) + ")"@,
        ],
    }
}

/// See [`event_lines`].
pub fn event_report(time: &str, event: &ScreenShareEvent) -> (r: Vec<String>)
    ensures
        texts(r@) == event_lines(time@, event@),
{
    let mut first = "[".to_owned();
    first.append(time);
    match event {
        ScreenShareEvent::Started { app_name, node_id } => {
            first.append("] Screen sharing STARTED");
            let mut second = "    Application : ".to_owned();
            match app_name {
                Some(name) => second.append(name.as_str()),
                None => second.append("Unknown"),
            }
            let mut third = "    Node ID     : ".to_owned();
            third.append(decimal_text(*node_id as u64).as_str());
            let out = strings_of(
                &[
                    first.as_str(),
                    second.as_str(),
                    third.as_str(),
                    "    Hint: use `pipeshare route <app>` to route audio manually.",
                ],
            );
            assert(texts(out@) =~= event_lines(time@, event@));
            out
        },
        ScreenShareEvent::Stopped { node_id } => {
            first.append("] Screen sharing STOPPED (node: ");
            first.append(decimal_text(*node_id as u64).as_str());
            first.append(")");
            let out = strings_of(&[first.as_str()]);
            assert(texts(out@) =~= event_lines(time@, event@));
            out
        },
    }
}

// ---------------------------------------------------------------------------
// The state of the system
// ---------------------------------------------------------------------------

/// The last line of a version report, or "unknown" where there is none.
pub open spec fn version_line(printed: Seq<char>) -> Seq<char> {
    if lines(printed).len() > 0 {
        trim(lines(printed).last())
    } else {
        trim("unknown"@)
    }
}

/// See [`version_line`].
pub fn read_version(printed: &str) -> (r: String)
    ensures
        r@ == version_line(printed@),
{
    let chars = chars_of(printed);
    let rows = split_lines(chars.as_slice());
    assert(spans(rows@).len() == rows@.len());
    if rows.len() > 0 {
        assert(spans(rows@).last() == rows@[rows@.len() - 1]@);
        string_of(trimmed(rows[rows.len() - 1]))
    } else {
        let unknown = chars_of("unknown");
        string_of(trimmed(unknown.as_slice()))
    }
}

/// What is said of PipeWire, from the reply to `pw-cli --version`.
pub open spec fn pipewire_line(reply: CommandReply) -> Seq<char> {
    match reply {
        CommandReply::NotStarted { .. } => "  [-] PipeWire       : Not found!"@,
        CommandReply::Finished { success, stdout, stderr } => "  [+] PipeWire       : "@
            + version_line(lossy_utf8(stdout@)),
    }
}

/// What is said of WirePlumber, from the reply to `wpctl status`.
pub open spec fn wireplumber_line(reply: CommandReply) -> Seq<char> {
    match reply {
        CommandReply::Finished { success: true, stdout, stderr } =>
            "  [+] WirePlumber    : Active"@,
        _ => "  [-] WirePlumber    : Not found"@,
    }
}

/// What is said of the portal.
pub open spec fn portal_line(available: bool) -> Seq<char> {
    if available {
        "  [+] XDG Portal      : Active"@
    } else {
        "  [-] XDG Portal      : Not found"@
    }
}

/// What is said of a tool that is there: the label, and what the tool printed of
/// its version.
pub open spec fn found_line(label: Seq<char>, printed: Seq<char>) -> Seq<char> {
    label + trim(printed)
}

/// What is said of `kdialog`, from the reply to `kdialog --version`.
pub open spec fn kdialog_line(reply: CommandReply) -> Seq<char> {
    match reply {
        CommandReply::Finished { success: true, stdout, stderr } => found_line(
            "  [+] kdialog        : "@,
            lossy_utf8(stdout@),
        ),
        _ => "  [-] kdialog        : Not found (dialog prompts will fail back)"@,
    }
}

/// What is said of `pactl`, from the reply to `pactl --version`.
pub open spec fn pactl_line(reply: CommandReply) -> Seq<char> {
    match reply {
        CommandReply::NotStarted { .. } => "  [-] pactl          : Not found"@,
        CommandReply::Finished { success, stdout, stderr } => found_line(
            "  [+] pactl          : "@,
            lossy_utf8(stdout@),
        ),
    }
}

/// A module of this program, as the report shows it.
pub open spec fn session_line(line: Seq<char>) -> Option<Seq<char>> {
    if mentions_pipeshare(line) {
        Some("  * "@ + line)
    } else {
        None
    }
}

/// The modules of this program among the lines of a module listing, as the
/// report shows them.
pub open spec fn session_lines(all: Seq<Seq<char>>) -> Seq<Seq<char>> {
    all.filter_map(|line: Seq<char>| session_line(line))
}

/// The report on the modules of this program.
pub open spec fn sessions(listing: Seq<char>) -> Seq<Seq<char>> {
    let found = session_lines(lines(listing));
    if found.len() == 0 {
        seq!["  [-] No active PipeShare sessions detected."@]
    } else {
        found
    }
}

/// See [`found_line`].
pub fn tool_found(label: &str, printed: &str) -> (r: String)
    ensures
        r@ == found_line(label@, printed@),
{
    let chars = chars_of(printed);
    label.to_owned().concat(string_of(trimmed(chars.as_slice())).as_str())
}

/// See [`pipewire_line`].
pub fn pipewire_status(reply: &CommandReply) -> (r: String)
    ensures
        r@ == pipewire_line(*reply),
{
    match reply {
        CommandReply::NotStarted { .. } => "  [-] PipeWire       : Not found!".to_owned(),
        CommandReply::Finished { stdout, .. } => {
            let version = read_version(lossy_text(stdout.as_slice()).as_str());
            "  [+] PipeWire       : ".to_owned().concat(version.as_str())
        },
    }
}

/// See [`wireplumber_line`].
pub fn wireplumber_status(reply: &CommandReply) -> (r: String)
    ensures
        r@ == wireplumber_line(*reply),
{
    match reply {
        CommandReply::Finished { success, .. } => if *success {
            "  [+] WirePlumber    : Active".to_owned()
        } else {
            "  [-] WirePlumber    : Not found".to_owned()
        },
        CommandReply::NotStarted { .. } => "  [-] WirePlumber    : Not found".to_owned(),
    }
}

/// See [`portal_line`].
pub fn portal_status(available: bool) -> (r: String)
    ensures
        r@ == portal_line(available),
{
    if available {
        "  [+] XDG Portal      : Active".to_owned()
    } else {
        "  [-] XDG Portal      : Not found".to_owned()
    }
}

/// See [`kdialog_line`].
pub fn kdialog_status(reply: &CommandReply) -> (r: String)
    ensures
        r@ == kdialog_line(*reply),
{
    if let CommandReply::Finished { success, stdout, .. } = reply {
        if *success {
            return tool_found(
                "  [+] kdialog        : ",
                lossy_text(stdout.as_slice()).as_str(),
            );
        }
    }
    "  [-] kdialog        : Not found (dialog prompts will fail back)".to_owned()
}

/// See [`pactl_line`].
pub fn pactl_status(reply: &CommandReply) -> (r: String)
    ensures
        r@ == pactl_line(*reply),
{
    match reply {
        CommandReply::NotStarted { .. } => "  [-] pactl          : Not found".to_owned(),
        CommandReply::Finished { stdout, .. } => tool_found(
            "  [+] pactl          : ",
            lossy_text(stdout.as_slice()).as_str(),
        ),
    }
}

/// See [`sessions`].
pub fn session_report(listing: &str) -> (r: Vec<String>)
    ensures
        texts(r@) == sessions(listing@),
{
    let chars = chars_of(listing);
    let rows = split_lines(chars.as_slice());
    let ghost all = lines(listing@);
    let mut out: Vec<String> = Vec::new();
    assert(session_lines(all.take(0)) =~= Seq::<Seq<char>>::empty());
    for i in 0..rows.len()
        invariant
            spans(rows@) == all,
            texts(out@) == session_lines(all.take(i as int)),
    {
        let ghost f = |line: Seq<char>| session_line(line);
        let ghost old_out = out@;
        proof {
            all.lemma_filter_map_take_succ(f, i as int);
            assert(rows@[i as int]@ == all[i as int]);
        }
        if is_ours(rows[i]) {
            let line = "  * ".to_owned().concat(string_of(rows[i]).as_str());
            out.push(line);
            assert(texts(out@) =~= texts(old_out).push(line@));
        }
    }
    assert(all.take(all.len() as int) =~= all);
    assert(texts(out@).len() == out@.len());
    if out.len() == 0 {
        let none = strings_of(&["  [-] No active PipeShare sessions detected."]);
        assert(texts(none@) =~= sessions(listing@));
        none
    } else {
        out
    }
}

/// The report on the modules of this program, from the reply to the module
/// listing.
pub fn sessions_status(reply: &CommandReply) -> (r: Result<Vec<String>, CommandError>)
    ensures
        match (r, printed_answer(*reply)) {
            (Ok(report), Ok(listing)) => texts(report@) == sessions(listing),
            (Err(error), Err(expected)) => error@ == expected,
            _ => false,
        },
{
    match printed_text(reply) {
        Ok(listing) => Ok(session_report(listing.as_str())),
        Err(error) => Err(error),
    }
}

// ---------------------------------------------------------------------------
// Laws
// ---------------------------------------------------------------------------

/// What is asked for is told by the first argument behind the program, letter for
/// letter, and no other argument matters but the application of a route.
pub proof fn commands_are_told_letter_for_letter(args: Seq<Seq<char>>)
    ensures
        invocation(args) is Daemon <==> args.len() > 1 && (args[1] == "daemon"@ || args[1]
            == "start"@),
        invocation(args) is List <==> args.len() > 1 && args[1] == "list"@,
        invocation(args) is Stop <==> args.len() > 1 && args[1] == "stop"@,
        invocation(args) is Status <==> args.len() > 1 && args[1] == "status"@,
        invocation(args) is Monitor <==> args.len() > 1 && args[1] == "monitor"@,
        invocation(args) is Help <==> args.len() <= 1 || args[1] == "help"@ || args[1] == "--help"@
            || args[1] == "-h"@,
        invocation(args) is Route <==> args.len() > 2 && args[1] == "route"@,
        invocation(args) matches InvocationModel::Route { app } ==> app == args[2],
        invocation(args) is RouteWithoutApp <==> args.len() == 2 && args[1] == "route"@,
        invocation(args) matches InvocationModel::Unknown { command } ==> command == args[1],
{
    reveal_strlit("daemon");
    reveal_strlit("start");
    reveal_strlit("list");
    reveal_strlit("route");
    reveal_strlit("stop");
    reveal_strlit("status");
    reveal_strlit("monitor");
    reveal_strlit("help");
    reveal_strlit("--help");
    reveal_strlit("-h");
    assert("daemon"@[0] == 'd');
    assert("list"@[0] == 'l');
    assert("route"@[0] == 'r');
    assert("monitor"@[0] == 'm');
    assert("help"@[0] == 'h');
    assert("--help"@[0] == '-' && "-h"@[0] == '-');
    assert("start"@[0] == 's' && "stop"@[0] == 's' && "status"@[0] == 's');
    assert("start"@.len() == 5 && "stop"@.len() == 4 && "status"@.len() == 6);
}

/// The table shows every application in a row of its own, in order, with its
/// number, counted from one, and its whole name.
pub proof fn every_application_has_a_row(names: Seq<Seq<char>>, i: int)
    requires
        0 <= i < names.len(),
    ensures
        list_lines(names).len() == names.len() + 6,
        list_lines(names)[3 + i] == "  │ "@ + pad_left(decimal((i + 1) as nat), 3) + " │ "@
            + pad_right(names[i], 34) + " │"@,
        list_lines(names).last() == "    Hint: run `pipeshare route \""@ + names[0] + "\"`"@,
{
}

/// Where there are no applications, two lines say so.
pub proof fn empty_list_is_told()
    ensures
        list_lines(Seq::empty()).len() == 2,
        list_lines(Seq::empty())[0] == "[-] No audio-producing applications found currently."@,
{
}

/// The number of removed modules is told in full, unless there are none.
pub proof fn removed_modules_are_counted(cleaned: nat)
    ensures
        cleaned > 0 ==> stop_line(cleaned) == "\n[+] Successfully cleaned "@ + decimal(cleaned)
            + " module(s)."@,
        cleaned == 0 ==> stop_line(cleaned) == "[-] No active PipeShare modules found to clean."@,
{
}

/// A share is reported with its time, its node and its name, if it has one.
pub proof fn shares_are_reported_in_full(time: Seq<char>, app_name: Option<Seq<char>>, node_id: u32)
    ensures
        ({
            let started = event_lines(time, EventModel::Started { app_name, node_id });
            let stopped = event_lines(time, EventModel::Stopped { node_id });
            &&& started.len() == 4
            &&& started[0] == "["@ + time + "] Screen sharing STARTED"@
            &&& app_name matches Some(name) ==> started[1] == "    Application : "@ + name
            &&& app_name is None ==> started[1] == "    Application : "@ + "Unknown"@
            &&& started[2] == "    Node ID     : "@ + decimal(node_id as nat)
            &&& stopped == seq![
                "["@ + time + "] Screen sharing STOPPED (node: "@ + decimal(node_id as nat) + ")"@,
            ]
        }),
{
}

/// The version that is told is the last line of what was printed.
pub proof fn version_is_the_last_line(printed: Seq<char>)
    ensures
        lines(printed).len() > 0 ==> version_line(printed) == trim(
            lines(printed)[lines(printed).len() - 1],
        ),
        lines(printed).len() == 0 ==> version_line(printed) == trim("unknown"@),
{
}

/// What is said of the parts of the system, from the replies: PipeWire and `pactl`
/// count as there wherever they could be started, WirePlumber and `kdialog` only
/// where they succeeded too.
pub proof fn parts_of_the_system_are_told(
    success: bool,
    stdout: Vec<u8>,
    stderr: Vec<u8>,
    reason: String,
)
    ensures
        ({
            let reply = CommandReply::Finished { success, stdout, stderr };
            let missing = CommandReply::NotStarted { reason };
            let printed = lossy_utf8(stdout@);
            &&& pipewire_line(reply) == "  [+] PipeWire       : "@ + version_line(printed)
            &&& pipewire_line(missing) == "  [-] PipeWire       : Not found!"@
            &&& pactl_line(reply) == "  [+] pactl          : "@ + trim(printed)
            &&& pactl_line(missing) == "  [-] pactl          : Not found"@
            &&& success ==> wireplumber_line(reply) == "  [+] WirePlumber    : Active"@
            &&& !success ==> wireplumber_line(reply) == wireplumber_line(missing)
            &&& wireplumber_line(missing) == "  [-] WirePlumber    : Not found"@
            &&& success ==> kdialog_line(reply) == "  [+] kdialog        : "@ + trim(printed)
            &&& !success ==> kdialog_line(reply) == kdialog_line(missing)
            &&& kdialog_line(missing)
                == "  [-] kdialog        : Not found (dialog prompts will fail back)"@
            &&& portal_line(true) == "  [+] XDG Portal      : Active"@
            &&& portal_line(false) == "  [-] XDG Portal      : Not found"@
        }),
{
}

/// The sessions are told line by line: each line of the listing that holds the name
/// of the program is shown whole, in order, and no other. Where there is none, one
/// line says so.
pub proof fn sessions_are_told_line_by_line(
    a: Seq<Seq<char>>,
    b: Seq<Seq<char>>,
    line: Seq<char>,
    listing: Seq<char>,
)
    ensures
        session_lines(a + b) == session_lines(a) + session_lines(b),
        contains(line, "PipeShare"@) || contains(line, "pipeshare"@) ==> session_lines(seq![line])
            == seq!["  * "@ + line],
        !contains(line, "PipeShare"@) && !contains(line, "pipeshare"@) ==> session_lines(
            seq![line],
        ) == Seq::<Seq<char>>::empty(),
        session_lines(lines(listing)).len() > 0 ==> sessions(listing) == session_lines(
            lines(listing),
        ),
        session_lines(lines(listing)).len() == 0 ==> sessions(listing) == seq![
            "  [-] No active PipeShare sessions detected."@,
        ],
    decreases b.len(),
{
    let f = |line: Seq<char>| session_line(line);
    Seq::lemma_filter_map_singleton(line, f);
    if b.len() == 0 {
        assert(a + b =~= a);
        assert(session_lines(a) + session_lines(b) =~= session_lines(a));
    } else {
        assert((a + b).drop_last() =~= a + b.drop_last());
        sessions_are_told_line_by_line(a, b.drop_last(), line, listing);
        assert(session_lines(a + b) =~= session_lines(a) + session_lines(b));
    }
}

} // verus!
