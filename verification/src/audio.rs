//! What the listings of PipeWire and PulseAudio say: the applications that
//! produce audio, the default devices, the streams, the ports and the modules.

use crate::command::{
    answer_model, pactl_answer, pw_link_answer, run_pactl, run_pw_link, CommandError, CommandReply,
    ErrorModel,
};
use crate::text::{
    after, before, begins, blank, chars_of, contains, find, head, holds, lemma_find, lemma_place_of,
    lemma_trim_blank, lines, lower_text, lowercase, occurs_at, opt_text, place, place_of, position,
    spans, split_lines, split_words, starts_with, string_of, strip, strip_end, strip_start, stripped,
    tail, texts, trim, trim_start, trimmed, white_space, words,
};
use vstd::prelude::*;

verus! {

/// An application that produces audio.
#[derive(Debug, Clone)]
pub struct AudioNode {
    /// The place of the application in the listing, counted from one.
    pub id: u32,
    /// The name of the application, such as "Firefox".
    pub app_name: String,
}

/// An audio route that is set up: what has to be known to take it down again.
#[derive(Debug)]
pub struct AudioRoute {
    /// The PulseAudio modules that were loaded, in the order of loading.
    pub module_ids: Vec<u32>,
    /// The names of the applications whose audio is routed.
    pub target_apps: Vec<String>,
    /// The default source from before the route was set up.
    pub previous_default_source: Option<String>,
}

/// An [`AudioRoute`] as a mathematical value.
#[verifier::ext_equal]
pub ghost struct RouteModel {
    pub modules: Seq<u32>,
    pub apps: Seq<Seq<char>>,
    pub source: Option<Seq<char>>,
}

impl View for AudioRoute {
    type V = RouteModel;

    open spec fn view(&self) -> RouteModel {
        RouteModel {
            modules: self.module_ids@,
            apps: texts(self.target_apps@),
            source: opt_text(self.previous_default_source),
        }
    }
}

// ---------------------------------------------------------------------------
// Applications that produce audio
// ---------------------------------------------------------------------------

/// Whether a name belongs to the audio system itself and not to an application.
pub open spec fn is_filtered(name: Seq<char>) -> bool {
    ||| starts_with(name, "pipewire"@)
    ||| starts_with(name, "PipeWire"@)
    ||| starts_with(name, "pipeshare"@)
    ||| starts_with(name, "PipeShare"@)
    ||| starts_with(name, "alsa_output"@)
    ||| starts_with(name, "alsa_input"@)
    ||| starts_with(name, "Midi-Bridge"@)
    ||| starts_with(name, "bluez_"@)
    ||| starts_with(name, "kwin_"@)
    ||| starts_with(name, "xdg-desktop-portal"@)
}

/// Whether a port belongs to a monitor or a capture and not to a playback.
pub open spec fn is_capture_port(port: Seq<char>) -> bool {
    contains(port, ":monitor_"@) || contains(port, ":capture_"@)
}

/// The application that an output port belongs to, if the port counts as one of
/// an application that produces audio.
pub open spec fn source_name(line: Seq<char>) -> Option<Seq<char>> {
    let port = trim(line);
    let name = trim(before(port, ':'));
    if port.len() == 0 || is_capture_port(port) || is_filtered(name) {
        None
    } else {
        Some(name)
    }
}

/// The names that some lines of an output port listing give.
pub open spec fn named_sources(ports: Seq<Seq<char>>) -> Seq<Seq<char>> {
    ports.filter_map(|line: Seq<char>| source_name(line))
}

/// A sequence without its repetitions: each item stays where it first stands.
pub open spec fn distinct(items: Seq<Seq<char>>) -> Seq<Seq<char>>
    decreases items.len(),
{
    if items.len() == 0 {
        seq![]
    } else {
        let earlier = distinct(items.drop_last());
        if earlier.contains(items.last()) {
            earlier
        } else {
            earlier.push(items.last())
        }
    }
}

/// The applications that an output port listing shows, each once, in the order
/// in which they first appear.
pub open spec fn source_names(listing: Seq<char>) -> Seq<Seq<char>> {
    distinct(named_sources(lines(listing)))
}

/// The names of some nodes.
pub open spec fn node_names(nodes: Seq<AudioNode>) -> Seq<Seq<char>> {
    nodes.map_values(|node: AudioNode| node.app_name@)
}

/// Whether the nodes are numbered from one on, within the range of a `u32`.
pub open spec fn numbered(nodes: Seq<AudioNode>) -> bool {
    forall|k: int| 0 <= k < nodes.len() ==> (#[trigger] nodes[k]).id == (k + 1) % 0x1_0000_0000
}

/// See [`is_filtered`].
pub fn filtered(name: &[char]) -> (r: bool)
    ensures
        r == is_filtered(name@),
{
    begins(name, "pipewire") || begins(name, "PipeWire") || begins(name, "pipeshare") || begins(
        name,
        "PipeShare",
    ) || begins(name, "alsa_output") || begins(name, "alsa_input") || begins(name, "Midi-Bridge")
        || begins(name, "bluez_") || begins(name, "kwin_") || begins(name, "xdg-desktop-portal")
}

/// See [`is_capture_port`].
fn capture_port(port: &[char]) -> (r: bool)
    ensures
        r == is_capture_port(port@),
{
    holds(port, ":monitor_") || holds(port, ":capture_")
}

/// See [`source_name`].
fn name_in_port(line: &[char]) -> (r: Option<String>)
    ensures
        match r {
            Some(name) => source_name(line@) == Some(name@),
            None => source_name(line@) is None,
        },
{
    let port = trimmed(line);
    if port.len() == 0 || capture_port(port) {
        return None;
    }
    let name = trimmed(head(port, ':'));
    if filtered(name) {
        None
    } else {
        Some(string_of(name))
    }
}

/// Whether one of the nodes has the given name.
fn has_name(nodes: &Vec<AudioNode>, name: &String) -> (r: bool)
    ensures
        r == node_names(nodes@).contains(name@),
{
    for i in 0..nodes.len()
        invariant
            forall|j: int| 0 <= j < i ==> node_names(nodes@)[j] != name@,
    {
        if nodes[i].app_name == *name {
            assert(node_names(nodes@)[i as int] == name@);
            return true;
        }
    }
    false
}

/// The applications that an output port listing shows.
pub fn audio_sources(listing: &str) -> (r: Vec<AudioNode>)
    ensures
        node_names(r@) == source_names(listing@),
        numbered(r@),
{
    let chars = chars_of(listing);
    let ports = split_lines(chars.as_slice());
    let ghost all = lines(listing@);
    let mut nodes: Vec<AudioNode> = Vec::new();
    let mut next_id: u32 = 1;
    assert(named_sources(all.take(0)) =~= Seq::<Seq<char>>::empty());
    for i in 0..ports.len()
        invariant
            spans(ports@) == all,
            node_names(nodes@) == distinct(named_sources(all.take(i as int))),
            numbered(nodes@),
            next_id == (nodes@.len() + 1) % 0x1_0000_0000,
    {
        let ghost earlier = named_sources(all.take(i as int));
        let ghost f = |line: Seq<char>| source_name(line);
        proof {
            all.lemma_filter_map_take_succ(f, i as int);
            assert(ports@[i as int]@ == all[i as int]);
        }
        if let Some(name) = name_in_port(ports[i]) {
            assert(named_sources(all.take(i + 1)) =~= earlier.push(name@));
            assert(earlier.push(name@).drop_last() =~= earlier);
            if !has_name(&nodes, &name) {
                let ghost old_nodes = nodes@;
                nodes.push(AudioNode { id: next_id, app_name: name });
                next_id = next_id.wrapping_add(1);
                assert(node_names(nodes@) =~= node_names(old_nodes).push(name@));
            }
        } else {
            assert(named_sources(all.take(i + 1)) =~= earlier);
        }
    }
    assert(all.take(all.len() as int) == all);
    nodes
}

/// The nodes of an answer, or the error in its place.
pub open spec fn sources_answer(reply: CommandReply) -> Result<Seq<Seq<char>>, ErrorModel> {
    match pw_link_answer(reply) {
        Ok(listing) => Ok(source_names(listing)),
        Err(error) => Err(error),
    }
}

/// The applications that produce audio, from the reply to `pw-link -o`.
pub fn list_audio_sources(reply: &CommandReply) -> (r: Result<Vec<AudioNode>, CommandError>)
    ensures
        match r {
            Ok(nodes) => sources_answer(*reply) == Ok::<Seq<Seq<char>>, ErrorModel>(
                node_names(nodes@),
            ) && numbered(nodes@),
            Err(error) => sources_answer(*reply) == Err::<Seq<Seq<char>>, ErrorModel>(error@),
        },
{
    match run_pw_link(reply) {
        Ok(listing) => Ok(audio_sources(listing.as_str())),
        Err(error) => Err(error),
    }
}

// ---------------------------------------------------------------------------
// The default devices
// ---------------------------------------------------------------------------

/// The first of some lines that holds a label.
pub open spec fn first_with(all: Seq<Seq<char>>, label: Seq<char>) -> Option<Seq<char>>
    decreases all.len(),
{
    if all.len() == 0 {
        None
    } else if contains(all[0], label) {
        Some(all[0])
    } else {
        first_with(all.skip(1), label)
    }
}

/// What stands behind a label in a line: behind the first colon from the place of
/// the label on. Further colons belong to it, as in the names of Bluetooth
/// devices.
pub open spec fn labelled_value(line: Seq<char>, label: Seq<char>) -> Seq<char> {
    match after(line.skip(place_of(line, label) as int), ':') {
        Some(value) => trim(value),
        None => Seq::empty(),
    }
}

/// The value that the server information gives under a label.
pub open spec fn info_value(info: Seq<char>, label: Seq<char>) -> Option<Seq<char>> {
    match first_with(lines(info), label) {
        Some(line) => Some(labelled_value(line, label)),
        None => None,
    }
}

/// See [`info_value`].
pub fn find_in_info(info: &str, label: &str) -> (r: Option<String>)
    ensures
        match r {
            Some(value) => info_value(info@, label@) == Some(value@),
            None => info_value(info@, label@) is None,
        },
{
    let chars = chars_of(info);
    let rows = split_lines(chars.as_slice());
    let ghost all = lines(info@);
    assert(all.skip(0) == all);
    for i in 0..rows.len()
        invariant
            spans(rows@) == all,
            all == lines(info@),
            first_with(all, label@) == first_with(all.skip(i as int), label@),
    {
        let row = rows[i];
        assert(row@ == all[i as int]);
        assert(all.skip(i as int)[0] == row@);
        assert(all.skip(i as int).skip(1) == all.skip(i + 1));
        if holds(row, label) {
            let at = place(row, label);
            let rest = vstd::slice::slice_subrange(row, at, row.len());
            assert(rest@ == row@.skip(at as int));
            return match tail(rest, ':') {
                Some(value) => Some(string_of(trimmed(value))),
                None => Some(String::new()),
            };
        }
    }
    assert(all.skip(all.len() as int) =~= Seq::<Seq<char>>::empty());
    None
}

/// The default source that the server information names. A name that is empty
/// names none.
pub open spec fn default_source(answer: Result<Seq<char>, ErrorModel>) -> Result<
    Seq<char>,
    ErrorModel,
> {
    match answer {
        Ok(info) => match info_value(info, "Default Source:"@) {
            Some(name) if name.len() > 0 => Ok(name),
            _ => Err(ErrorModel::NoDefaultSource),
        },
        Err(error) => Err(error),
    }
}

/// The default sink that the server information names.
pub open spec fn default_sink(answer: Result<Seq<char>, ErrorModel>) -> Result<
    Seq<char>,
    ErrorModel,
> {
    match answer {
        Ok(info) => match info_value(info, "Default Sink:"@) {
            Some(name) => Ok(name),
            None => Err(ErrorModel::NoDefaultSink),
        },
        Err(error) => Err(error),
    }
}

/// The default source (microphone), from the answer to `pactl info`.
pub fn default_source_in(answer: Result<String, CommandError>) -> (r: Result<String, CommandError>)
    ensures
        answer_model(r) == default_source(answer_model(answer)),
{
    match answer {
        Ok(info) => match find_in_info(info.as_str(), "Default Source:") {
            Some(name) => {
                if chars_of(name.as_str()).len() > 0 {
                    Ok(name)
                } else {
                    Err(CommandError::NoDefaultSource)
                }
            },
            None => Err(CommandError::NoDefaultSource),
        },
        Err(error) => Err(error),
    }
}

/// The default source (microphone), from the reply to `pactl info`.
pub fn get_default_source(reply: &CommandReply) -> (r: Result<String, CommandError>)
    ensures
        answer_model(r) == default_source(pactl_answer(*reply)),
{
    default_source_in(run_pactl(reply))
}

/// The default sink (speaker or headphones), from the reply to `pactl info`.
pub fn get_default_sink(reply: &CommandReply) -> (r: Result<String, CommandError>)
    ensures
        answer_model(r) == default_sink(pactl_answer(*reply)),
{
    match run_pactl(reply) {
        Ok(info) => match find_in_info(info.as_str(), "Default Sink:") {
            Some(name) => Ok(name),
            None => Err(CommandError::NoDefaultSink),
        },
        Err(error) => Err(error),
    }
}

// ---------------------------------------------------------------------------
// Streams
// ---------------------------------------------------------------------------

/// Which of the streams in a listing are wanted.
#[derive(Debug)]
pub enum StreamPick {
    /// Those of the applications whose name holds a given one, in any case.
    Named { app: String },
    /// Those of applications that record.
    Recording,
    /// Those that are connected to a device of this program.
    OnPipeShare,
}

/// A [`StreamPick`] as a mathematical value.
#[verifier::ext_equal]
pub ghost enum PickModel {
    Named { app: Seq<char> },
    Recording,
    OnPipeShare,
}

impl View for StreamPick {
    type V = PickModel;

    open spec fn view(&self) -> PickModel {
        match *self {
            StreamPick::Named { app } => PickModel::Named { app: app@ },
            StreamPick::Recording => PickModel::Recording,
            StreamPick::OnPipeShare => PickModel::OnPipeShare,
        }
    }
}

/// The value of a property line such as `application.name = "Firefox"`: all that
/// stands behind the first equals sign, without the quotation marks around it.
pub open spec fn property_value(line: Seq<char>) -> Option<Seq<char>> {
    match after(line, '=') {
        Some(value) => Some(strip(trim(value), '"')),
        None => None,
    }
}

/// Whether a text mentions this program.
pub open spec fn mentions_pipeshare(line: Seq<char>) -> bool {
    contains(line, "PipeShare"@) || contains(line, "pipeshare"@)
}

/// Whether a line about a stream says that the stream is wanted.
pub open spec fn picks(pick: PickModel, line: Seq<char>) -> bool {
    match pick {
        PickModel::Named { app } => {
            &&& starts_with(line, "application.name ="@) || starts_with(line, "node.name ="@)
            &&& property_value(line) matches Some(name) && contains(
                lowercase(name),
                lowercase(app),
            )
        },
        PickModel::Recording => {
            &&& starts_with(line, "application.name ="@)
            &&& property_value(line) matches Some(name) && !is_filtered(name)
        },
        PickModel::OnPipeShare => mentions_pipeshare(line),
    }
}

/// The stream that the last of some lines belongs to: the one that the nearest
/// heading names.
pub open spec fn stream_of(all: Seq<Seq<char>>, heading: Seq<char>) -> Option<Seq<char>>
    decreases all.len(),
{
    if all.len() == 0 {
        None
    } else if starts_with(trim(all.last()), heading) {
        Some(trim(all.last()).skip(heading.len() as int))
    } else {
        stream_of(all.drop_last(), heading)
    }
}

/// The streams that the lines of a listing pick, one for each line that does,
/// in the order of these lines.
pub open spec fn picked(all: Seq<Seq<char>>, heading: Seq<char>, pick: PickModel) -> Seq<Seq<char>>
    decreases all.len(),
{
    if all.len() == 0 {
        seq![]
    } else {
        let earlier = picked(all.drop_last(), heading, pick);
        let line = trim(all.last());
        match stream_of(all.drop_last(), heading) {
            Some(id) if !starts_with(line, heading) && picks(pick, line) => earlier.push(id),
            _ => earlier,
        }
    }
}

/// See [`property_value`].
fn property(line: &[char]) -> (r: Option<&[char]>)
    ensures
        match r {
            Some(value) => property_value(line@) == Some(value@),
            None => property_value(line@) is None,
        },
{
    match tail(line, '=') {
        Some(value) => Some(stripped(trimmed(value), '"')),
        None => None,
    }
}

/// See [`mentions_pipeshare`].
pub fn is_ours(line: &[char]) -> (r: bool)
    ensures
        r == mentions_pipeshare(line@),
{
    holds(line, "PipeShare") || holds(line, "pipeshare")
}

impl StreamPick {
    /// See [`picks`].
    pub fn wants(&self, line: &[char]) -> (r: bool)
        ensures
            r == picks(self@, line@),
    {
        match self {
            StreamPick::Named { app } => {
                if begins(line, "application.name =") || begins(line, "node.name =") {
                    match property(line) {
                        Some(name) => {
                            let lowered = chars_of(lower_text(string_of(name).as_str()).as_str());
                            holds(lowered.as_slice(), lower_text(app.as_str()).as_str())
                        },
                        None => false,
                    }
                } else {
                    false
                }
            },
            StreamPick::Recording => {
                if begins(line, "application.name =") {
                    match property(line) {
                        Some(name) => !filtered(name),
                        None => false,
                    }
                } else {
                    false
                }
            },
            StreamPick::OnPipeShare => is_ours(line),
        }
    }
}

/// See [`picked`].
pub fn picked_streams(listing: &str, heading: &str, pick: &StreamPick) -> (r: Vec<String>)
    ensures
        texts(r@) == picked(lines(listing@), heading@, pick@),
{
    let chars = chars_of(listing);
    let rows = split_lines(chars.as_slice());
    let skip = chars_of(heading).len();
    let ghost all = lines(listing@);
    let mut current: Option<String> = None;
    let mut out: Vec<String> = Vec::new();
    for i in 0..rows.len()
        invariant
            spans(rows@) == all,
            skip == heading@.len(),
            texts(out@) == picked(all.take(i as int), heading@, pick@),
            match current {
                Some(id) => stream_of(all.take(i as int), heading@) == Some(id@),
                None => stream_of(all.take(i as int), heading@) is None,
            },
    {
        let line = trimmed(rows[i]);
        assert(rows@[i as int]@ == all[i as int]);
        assert(all.take(i + 1).drop_last() == all.take(i as int));
        assert(all.take(i + 1).last() == all[i as int]);
        if begins(line, heading) {
            let id = vstd::slice::slice_subrange(line, skip, line.len());
            assert(id@ == line@.skip(skip as int));
            current = Some(string_of(id));
        } else if pick.wants(line) {
            match &current {
                Some(id) => {
                    let ghost old_out = out@;
                    out.push(id.clone());
                    assert(texts(out@) =~= texts(old_out).push(id@));
                },
                None => {},
            }
        }
    }
    assert(all.take(all.len() as int) == all);
    out
}

// ---------------------------------------------------------------------------
// Ports
// ---------------------------------------------------------------------------

/// Whether an output port belongs to an application: the part before the colon
/// begins with the name.
pub open spec fn is_port_of(port: Seq<char>, app: Seq<char>) -> bool {
    starts_with(trim(before(port, ':')), app) && !is_capture_port(port)
}

/// The port that some line of a listing shows, if it is one of the application.
pub open spec fn port_of(line: Seq<char>, app: Seq<char>) -> Option<Seq<char>> {
    if is_port_of(trim(line), app) {
        Some(trim(line))
    } else {
        None
    }
}

/// The ports of an application among some lines of an output port listing.
pub open spec fn ports_among(all: Seq<Seq<char>>, app: Seq<char>) -> Seq<Seq<char>> {
    all.filter_map(|line: Seq<char>| port_of(line, app))
}

/// The part of a port that names the channel: all from the first colon on. What
/// stands before belongs to the application. A port without a colon is taken
/// whole.
pub open spec fn channel_part(port: Seq<char>) -> Seq<char> {
    if find(port, ':') < port.len() {
        port.skip(find(port, ':') as int)
    } else {
        port
    }
}

/// The port of the mix that a port of an application is linked to: the right
/// one where the port's own name speaks of the right channel and not of the left
/// one.
pub open spec fn mix_port(port: Seq<char>) -> Seq<char> {
    let channel = channel_part(port);
    let left = contains(channel, "FL"@) || contains(channel, ":output_0"@) || contains(
        channel,
        "front-left"@,
    );
    let right = contains(channel, "FR"@) || contains(channel, ":output_1"@) || contains(
        channel,
        "front-right"@,
    );
    if right && !left {
        "PipeShare_Mix:playback_FR"@
    } else {
        "PipeShare_Mix:playback_FL"@
    }
}

/// The ports of an application in an output port listing.
pub fn app_ports(listing: &str, app: &str) -> (r: Vec<String>)
    ensures
        texts(r@) == ports_among(lines(listing@), app@),
{
    let chars = chars_of(listing);
    let rows = split_lines(chars.as_slice());
    let ghost all = lines(listing@);
    let mut out: Vec<String> = Vec::new();
    assert(ports_among(all.take(0), app@) =~= Seq::<Seq<char>>::empty());
    for i in 0..rows.len()
        invariant
            spans(rows@) == all,
            texts(out@) == ports_among(all.take(i as int), app@),
    {
        let port = trimmed(rows[i]);
        let ghost f = |line: Seq<char>| port_of(line, app@);
        let ghost old_out = out@;
        proof {
            all.lemma_filter_map_take_succ(f, i as int);
            assert(rows@[i as int]@ == all[i as int]);
        }
        if begins(trimmed(head(port, ':')), app) && !capture_port(port) {
            out.push(string_of(port));
            assert(texts(out@) =~= texts(old_out).push(port@));
        }
    }
    assert(all.take(all.len() as int) == all);
    out
}

/// See [`mix_port`].
pub fn mix_target(port: &str) -> (r: &'static str)
    ensures
        r@ == mix_port(port@),
{
    let chars = chars_of(port);
    let colon = position(chars.as_slice(), ':');
    let start: usize = if colon < chars.len() {
        colon
    } else {
        0
    };
    let channel = vstd::slice::slice_subrange(chars.as_slice(), start, chars.len());
    assert(channel@ =~= channel_part(port@));
    if holds(channel, "FL") || holds(channel, ":output_0") || holds(channel, "front-left") {
        "PipeShare_Mix:playback_FL"
    } else if holds(channel, "FR") || holds(channel, ":output_1") || holds(channel, "front-right") {
        "PipeShare_Mix:playback_FR"
    } else {
        "PipeShare_Mix:playback_FL"
    }
}

// ---------------------------------------------------------------------------
// Modules and sources
// ---------------------------------------------------------------------------

/// The first word of a line.
pub open spec fn first_word(line: Seq<char>) -> Option<Seq<char>> {
    if words(line).len() > 0 {
        Some(words(line)[0])
    } else {
        None
    }
}

/// The module that a line of a module listing shows, if it is one of this
/// program.
pub open spec fn own_module(line: Seq<char>) -> Option<Seq<char>> {
    if mentions_pipeshare(line) {
        first_word(line)
    } else {
        None
    }
}

/// The modules of this program among some lines of a module listing.
pub open spec fn own_modules(all: Seq<Seq<char>>) -> Seq<Seq<char>> {
    all.filter_map(|line: Seq<char>| own_module(line))
}

/// The real microphone that a line of a source listing shows, if it does.
pub open spec fn real_source(line: Seq<char>) -> Option<Seq<char>> {
    if contains(line, "alsa_input"@) && !contains(line, "PipeShare"@) && words(line).len() > 1 {
        Some(words(line)[1])
    } else {
        None
    }
}

/// The first real microphone that some lines of a source listing show.
pub open spec fn first_real_source(all: Seq<Seq<char>>) -> Option<Seq<char>>
    decreases all.len(),
{
    if all.len() == 0 {
        None
    } else if real_source(all[0]) is Some {
        real_source(all[0])
    } else {
        first_real_source(all.skip(1))
    }
}

/// The modules of this program in a module listing.
pub fn leftover_modules(listing: &str) -> (r: Vec<String>)
    ensures
        texts(r@) == own_modules(lines(listing@)),
{
    let chars = chars_of(listing);
    let rows = split_lines(chars.as_slice());
    let ghost all = lines(listing@);
    let mut out: Vec<String> = Vec::new();
    assert(own_modules(all.take(0)) =~= Seq::<Seq<char>>::empty());
    for i in 0..rows.len()
        invariant
            spans(rows@) == all,
            texts(out@) == own_modules(all.take(i as int)),
    {
        let ghost f = |line: Seq<char>| own_module(line);
        let ghost old_out = out@;
        proof {
            all.lemma_filter_map_take_succ(f, i as int);
            assert(rows@[i as int]@ == all[i as int]);
        }
        if is_ours(rows[i]) {
            let parts = split_words(rows[i]);
            assert(spans(parts@).len() == parts@.len());
            if parts.len() > 0 {
                assert(spans(parts@)[0] == parts@[0]@);
                out.push(string_of(parts[0]));
                assert(texts(out@) =~= texts(old_out).push(parts@[0]@));
            }
        }
    }
    assert(all.take(all.len() as int) == all);
    out
}

/// The first real microphone in a source listing.
pub fn real_microphone(listing: &str) -> (r: Option<String>)
    ensures
        match r {
            Some(name) => first_real_source(lines(listing@)) == Some(name@),
            None => first_real_source(lines(listing@)) is None,
        },
{
    let chars = chars_of(listing);
    let rows = split_lines(chars.as_slice());
    let ghost all = lines(listing@);
    assert(all.skip(0) == all);
    for i in 0..rows.len()
        invariant
            spans(rows@) == all,
            all == lines(listing@),
            first_real_source(all) == first_real_source(all.skip(i as int)),
    {
        let row = rows[i];
        assert(row@ == all[i as int]);
        assert(all.skip(i as int)[0] == row@);
        assert(all.skip(i as int).skip(1) == all.skip(i + 1));
        if holds(row, "alsa_input") && !holds(row, "PipeShare") {
            let parts = split_words(row);
            assert(spans(parts@).len() == parts@.len());
            if parts.len() > 1 {
                assert(spans(parts@)[1] == parts@[1]@);
                return Some(string_of(parts[1]));
            }
        }
    }
    assert(all.skip(all.len() as int) =~= Seq::<Seq<char>>::empty());
    None
}

// ---------------------------------------------------------------------------
// Laws
// ---------------------------------------------------------------------------

/// A line that mentions this program has a word.
pub proof fn lemma_mention_has_words(line: Seq<char>)
    requires
        mentions_pipeshare(line),
    ensures
        words(line).len() > 0,
{
    reveal_strlit("PipeShare");
    reveal_strlit("pipeshare");
    let (i, part) = if contains(line, "PipeShare"@) {
        (choose|i: int| occurs_at(line, "PipeShare"@, i), "PipeShare"@)
    } else {
        (choose|i: int| occurs_at(line, "pipeshare"@, i), "pipeshare"@)
    };
    assert(occurs_at(line, part, i));
    assert(line.subrange(i, i + part.len())[2] == line[i + 2]);
    assert(line[i + 2] == 'p');
    assert(!white_space(line[i + 2]));
    lemma_has_words(line, i + 2);
}

/// A text that holds something but white space has a word.
proof fn lemma_has_words(s: Seq<char>, k: int)
    requires
        0 <= k < s.len(),
        !white_space(s[k]),
    ensures
        words(s).len() > 0,
    decreases s.len(),
{
    if white_space(s[0]) {
        assert(s.skip(1)[k - 1] == s[k]);
        lemma_has_words(s.skip(1), k - 1);
    }
}

/// Whether one of some lines names an application that produces audio.
pub open spec fn names_source(all: Seq<Seq<char>>, name: Seq<char>) -> bool {
    exists|i: int| 0 <= i < all.len() && source_name(#[trigger] all[i]) == Some(name)
}

proof fn lemma_distinct(items: Seq<Seq<char>>)
    ensures
        distinct(items).no_duplicates(),
        forall|item: Seq<char>| #[trigger] distinct(items).contains(item) <==> items.contains(item),
    decreases items.len(),
{
    if items.len() > 0 {
        let shorter = items.drop_last();
        lemma_distinct(shorter);
        let earlier = distinct(shorter);
        assert forall|item: Seq<char>| #[trigger]
            distinct(items).contains(item) <==> items.contains(item) by {
            if items.contains(item) {
                let k = choose|k: int| 0 <= k < items.len() && items[k] == item;
                if k < shorter.len() {
                    assert(shorter[k] == item);
                    assert(shorter.contains(item));
                    assert(earlier.contains(item));
                    let j = choose|j: int| 0 <= j < earlier.len() && earlier[j] == item;
                    assert(distinct(items)[j] == item);
                } else if !earlier.contains(item) {
                    assert(distinct(items)[earlier.len() as int] == item);
                }
            }
            if distinct(items).contains(item) {
                let j = choose|j: int|
                    0 <= j < distinct(items).len() && distinct(items)[j] == item;
                if j < earlier.len() {
                    assert(earlier[j] == item);
                    assert(earlier.contains(item));
                    let k = choose|k: int| 0 <= k < shorter.len() && shorter[k] == item;
                    assert(items[k] == item);
                } else {
                    assert(items[items.len() - 1] == item);
                }
            }
        }
    }
}

/// What filtering yields is what it yields of one of the items.
proof fn lemma_filter_map(
    all: Seq<Seq<char>>,
    f: spec_fn(Seq<char>) -> Option<Seq<char>>,
    item: Seq<char>,
)
    ensures
        all.filter_map(f).contains(item) <==> exists|i: int|
            0 <= i < all.len() && f(#[trigger] all[i]) == Some(item),
    decreases all.len(),
{
    if all.len() > 0 {
        let shorter = all.drop_last();
        lemma_filter_map(shorter, f, item);
        let earlier = shorter.filter_map(f);
        let now = all.filter_map(f);
        if earlier.contains(item) {
            let i = choose|i: int| 0 <= i < shorter.len() && f(#[trigger] shorter[i]) == Some(item);
            assert(all[i] == shorter[i]);
        }
        if exists|i: int| 0 <= i < all.len() && f(#[trigger] all[i]) == Some(item) {
            let i = choose|i: int| 0 <= i < all.len() && f(#[trigger] all[i]) == Some(item);
            if i < shorter.len() {
                assert(shorter[i] == all[i]);
            }
        }
        match f(all.last()) {
            Some(last) => {
                assert(now == earlier + seq![last]);
                if earlier.contains(item) {
                    let k = choose|k: int| 0 <= k < earlier.len() && earlier[k] == item;
                    assert(now[k] == item);
                }
                if last == item {
                    assert(now[earlier.len() as int] == item);
                    assert(f(all[all.len() - 1]) == Some(item));
                }
                if now.contains(item) {
                    let k = choose|k: int| 0 <= k < now.len() && now[k] == item;
                    if k < earlier.len() {
                        assert(earlier[k] == item);
                    }
                }
            },
            None => {
                assert(now == earlier);
            },
        }
    }
}

/// No application is listed twice.
pub proof fn sources_are_listed_once(listing: Seq<char>)
    ensures
        source_names(listing).no_duplicates(),
{
    lemma_distinct(named_sources(lines(listing)));
}

/// An application is listed exactly where one of the ports is a playback port
/// of it. Nothing of the audio system itself, and so nothing of this program, is
/// ever listed.
pub proof fn sources_are_the_playing_applications(listing: Seq<char>, name: Seq<char>)
    ensures
        source_names(listing).contains(name) <==> names_source(lines(listing), name),
        source_names(listing).contains(name) ==> !is_filtered(name),
{
    lemma_distinct(named_sources(lines(listing)));
    let f = |line: Seq<char>| source_name(line);
    lemma_filter_map(lines(listing), f, name);
    assert(source_names(listing).contains(name) <==> named_sources(lines(listing)).contains(name));
}

/// A port is linked to the mix exactly where a line of the listing shows it and
/// it is a playback port of the application. It is linked to one of the two
/// channels of the mix.
pub proof fn linked_ports_are_playback_ports(all: Seq<Seq<char>>, app: Seq<char>, port: Seq<char>)
    ensures
        ports_among(all, app).contains(port) <==> is_port_of(port, app) && exists|i: int|
            0 <= i < all.len() && trim(#[trigger] all[i]) == port,
        mix_port(port) == "PipeShare_Mix:playback_FL"@ || mix_port(port)
            == "PipeShare_Mix:playback_FR"@,
{
    let f = |line: Seq<char>| port_of(line, app);
    lemma_filter_map(all, f, port);
    if is_port_of(port, app) && exists|i: int| 0 <= i < all.len() && trim(#[trigger] all[i]) == port {
        let i = choose|i: int| 0 <= i < all.len() && trim(#[trigger] all[i]) == port;
        assert(f(all[i]) == Some(port));
    }
    if ports_among(all, app).contains(port) {
        let i = choose|i: int| 0 <= i < all.len() && f(#[trigger] all[i]) == Some(port);
        assert(trim(all[i]) == port);
    }
}

/// The channel of a port does not depend on the name of its application.
pub proof fn channel_is_that_of_the_port(app: Seq<char>, other: Seq<char>, port: Seq<char>)
    requires
        !app.contains(':'),
        !other.contains(':'),
        port.len() > 0,
        port[0] == ':',
    ensures
        mix_port(app + port) == mix_port(other + port),
{
    lemma_channel_part(app, port);
    lemma_channel_part(other, port);
}

proof fn lemma_channel_part(app: Seq<char>, port: Seq<char>)
    requires
        !app.contains(':'),
        port.len() > 0,
        port[0] == ':',
    ensures
        channel_part(app + port) == port,
{
    assert forall|j: int| 0 <= j < app.len() implies (app + port)[j] != ':' by {
        assert((app + port)[j] == app[j]);
    }
    lemma_find(app + port, ':', app.len() as int);
    assert((app + port).skip(app.len() as int) =~= port);
}

/// A default source that is found has a name.
pub proof fn default_source_has_a_name(answer: Result<Seq<char>, ErrorModel>)
    ensures
        default_source(answer) matches Ok(name) ==> name.len() > 0,
{
}

/// The default source is found exactly where something stands behind the label,
/// in the first line that holds it, and it is all that stands there.
pub proof fn default_source_is_what_the_label_gives(info: Seq<char>)
    requires
        first_with(lines(info), "Default Source:"@) is Some,
    ensures
        ({
            let label = "Default Source:"@;
            let line = first_with(lines(info), label)->0;
            let behind = line.skip((place_of(line, label) + label.len()) as int);
            let found = default_source(Ok(info));
            &&& occurs_at(line, label, place_of(line, label) as int)
            &&& found is Ok <==> !blank(behind)
            &&& found is Ok ==> found->Ok_0 == trim(behind)
        }),
{
    let label = "Default Source:"@;
    let line = first_with(lines(info), label)->0;
    lemma_first_with(lines(info), label);
    lemma_place_of(line, label);
    reveal_strlit("Default Source:");
    let at = place_of(line, label) as int;
    let rest = line.skip(at);
    assert(line.subrange(at, at + 15) == label);
    assert forall|j: int| 0 <= j < 15 implies rest[j] == label[j] by {
        assert(line.subrange(at, at + 15)[j] == line[at + j]);
    }
    assert(rest[14] == ':');
    assert forall|j: int| 0 <= j < 14 implies rest[j] != ':' by {
        assert(label[j] != ':');
    }
    lemma_find(rest, ':', 14);
    assert(rest.skip(15) =~= line.skip(at + 15));
    lemma_trim_blank(line.skip(at + 15));
}

proof fn lemma_first_with(all: Seq<Seq<char>>, label: Seq<char>)
    ensures
        first_with(all, label) matches Some(line) ==> contains(line, label),
    decreases all.len(),
{
    if all.len() > 0 && !contains(all[0], label) {
        lemma_first_with(all.skip(1), label);
    }
}

/// Whether a line picks a stream: it is no heading, it says that the stream is
/// wanted, and the nearest heading before it names the stream.
pub open spec fn picked_by(
    all: Seq<Seq<char>>,
    heading: Seq<char>,
    pick: PickModel,
    i: int,
    id: Seq<char>,
) -> bool {
    &&& 0 <= i < all.len()
    &&& !starts_with(trim(all[i]), heading)
    &&& picks(pick, trim(all[i]))
    &&& stream_of(all.take(i), heading) == Some(id)
}

/// A stream is moved exactly where a line of the listing picks it.
pub proof fn picked_streams_are_wanted(
    all: Seq<Seq<char>>,
    heading: Seq<char>,
    pick: PickModel,
    id: Seq<char>,
)
    ensures
        picked(all, heading, pick).contains(id) <==> exists|i: int|
            #[trigger] picked_by(all, heading, pick, i, id),
    decreases all.len(),
{
    if all.len() > 0 {
        let shorter = all.drop_last();
        let last = all.len() - 1;
        picked_streams_are_wanted(shorter, heading, pick, id);
        let earlier = picked(shorter, heading, pick);
        let now = picked(all, heading, pick);
        assert(all.take(last) =~= shorter);
        assert forall|i: int| 0 <= i < last implies #[trigger] picked_by(
            shorter,
            heading,
            pick,
            i,
            id,
        ) == picked_by(all, heading, pick, i, id) by {
            assert(shorter.take(i) =~= all.take(i));
            assert(shorter[i] == all[i]);
        }
        if earlier.contains(id) {
            let i = choose|i: int| #[trigger] picked_by(shorter, heading, pick, i, id);
            assert(picked_by(all, heading, pick, i, id));
            let k = choose|k: int| 0 <= k < earlier.len() && earlier[k] == id;
            assert(now[k] == id);
        }
        if now.contains(id) && !earlier.contains(id) {
            let k = choose|k: int| 0 <= k < now.len() && now[k] == id;
            if k < earlier.len() {
                assert(earlier[k] == id);
            }
            assert(picked_by(all, heading, pick, last, id));
        }
        if exists|i: int| #[trigger] picked_by(all, heading, pick, i, id) {
            let i = choose|i: int| #[trigger] picked_by(all, heading, pick, i, id);
            if i < last {
                assert(picked_by(shorter, heading, pick, i, id));
            } else {
                assert(now[earlier.len() as int] == id);
            }
        }
    } else {
        assert forall|i: int| !#[trigger] picked_by(all, heading, pick, i, id) by {}
    }
}

/// A name belongs to the audio system exactly where it begins with one of ten
/// texts. No other name does, however alike it looks.
pub proof fn names_are_filtered_by_their_beginning(name: Seq<char>)
    ensures
        is_filtered(name) <==> {
            ||| starts_with(name, "pipewire"@)
            ||| starts_with(name, "PipeWire"@)
            ||| starts_with(name, "pipeshare"@)
            ||| starts_with(name, "PipeShare"@)
            ||| starts_with(name, "alsa_output"@)
            ||| starts_with(name, "alsa_input"@)
            ||| starts_with(name, "Midi-Bridge"@)
            ||| starts_with(name, "bluez_"@)
            ||| starts_with(name, "kwin_"@)
            ||| starts_with(name, "xdg-desktop-portal"@)
        },
{
}

/// An application is listed exactly where some line of the listing, trimmed, is not
/// empty, is neither a monitor nor a capture port, and has before its first colon
/// the name of the application, and the name begins with none of the ten texts by
/// which the audio system is told.
pub proof fn every_playback_port_is_listed(listing: Seq<char>, name: Seq<char>)
    ensures
        source_names(listing).contains(name) <==> {
            &&& exists|i: int|
                {
                    &&& 0 <= i < lines(listing).len()
                    &&& trim(#[trigger] lines(listing)[i]).len() > 0
                    &&& !contains(trim(lines(listing)[i]), ":monitor_"@)
                    &&& !contains(trim(lines(listing)[i]), ":capture_"@)
                    &&& trim(before(trim(lines(listing)[i]), ':')) == name
                }
            &&& !starts_with(name, "pipewire"@)
            &&& !starts_with(name, "PipeWire"@)
            &&& !starts_with(name, "pipeshare"@)
            &&& !starts_with(name, "PipeShare"@)
            &&& !starts_with(name, "alsa_output"@)
            &&& !starts_with(name, "alsa_input"@)
            &&& !starts_with(name, "Midi-Bridge"@)
            &&& !starts_with(name, "bluez_"@)
            &&& !starts_with(name, "kwin_"@)
            &&& !starts_with(name, "xdg-desktop-portal"@)
        },
{
    sources_are_the_playing_applications(listing, name);
    let all = lines(listing);
    if names_source(all, name) {
        let i = choose|i: int| 0 <= i < all.len() && source_name(#[trigger] all[i]) == Some(name);
        assert(trim(all[i]).len() > 0);
    }
    if !is_filtered(name) && exists|i: int|
        {
            &&& 0 <= i < all.len()
            &&& trim(#[trigger] all[i]).len() > 0
            &&& !contains(trim(all[i]), ":monitor_"@)
            &&& !contains(trim(all[i]), ":capture_"@)
            &&& trim(before(trim(all[i]), ':')) == name
        } {
        let i = choose|i: int|
            {
                &&& 0 <= i < all.len()
                &&& trim(#[trigger] all[i]).len() > 0
                &&& !contains(trim(all[i]), ":monitor_"@)
                &&& !contains(trim(all[i]), ":capture_"@)
                &&& trim(before(trim(all[i]), ':')) == name
            };
        assert(source_name(all[i]) == Some(name));
    }
}

/// More lines never take an application off the list, and never change the order
/// of those that are on it.
pub proof fn list_grows_at_its_end(items: Seq<Seq<char>>, more: Seq<Seq<char>>)
    ensures
        distinct(items).len() <= distinct(items + more).len(),
        distinct(items) == distinct(items + more).take(distinct(items).len() as int),
    decreases more.len(),
{
    if more.len() == 0 {
        assert(items + more =~= items);
        assert(distinct(items).take(distinct(items).len() as int) =~= distinct(items));
    } else {
        let shorter = more.drop_last();
        list_grows_at_its_end(items, shorter);
        assert((items + more).drop_last() =~= items + shorter);
        assert(distinct(items) =~= distinct(items + more).take(distinct(items).len() as int));
    }
}

/// The stream that a line belongs to is the one that the nearest heading before it
/// names, and none where there is no heading before it.
pub proof fn stream_is_that_of_the_nearest_heading(all: Seq<Seq<char>>, heading: Seq<char>)
    ensures
        match stream_of(all, heading) {
            Some(id) => exists|h: int|
                {
                    &&& 0 <= h < all.len()
                    &&& starts_with(trim(#[trigger] all[h]), heading)
                    &&& trim(all[h]) == heading + id
                    &&& forall|j: int|
                        h < j < all.len() ==> !starts_with(trim(#[trigger] all[j]), heading)
                },
            None => forall|j: int|
                0 <= j < all.len() ==> !starts_with(trim(#[trigger] all[j]), heading),
        },
    decreases all.len(),
{
    if all.len() > 0 {
        let shorter = all.drop_last();
        let last = all.len() - 1;
        if starts_with(trim(all[last]), heading) {
            let line = trim(all[last]);
            assert(line =~= heading + line.skip(heading.len() as int)) by {
                assert(line.subrange(0, heading.len() as int) == heading);
                assert forall|k: int| 0 <= k < heading.len() implies line[k] == heading[k] by {
                    assert(line.subrange(0, heading.len() as int)[k] == line[k]);
                }
            }
        } else {
            stream_is_that_of_the_nearest_heading(shorter, heading);
            match stream_of(shorter, heading) {
                Some(id) => {
                    let h = choose|h: int|
                        {
                            &&& 0 <= h < shorter.len()
                            &&& starts_with(trim(#[trigger] shorter[h]), heading)
                            &&& trim(shorter[h]) == heading + id
                            &&& forall|j: int|
                                h < j < shorter.len() ==> !starts_with(
                                    trim(#[trigger] shorter[j]),
                                    heading,
                                )
                        };
                    assert(all[h] == shorter[h]);
                    assert forall|j: int| h < j < all.len() implies !starts_with(
                        trim(#[trigger] all[j]),
                        heading,
                    ) by {
                        if j < last {
                            assert(all[j] == shorter[j]);
                        }
                    }
                },
                None => {
                    assert forall|j: int| 0 <= j < all.len() implies !starts_with(
                        trim(#[trigger] all[j]),
                        heading,
                    ) by {
                        if j < last {
                            assert(all[j] == shorter[j]);
                        }
                    }
                },
            }
        }
    }
}

/// One more line picks at most one stream more, the one that it belongs to, and
/// leaves those before as they are.
pub proof fn one_line_picks_one_stream(
    all: Seq<Seq<char>>,
    line: Seq<char>,
    heading: Seq<char>,
    pick: PickModel,
)
    ensures
        ({
            let before = picked(all, heading, pick);
            let after = picked(all.push(line), heading, pick);
            if starts_with(trim(line), heading) || !picks(pick, trim(line)) || stream_of(
                all,
                heading,
            ) is None {
                after == before
            } else {
                after == before.push(stream_of(all, heading)->0)
            }
        }),
{
    assert(all.push(line).drop_last() =~= all);
}

/// A property line, with its value in quotation marks, gives that value back,
/// whatever stands in it, as long as no quotation mark stands at its ends.
pub proof fn property_reads_back(key: Seq<char>, value: Seq<char>)
    requires
        !key.contains('='),
        value.len() > 0 ==> value[0] != '"' && value.last() != '"',
    ensures
        property_value(key + seq!['=', ' ', '"'] + value + seq!['"']) == Some(value),
{
    let line = key + seq!['=', ' ', '"'] + value + seq!['"'];
    assert forall|j: int| 0 <= j < key.len() implies line[j] != '=' by {
        assert(line[j] == key[j]);
    }
    assert(line[key.len() as int] == '=');
    lemma_find(line, '=', key.len() as int);
    let rest = line.skip(key.len() as int + 1);
    assert(rest =~= seq![' ', '"'] + value + seq!['"']);
    let quoted = seq!['"'] + value + seq!['"'];
    assert(rest.skip(1) =~= quoted);
    assert(white_space(rest[0]));
    assert(!white_space(quoted[0]));
    assert(trim_start(rest) == trim_start(quoted));
    assert(trim_start(quoted) == quoted);
    assert(quoted.last() == '"');
    assert(trim(rest) == quoted);
    let inner = value + seq!['"'];
    assert(quoted.skip(1) =~= inner);
    assert(strip_start(quoted, '"') == strip_start(inner, '"'));
    if value.len() > 0 {
        assert(inner[0] == value[0]);
        assert(strip_start(inner, '"') == inner);
        assert(inner.drop_last() =~= value);
        assert(strip_end(inner, '"') == strip_end(value, '"'));
        assert(strip_end(value, '"') == value);
    } else {
        assert(inner.skip(1) =~= Seq::<char>::empty());
        assert(strip_start(inner, '"') == strip_start(Seq::<char>::empty(), '"'));
        assert(strip(quoted, '"') =~= value);
    }
}

/// A line picks a stream for an application exactly where it is one of the two
/// lines that name the application, and the name holds the wanted one, both in
/// lower case.
pub proof fn streams_are_picked_by_name(app: Seq<char>, line: Seq<char>)
    ensures
        picks(PickModel::Named { app }, line) <==> {
            &&& starts_with(line, "application.name ="@) || starts_with(line, "node.name ="@)
            &&& property_value(line) is Some
            &&& contains(lowercase(property_value(line)->0), lowercase(app))
        },
{
}

/// A line picks a recording stream exactly where it names the application and the
/// name begins with none of the ten texts by which the audio system is told.
pub proof fn recording_streams_are_picked_by_name(line: Seq<char>)
    ensures
        picks(PickModel::Recording, line) <==> {
            &&& starts_with(line, "application.name ="@)
            &&& property_value(line) is Some
            &&& !starts_with(property_value(line)->0, "pipewire"@)
            &&& !starts_with(property_value(line)->0, "PipeWire"@)
            &&& !starts_with(property_value(line)->0, "pipeshare"@)
            &&& !starts_with(property_value(line)->0, "PipeShare"@)
            &&& !starts_with(property_value(line)->0, "alsa_output"@)
            &&& !starts_with(property_value(line)->0, "alsa_input"@)
            &&& !starts_with(property_value(line)->0, "Midi-Bridge"@)
            &&& !starts_with(property_value(line)->0, "bluez_"@)
            &&& !starts_with(property_value(line)->0, "kwin_"@)
            &&& !starts_with(property_value(line)->0, "xdg-desktop-portal"@)
        },
{
}

/// A line picks a stream on a device of this program exactly where it holds the
/// name of the program, in one of its two forms. A module of the program is told
/// in the same way.
pub proof fn own_things_are_told_by_the_name(line: Seq<char>)
    ensures
        picks(PickModel::OnPipeShare, line) <==> contains(line, "PipeShare"@) || contains(
            line,
            "pipeshare"@,
        ),
        mentions_pipeshare(line) <==> contains(line, "PipeShare"@) || contains(
            line,
            "pipeshare"@,
        ),
{
}

/// The modules of this program in a listing are those of its parts together, and a
/// single line gives its first word where it holds the name of the program, and
/// nothing else.
pub proof fn modules_are_told_line_by_line(a: Seq<Seq<char>>, b: Seq<Seq<char>>, line: Seq<char>)
    ensures
        own_modules(a + b) == own_modules(a) + own_modules(b),
        contains(line, "PipeShare"@) || contains(line, "pipeshare"@) ==> words(line).len() > 0
            && own_modules(seq![line]) == seq![words(line)[0]],
        !contains(line, "PipeShare"@) && !contains(line, "pipeshare"@) ==> own_modules(seq![line])
            == Seq::<Seq<char>>::empty(),
{
    let f = |line: Seq<char>| own_module(line);
    lemma_filter_map_add(a, b, f);
    Seq::lemma_filter_map_singleton(line, f);
    if mentions_pipeshare(line) {
        lemma_mention_has_words(line);
    }
}

/// Filtering a text is filtering its parts.
proof fn lemma_filter_map_add(
    a: Seq<Seq<char>>,
    b: Seq<Seq<char>>,
    f: spec_fn(Seq<char>) -> Option<Seq<char>>,
)
    ensures
        (a + b).filter_map(f) == a.filter_map(f) + b.filter_map(f),
    decreases b.len(),
{
    if b.len() == 0 {
        assert(a + b =~= a);
        assert(a.filter_map(f) + b.filter_map(f) =~= a.filter_map(f));
    } else {
        assert((a + b).drop_last() =~= a + b.drop_last());
        lemma_filter_map_add(a, b.drop_last(), f);
        assert((a + b).filter_map(f) =~= a.filter_map(f) + b.filter_map(f));
    }
}

/// A port belongs to an application exactly where the part before its first colon
/// begins with the name, and it is neither a monitor nor a capture port. The ports
/// in a listing are those of its parts together.
pub proof fn ports_are_told_line_by_line(
    a: Seq<Seq<char>>,
    b: Seq<Seq<char>>,
    line: Seq<char>,
    app: Seq<char>,
)
    ensures
        ports_among(a + b, app) == ports_among(a, app) + ports_among(b, app),
        ({
            let port = trim(line);
            let found = ports_among(seq![line], app);
            if starts_with(trim(before(port, ':')), app) && !contains(port, ":monitor_"@)
                && !contains(port, ":capture_"@) {
                found == seq![port]
            } else {
                found == Seq::<Seq<char>>::empty()
            }
        }),
{
    let f = |line: Seq<char>| port_of(line, app);
    lemma_filter_map_add(a, b, f);
    Seq::lemma_filter_map_singleton(line, f);
}

/// A port goes to the right channel exactly where its own name, which begins at the
/// first colon, speaks of the right channel and not of the left one.
pub proof fn channel_is_told_by_the_name_of_the_port(app: Seq<char>, port: Seq<char>)
    requires
        !app.contains(':'),
        port.len() > 0,
        port[0] == ':',
    ensures
        mix_port(app + port) == "PipeShare_Mix:playback_FR"@ <==> {
            &&& contains(port, "FR"@) || contains(port, ":output_1"@) || contains(
                port,
                "front-right"@,
            )
            &&& !contains(port, "FL"@)
            &&& !contains(port, ":output_0"@)
            &&& !contains(port, "front-left"@)
        },
        mix_port(app + port) != "PipeShare_Mix:playback_FR"@ ==> mix_port(app + port)
            == "PipeShare_Mix:playback_FL"@,
{
    lemma_channel_part(app, port);
    lemma_channels_differ();
}

/// A port without a colon is judged by all of its name.
pub proof fn port_without_a_colon_is_judged_whole(port: Seq<char>)
    requires
        !port.contains(':'),
    ensures
        mix_port(port) == "PipeShare_Mix:playback_FR"@ <==> {
            &&& contains(port, "FR"@) || contains(port, "front-right"@)
            &&& !contains(port, "FL"@)
            &&& !contains(port, "front-left"@)
        },
{
    assert forall|j: int| 0 <= j < port.len() implies port[j] != ':' by {
        if port[j] == ':' {
            assert(port.contains(':'));
        }
    }
    lemma_find(port, ':', port.len() as int);
    reveal_strlit(":output_0");
    reveal_strlit(":output_1");
    if contains(port, ":output_0"@) {
        let i = choose|i: int| occurs_at(port, ":output_0"@, i);
        assert(port.subrange(i, i + 9)[0] == port[i]);
    }
    if contains(port, ":output_1"@) {
        let i = choose|i: int| occurs_at(port, ":output_1"@, i);
        assert(port.subrange(i, i + 9)[0] == port[i]);
    }
    lemma_channels_differ();
}

/// The two channels of the mix are not the same.
proof fn lemma_channels_differ()
    ensures
        "PipeShare_Mix:playback_FR"@ != "PipeShare_Mix:playback_FL"@,
{
    reveal_strlit("PipeShare_Mix:playback_FR");
    reveal_strlit("PipeShare_Mix:playback_FL");
    assert("PipeShare_Mix:playback_FR"@[24] == 'R');
    assert("PipeShare_Mix:playback_FL"@[24] == 'L');
}

/// A label is looked for from the top: the line that counts is the first one that
/// holds it.
pub proof fn first_labelled_line_counts(all: Seq<Seq<char>>, label: Seq<char>)
    ensures
        match first_with(all, label) {
            Some(line) => exists|i: int|
                {
                    &&& 0 <= i < all.len()
                    &&& #[trigger] all[i] == line
                    &&& contains(line, label)
                    &&& forall|j: int| 0 <= j < i ==> !contains(#[trigger] all[j], label)
                },
            None => forall|j: int| 0 <= j < all.len() ==> !contains(#[trigger] all[j], label),
        },
    decreases all.len(),
{
    if all.len() > 0 {
        let rest = all.skip(1);
        if contains(all[0], label) {
            assert(all[0] == first_with(all, label)->0);
        } else {
            first_labelled_line_counts(rest, label);
            match first_with(rest, label) {
                Some(line) => {
                    let i = choose|i: int|
                        {
                            &&& 0 <= i < rest.len()
                            &&& #[trigger] rest[i] == line
                            &&& contains(line, label)
                            &&& forall|j: int| 0 <= j < i ==> !contains(#[trigger] rest[j], label)
                        };
                    assert(all[i + 1] == line);
                    assert forall|j: int| 0 <= j < i + 1 implies !contains(
                        #[trigger] all[j],
                        label,
                    ) by {
                        if j > 0 {
                            assert(rest[j - 1] == all[j]);
                        }
                    }
                },
                None => {
                    assert forall|j: int| 0 <= j < all.len() implies !contains(
                        #[trigger] all[j],
                        label,
                    ) by {
                        if j > 0 {
                            assert(rest[j - 1] == all[j]);
                        }
                    }
                },
            }
        }
    }
}

/// A line that gives a value under a label, in whatever text, is read back: the
/// value is all that stands behind the label, without white space at its ends.
pub proof fn labelled_value_reads_back(lead: Seq<char>, name: Seq<char>, value: Seq<char>)
    requires
        !name.contains(':'),
        place_of(lead + name + seq![':'] + value, name + seq![':']) == lead.len(),
    ensures
        labelled_value(lead + name + seq![':'] + value, name + seq![':']) == trim(value),
{
    let line = lead + name + seq![':'] + value;
    let rest = line.skip(lead.len() as int);
    assert(rest =~= name + seq![':'] + value);
    assert forall|j: int| 0 <= j < name.len() implies rest[j] != ':' by {
        assert(rest[j] == name[j]);
    }
    lemma_find(rest, ':', name.len() as int);
    assert(rest.skip(name.len() as int + 1) =~= value);
}

/// The default devices are what the server information gives under their labels. A
/// source without a name is none. Where there is no answer, its error is handed on.
pub proof fn default_devices_are_read_from_the_information(
    info: Seq<char>,
    error: ErrorModel,
)
    ensures
        ({
            let source = first_with(lines(info), "Default Source:"@);
            let sink = first_with(lines(info), "Default Sink:"@);
            &&& source is None ==> default_source(Ok(info)) == Err::<Seq<char>, ErrorModel>(
                ErrorModel::NoDefaultSource,
            )
            &&& source matches Some(line) ==> default_source(Ok(info)) == if labelled_value(
                line,
                "Default Source:"@,
            ).len() > 0 {
                Ok::<Seq<char>, ErrorModel>(labelled_value(line, "Default Source:"@))
            } else {
                Err(ErrorModel::NoDefaultSource)
            }
            &&& sink is None ==> default_sink(Ok(info)) == Err::<Seq<char>, ErrorModel>(
                ErrorModel::NoDefaultSink,
            )
            &&& sink matches Some(line) ==> default_sink(Ok(info)) == Ok::<Seq<char>, ErrorModel>(
                labelled_value(line, "Default Sink:"@),
            )
            &&& default_source(Err(error)) == Err::<Seq<char>, ErrorModel>(error)
            &&& default_sink(Err(error)) == Err::<Seq<char>, ErrorModel>(error)
        }),
{
}

/// The first real microphone of a source listing is the second word of the first
/// line that holds `alsa_input`, does not hold the name of this program and has a
/// second word, whatever else the line holds. There is none only where no line is
/// such a one.
pub proof fn first_real_microphone_is_found(all: Seq<Seq<char>>)
    ensures
        match first_real_source(all) {
            Some(name) => exists|i: int|
                {
                    &&& 0 <= i < all.len()
                    &&& contains(#[trigger] all[i], "alsa_input"@)
                    &&& !contains(all[i], "PipeShare"@)
                    &&& words(all[i]).len() > 1
                    &&& words(all[i])[1] == name
                    &&& forall|j: int|
                        0 <= j < i ==> {
                            ||| !contains(#[trigger] all[j], "alsa_input"@)
                            ||| contains(all[j], "PipeShare"@)
                            ||| words(all[j]).len() <= 1
                        }
                },
            None => forall|j: int|
                0 <= j < all.len() ==> {
                    ||| !contains(#[trigger] all[j], "alsa_input"@)
                    ||| contains(all[j], "PipeShare"@)
                    ||| words(all[j]).len() <= 1
                },
        },
    decreases all.len(),
{
    if all.len() > 0 {
        let rest = all.skip(1);
        if real_source(all[0]) is Some {
            assert(contains(all[0], "alsa_input"@));
        } else {
            first_real_microphone_is_found(rest);
            match first_real_source(rest) {
                Some(name) => {
                    let i = choose|i: int|
                        {
                            &&& 0 <= i < rest.len()
                            &&& contains(#[trigger] rest[i], "alsa_input"@)
                            &&& !contains(rest[i], "PipeShare"@)
                            &&& words(rest[i]).len() > 1
                            &&& words(rest[i])[1] == name
                            &&& forall|j: int|
                                0 <= j < i ==> {
                                    ||| !contains(#[trigger] rest[j], "alsa_input"@)
                                    ||| contains(rest[j], "PipeShare"@)
                                    ||| words(rest[j]).len() <= 1
                                }
                        };
                    assert(rest[i] == all[i + 1]);
                    assert(contains(all[i + 1], "alsa_input"@));
                    assert forall|j: int| 0 <= j < i + 1 implies {
                        ||| !contains(#[trigger] all[j], "alsa_input"@)
                        ||| contains(all[j], "PipeShare"@)
                        ||| words(all[j]).len() <= 1
                    } by {
                        if j > 0 {
                            assert(rest[j - 1] == all[j]);
                        }
                    }
                },
                None => {
                    assert forall|j: int| 0 <= j < all.len() implies {
                        ||| !contains(#[trigger] all[j], "alsa_input"@)
                        ||| contains(all[j], "PipeShare"@)
                        ||| words(all[j]).len() <= 1
                    } by {
                        if j > 0 {
                            assert(rest[j - 1] == all[j]);
                        }
                    }
                },
            }
        }
    }
}

/// Nodes that are numbered are so from one on, without a gap, and the names of
/// some nodes are their names, in order.
pub proof fn nodes_are_numbered_from_one(nodes: Seq<AudioNode>, k: int)
    requires
        0 <= k < nodes.len(),
    ensures
        node_names(nodes).len() == nodes.len(),
        node_names(nodes)[k] == nodes[k].app_name@,
        numbered(nodes) && k < 0xffff_ffff ==> nodes[k].id == k + 1,
{
}

/// What is listed is what the answer to the port listing shows. Where there is no
/// answer, its error is handed on.
pub proof fn sources_are_those_of_the_answer(reply: CommandReply)
    ensures
        pw_link_answer(reply) matches Ok(listing) ==> sources_answer(reply) == Ok::<
            Seq<Seq<char>>,
            ErrorModel,
        >(source_names(listing)),
        pw_link_answer(reply) matches Err(error) ==> sources_answer(reply) == Err::<
            Seq<Seq<char>>,
            ErrorModel,
        >(error),
{
}

} // verus!
