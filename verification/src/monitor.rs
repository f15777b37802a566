//! Watching the PipeWire graph for screen shares.
//!
//! The caller runs `pw-dump` and hands over what it prints; the monitor says
//! what to do next and which events to announce. A `pw-dump --monitor` that ends
//! is started anew after a pause, and what was known stays known.

use crate::frames::{
    array_rows, array_texts, completed, fed, fed_all, frames_of, frames_start, is_array,
    is_unfinished, output_is_cut_into_its_arrays, FrameModel, FrameReader,
};
use crate::json::{graph_objects, json_array, json_array_in, objects, update_objects};
use crate::tracker::{
    after_updates, all_events, alternate, distinct_ids, event_models, events_of_a_node_alternate,
    get_current_screencast_nodes, node_events, share_ids, update_events, updated, EventModel,
    PwDumpObject, ScreenShareEvent, ShareTracker, TrackerModel,
};
use std::collections::HashSet;
use vstd::prelude::*;

verus! {

/// What the monitor is told.
#[derive(Debug)]
pub enum MonitorEvent {
    /// `pw-dump` printed the present graph, a list of objects throughout.
    BaselineRead { objects: Vec<PwDumpObject> },
    /// `pw-dump` printed something else for the present graph.
    BaselinePrinted { stdout: Vec<u8> },
    /// What became of the values of the present graph that were to be decoded.
    BaselineDecoded { objects: Vec<Option<PwDumpObject>> },
    /// `pw-dump` could not be run for the present graph.
    BaselineFailed,
    /// `pw-dump --monitor` was started.
    Launched,
    /// `pw-dump --monitor` printed a line.
    Line { text: String },
    /// What became of the values that were to be decoded: an object, or nothing
    /// where a value is no description of one.
    Decoded { objects: Vec<Option<PwDumpObject>> },
    /// The events were announced.
    Announced,
    /// `pw-dump --monitor` ended, could not be read or could not be started.
    Ended,
    /// The pause is over.
    Rested,
}

/// What the monitor wants done next.
#[derive(Debug)]
pub enum MonitorAction {
    /// Run `pw-dump` for the present graph, and decode what it prints as a list of
    /// objects.
    ReadBaseline,
    /// Decode each of the values of the present graph.
    DecodeBaseline { values: Vec<serde_json::Value> },
    /// Start `pw-dump --monitor`.
    Launch,
    /// Read the next line of `pw-dump --monitor`.
    ReadLine,
    /// Decode each of the values.
    Decode { values: Vec<serde_json::Value> },
    /// Announce the events, in order.
    Announce { events: Vec<ScreenShareEvent> },
    /// Wait.
    Pause { millis: u64 },
    /// Give up, with a message.
    Fail { message: String },
}

/// A [`MonitorAction`] as a mathematical value.
#[verifier::ext_equal]
pub ghost enum ActionModel {
    ReadBaseline,
    DecodeBaseline { values: Seq<serde_json::Value> },
    Launch,
    ReadLine,
    Decode { values: Seq<serde_json::Value> },
    Announce { events: Seq<EventModel> },
    Pause { millis: nat },
    Fail { message: Seq<char> },
}

impl View for MonitorAction {
    type V = ActionModel;

    open spec fn view(&self) -> ActionModel {
        match *self {
            MonitorAction::ReadBaseline => ActionModel::ReadBaseline,
            MonitorAction::DecodeBaseline { values } => ActionModel::DecodeBaseline {
                values: values@,
            },
            MonitorAction::Launch => ActionModel::Launch,
            MonitorAction::ReadLine => ActionModel::ReadLine,
            MonitorAction::Decode { values } => ActionModel::Decode { values: values@ },
            MonitorAction::Announce { events } => ActionModel::Announce {
                events: event_models(events@),
            },
            MonitorAction::Pause { millis } => ActionModel::Pause { millis: millis as nat },
            MonitorAction::Fail { message } => ActionModel::Fail { message: message@ },
        }
    }
}

/// A [`ShareMonitor`] as a mathematical value.
#[verifier::ext_equal]
pub ghost struct MonitorModel {
    /// The update that is being read.
    pub frames: FrameModel,
    /// The nodes that are known.
    pub tracker: TrackerModel,
}

/// The monitor before its first step.
pub open spec fn monitor_start() -> MonitorModel {
    MonitorModel {
        frames: frames_start(),
        tracker: TrackerModel { known: Set::empty(), active: Set::empty() },
    }
}

/// The objects among the results of decoding.
pub open spec fn decoded(results: Seq<Option<PwDumpObject>>) -> Seq<PwDumpObject> {
    results.filter_map(|result: Option<PwDumpObject>| result)
}

/// The tracker for a graph that is there from before.
pub open spec fn tracker_from(graph: Seq<PwDumpObject>) -> TrackerModel {
    TrackerModel { known: share_ids(graph), active: Set::empty() }
}

/// The monitor after an event.
pub open spec fn monitor_next(m: MonitorModel, event: MonitorEvent) -> MonitorModel {
    match event {
        MonitorEvent::BaselineRead { objects: graph } => MonitorModel {
            tracker: tracker_from(graph@),
            ..m
        },
        MonitorEvent::BaselineDecoded { objects: results } => MonitorModel {
            tracker: tracker_from(decoded(results@)),
            ..m
        },
        MonitorEvent::Launched => MonitorModel { frames: frames_start(), ..m },
        MonitorEvent::Line { text } => MonitorModel { frames: fed(m.frames, text@), ..m },
        MonitorEvent::Decoded { objects: results } => MonitorModel {
            tracker: updated(m.tracker, decoded(results@)),
            ..m
        },
        _ => m,
    }
}

/// What the monitor wants done after an event.
pub open spec fn monitor_action(m: MonitorModel, event: MonitorEvent) -> ActionModel {
    match event {
        MonitorEvent::BaselineRead { .. } => ActionModel::Launch,
        MonitorEvent::BaselinePrinted { stdout } => match json_array_in(stdout@) {
            Some(values) => ActionModel::DecodeBaseline { values: objects(values) },
            None => ActionModel::Launch,
        },
        MonitorEvent::BaselineDecoded { .. } => ActionModel::Launch,
        MonitorEvent::BaselineFailed => ActionModel::Fail { message: "Failed to run pw-dump"@ },
        MonitorEvent::Launched => ActionModel::ReadLine,
        MonitorEvent::Line { text } => match completed(m.frames, text@) {
            Some(update) => match json_array(update) {
                Some(values) => ActionModel::Decode { values: objects(values) },
                None => ActionModel::ReadLine,
            },
            None => ActionModel::ReadLine,
        },
        MonitorEvent::Decoded { objects: results } => ActionModel::Announce {
            events: update_events(m.tracker, decoded(results@)),
        },
        MonitorEvent::Announced => ActionModel::ReadLine,
        MonitorEvent::Ended => ActionModel::Pause { millis: 5000 },
        MonitorEvent::Rested => ActionModel::Launch,
    }
}

/// The monitor of screen shares.
#[derive(Debug)]
pub struct ShareMonitor {
    frames: FrameReader,
    tracker: ShareTracker,
}

impl View for ShareMonitor {
    type V = MonitorModel;

    closed spec fn view(&self) -> MonitorModel {
        MonitorModel { frames: self.frames@, tracker: self.tracker@ }
    }
}

/// Starts to watch for screen shares, and says what to do first.
pub fn monitor_screen_share() -> (r: (ShareMonitor, MonitorAction))
    ensures
        r.0@ == monitor_start(),
        r.1@ == ActionModel::ReadBaseline,
{
    (
        ShareMonitor { frames: FrameReader::new(), tracker: ShareTracker::new(HashSet::new()) },
        MonitorAction::ReadBaseline,
    )
}

/// See [`decoded`].
fn keep_decoded(results: Vec<Option<PwDumpObject>>) -> (r: Vec<PwDumpObject>)
    ensures
        r@ == decoded(results@),
{
    let ghost all = results@;
    let ghost f = |result: Option<PwDumpObject>| result;
    let mut out: Vec<PwDumpObject> = Vec::new();
    for result in it: results
        invariant
            it.seq() == all,
            out@ == decoded(all.take(it.index())),
            f == (|result: Option<PwDumpObject>| result),
    {
        proof {
            all.lemma_filter_map_take_succ(f, it.index());
            assert(all[it.index()] == result);
        }
        if let Some(object) = result {
            out.push(object);
        }
    }
    assert(all.take(all.len() as int) =~= all);
    out
}

impl ShareMonitor {
    /// Takes an event, and says what to do next.
    pub fn step(&mut self, event: MonitorEvent) -> (r: MonitorAction)
        ensures
            final(self)@ == monitor_next(old(self)@, event),
            r@ == monitor_action(old(self)@, event),
    {
        match event {
            MonitorEvent::BaselineRead { objects: graph } => {
                self.tracker = ShareTracker::new(get_current_screencast_nodes(&graph));
                MonitorAction::Launch
            },
            MonitorEvent::BaselinePrinted { stdout } => match graph_objects(stdout.as_slice()) {
                Some(values) => MonitorAction::DecodeBaseline { values },
                None => MonitorAction::Launch,
            },
            MonitorEvent::BaselineDecoded { objects: results } => {
                let graph = keep_decoded(results);
                self.tracker = ShareTracker::new(get_current_screencast_nodes(&graph));
                MonitorAction::Launch
            },
            MonitorEvent::BaselineFailed => MonitorAction::Fail {
                message: "Failed to run pw-dump".to_owned(),
            },
            MonitorEvent::Launched => {
                self.frames = FrameReader::new();
                MonitorAction::ReadLine
            },
            MonitorEvent::Line { text } => match self.frames.feed(text.as_str()) {
                Some(update) => match update_objects(update.as_str()) {
                    Some(values) => MonitorAction::Decode { values },
                    None => MonitorAction::ReadLine,
                },
                None => MonitorAction::ReadLine,
            },
            MonitorEvent::Decoded { objects: results } => {
                let graph = keep_decoded(results);
                let events = self.tracker.update(&graph);
                MonitorAction::Announce { events }
            },
            MonitorEvent::Announced => MonitorAction::ReadLine,
            MonitorEvent::Ended => MonitorAction::Pause { millis: 5000 },
            MonitorEvent::Rested => MonitorAction::Launch,
        }
    }
}

// ---------------------------------------------------------------------------
// Laws
// ---------------------------------------------------------------------------

/// A `pw-dump --monitor` that ends, or cannot be started, changes nothing and is
/// started anew after a pause. All nodes that were known are still known then, and
/// no part of a broken update is left.
pub proof fn restart_forgets_no_share(m: MonitorModel)
    ensures
        ({
            let m1 = monitor_next(m, MonitorEvent::Ended);
            let m2 = monitor_next(m1, MonitorEvent::Rested);
            let m3 = monitor_next(m2, MonitorEvent::Launched);
            &&& m1 == m
            &&& monitor_action(m, MonitorEvent::Ended) == (ActionModel::Pause { millis: 5000 })
            &&& monitor_action(m1, MonitorEvent::Rested) == ActionModel::Launch
            &&& monitor_action(m2, MonitorEvent::Launched) == ActionModel::ReadLine
            &&& m3.tracker == m.tracker
            &&& m3.frames == frames_start()
        }),
{
}

/// The monitor gives up only where the present graph cannot be read.
pub proof fn monitor_gives_up_without_a_baseline_only(m: MonitorModel, event: MonitorEvent)
    ensures
        monitor_action(m, event) is Fail <==> event is BaselineFailed,
{
}

/// An update that is no JSON array is skipped: nothing is announced, and the
/// known nodes stay.
pub proof fn broken_updates_are_skipped(m: MonitorModel, text: String)
    requires
        completed(m.frames, text@) matches Some(update) && json_array(update) is None,
    ensures
        monitor_action(m, MonitorEvent::Line { text }) == ActionModel::ReadLine,
        monitor_next(m, MonitorEvent::Line { text }).tracker == m.tracker,
{
}

/// The monitor after some events.
pub open spec fn monitor_run(m: MonitorModel, events: Seq<MonitorEvent>) -> MonitorModel
    decreases events.len(),
{
    if events.len() == 0 {
        m
    } else {
        monitor_next(monitor_run(m, events.drop_last()), events.last())
    }
}

/// What the monitor wants done after some events, where `first` was wanted before
/// them.
pub open spec fn monitor_wants(
    m: MonitorModel,
    first: ActionModel,
    events: Seq<MonitorEvent>,
) -> ActionModel {
    if events.len() == 0 {
        first
    } else {
        monitor_action(monitor_run(m, events.drop_last()), events.last())
    }
}

/// Whether an event can follow an action. Values are decoded one by one.
pub open spec fn monitor_expects(
    action: ActionModel,
    event: MonitorEvent,
    decode: spec_fn(serde_json::Value) -> Option<PwDumpObject>,
) -> bool {
    match action {
        ActionModel::ReadBaseline => event is BaselineRead || event is BaselinePrinted
            || event is BaselineFailed,
        ActionModel::DecodeBaseline { values } => event matches MonitorEvent::BaselineDecoded {
            objects: results,
        } && results@ == values.map_values(decode),
        ActionModel::Launch => event is Launched || event is Ended,
        ActionModel::ReadLine => event is Line || event is Ended,
        ActionModel::Decode { values } => event matches MonitorEvent::Decoded { objects: results }
            && results@ == values.map_values(decode),
        ActionModel::Announce { .. } => event is Announced,
        ActionModel::Pause { .. } => event is Rested,
        ActionModel::Fail { .. } => false,
    }
}

/// Whether each of the events can follow the action before it.
pub open spec fn monitor_fits(
    m: MonitorModel,
    first: ActionModel,
    events: Seq<MonitorEvent>,
    decode: spec_fn(serde_json::Value) -> Option<PwDumpObject>,
) -> bool
    decreases events.len(),
{
    events.len() > 0 ==> monitor_fits(m, first, events.drop_last(), decode) && monitor_expects(
        monitor_wants(m, first, events.drop_last()),
        events.last(),
        decode,
    )
}

/// All that the monitor wanted announced in the course of some events, in order.
pub open spec fn announced(m: MonitorModel, events: Seq<MonitorEvent>) -> Seq<EventModel>
    decreases events.len(),
{
    if events.len() == 0 {
        seq![]
    } else {
        let earlier = announced(m, events.drop_last());
        match monitor_action(monitor_run(m, events.drop_last()), events.last()) {
            ActionModel::Announce { events: more } => earlier + more,
            _ => earlier,
        }
    }
}

/// The updates that some events bring, in order.
pub open spec fn decodings(events: Seq<MonitorEvent>) -> Seq<Seq<PwDumpObject>>
    decreases events.len(),
{
    if events.len() == 0 {
        seq![]
    } else {
        match events.last() {
            MonitorEvent::Decoded { objects: results } => decodings(events.drop_last()).push(
                decoded(results@),
            ),
            _ => decodings(events.drop_last()),
        }
    }
}

/// The lines that some events bring, in order.
pub open spec fn rows_of(events: Seq<MonitorEvent>) -> Seq<Seq<char>>
    decreases events.len(),
{
    if events.len() == 0 {
        seq![]
    } else {
        match events.last() {
            MonitorEvent::Line { text } => rows_of(events.drop_last()).push(text@),
            _ => rows_of(events.drop_last()),
        }
    }
}

/// The objects that the text of an update decodes to. A text that is no array is
/// no update.
pub open spec fn update_in(
    text: Seq<char>,
    decode: spec_fn(serde_json::Value) -> Option<PwDumpObject>,
) -> Option<Seq<PwDumpObject>> {
    match json_array(text) {
        Some(values) => Some(decoded(objects(values).map_values(decode))),
        None => None,
    }
}

/// The updates that some texts decode to, in order.
pub open spec fn updates_in(
    texts: Seq<Seq<char>>,
    decode: spec_fn(serde_json::Value) -> Option<PwDumpObject>,
) -> Seq<Seq<PwDumpObject>> {
    texts.filter_map(|text: Seq<char>| update_in(text, decode))
}

/// Whether an event tells the present graph, from which the monitor starts.
pub open spec fn sets_baseline(event: MonitorEvent) -> bool {
    event is BaselineRead || event is BaselineDecoded
}

/// What the monitor knows and announces comes of the updates alone.
proof fn lemma_announced(m: MonitorModel, events: Seq<MonitorEvent>)
    requires
        forall|i: int| 0 <= i < events.len() ==> !sets_baseline(#[trigger] events[i]),
    ensures
        monitor_run(m, events).tracker == after_updates(m.tracker, decodings(events)),
        announced(m, events) == all_events(m.tracker, decodings(events)),
    decreases events.len(),
{
    if events.len() > 0 {
        let shorter = events.drop_last();
        assert forall|i: int| 0 <= i < shorter.len() implies !sets_baseline(
            #[trigger] shorter[i],
        ) by {
            assert(shorter[i] == events[i]);
        }
        lemma_announced(m, shorter);
        assert(!sets_baseline(events[events.len() - 1]));
        if events.last() is Decoded {
            assert(decodings(events).drop_last() =~= decodings(shorter));
        }
    }
}

/// Once the present graph is known, the announced events of each node alternate,
/// beginning with a start, whatever happens, restarts included, as long as no
/// update repeats an id. A node of the present graph is never announced.
pub proof fn announced_events_alternate(m: MonitorModel, events: Seq<MonitorEvent>, id: u32)
    requires
        m.tracker.active == Set::<u32>::empty(),
        forall|i: int| 0 <= i < events.len() ==> !sets_baseline(#[trigger] events[i]),
        forall|i: int|
            0 <= i < decodings(events).len() ==> distinct_ids(#[trigger] decodings(events)[i]),
    ensures
        alternate(node_events(announced(m, events), id), id),
        m.tracker.known.contains(id) ==> node_events(announced(m, events), id).len() == 0,
{
    lemma_announced(m, events);
    events_of_a_node_alternate(m.tracker.known, decodings(events), id);
    assert(m.tracker == (TrackerModel { known: m.tracker.known, active: Set::empty() }));
}

/// A whole output of `pw-dump --monitor`, arrays one after the other, brings the
/// same events and leaves the same nodes known as these arrays do, taken as
/// updates in their order. An array that is unfinished at the end has no effect.
pub proof fn whole_output_is_announced(
    m: MonitorModel,
    events: Seq<MonitorEvent>,
    arrays: Seq<Seq<Seq<char>>>,
    rest: Seq<Seq<char>>,
    decode: spec_fn(serde_json::Value) -> Option<PwDumpObject>,
)
    requires
        !m.frames.open,
        monitor_fits(m, ActionModel::ReadLine, events, decode),
        forall|i: int| 0 <= i < events.len() ==> (#[trigger] events[i]) !is Launched,
        monitor_wants(m, ActionModel::ReadLine, events) !is Decode,
        rows_of(events) == array_rows(arrays) + rest,
        forall|i: int| 0 <= i < arrays.len() ==> is_array(#[trigger] arrays[i]),
        is_unfinished(rest),
    ensures
        ({
            let updates = updates_in(array_texts(arrays), decode);
            &&& announced(m, events) == all_events(m.tracker, updates)
            &&& monitor_run(m, events).tracker == after_updates(m.tracker, updates)
        }),
{
    output_is_cut_into_its_arrays(m.frames, arrays, rest);
    lemma_output(m, events, decode);
    lemma_announced(m, events);
}

/// In the course of one output, what was decoded are the updates that were read,
/// but for one that is about to be decoded.
proof fn lemma_output(
    m: MonitorModel,
    events: Seq<MonitorEvent>,
    decode: spec_fn(serde_json::Value) -> Option<PwDumpObject>,
)
    requires
        monitor_fits(m, ActionModel::ReadLine, events, decode),
        forall|i: int| 0 <= i < events.len() ==> (#[trigger] events[i]) !is Launched,
    ensures
        forall|i: int| 0 <= i < events.len() ==> !sets_baseline(#[trigger] events[i]),
        monitor_run(m, events).frames == fed_all(m.frames, rows_of(events)),
        ({
            let updates = updates_in(frames_of(m.frames, rows_of(events)), decode);
            match monitor_wants(m, ActionModel::ReadLine, events) {
                ActionModel::Decode { values } => updates == decodings(events).push(
                    decoded(values.map_values(decode)),
                ),
                ActionModel::ReadBaseline => false,
                ActionModel::DecodeBaseline { .. } => false,
                _ => updates == decodings(events),
            }
        }),
    decreases events.len(),
{
    if events.len() == 0 {
        assert(updates_in(frames_of(m.frames, rows_of(events)), decode) =~= decodings(events));
    } else {
        let shorter = events.drop_last();
        let last = events.last();
        assert forall|i: int| 0 <= i < shorter.len() implies (#[trigger] shorter[i]) !is Launched by {
            assert(shorter[i] == events[i]);
        }
        lemma_output(m, shorter, decode);
        assert(events[events.len() - 1] !is Launched);
        assert forall|i: int| 0 <= i < events.len() implies !sets_baseline(
            #[trigger] events[i],
        ) by {
            if i < shorter.len() {
                assert(events[i] == shorter[i]);
            }
        }
        let before = monitor_run(m, shorter);
        let old_frames = frames_of(m.frames, rows_of(shorter));
        let new_frames = frames_of(m.frames, rows_of(events));
        if let MonitorEvent::Line { text } = last {
            assert(rows_of(events).drop_last() =~= rows_of(shorter));
            match completed(before.frames, text@) {
                Some(update) => {
                    assert(new_frames == old_frames.push(update));
                    assert(new_frames.drop_last() =~= old_frames);
                    let old_updates = updates_in(old_frames, decode);
                    let new_updates = updates_in(new_frames, decode);
                    match update_in(update, decode) {
                        Some(found) => {
                            assert(new_updates =~= old_updates + seq![found]);
                            assert(old_updates + seq![found] =~= old_updates.push(found));
                        },
                        None => {
                            assert(new_updates =~= old_updates);
                        },
                    }
                },
                None => {
                    assert(new_frames == old_frames);
                },
            }
        }
    }
}

/// What was decoded is taken one by one, in order: each object counts, and what is
/// no description of one is passed over.
pub proof fn decoded_objects_are_taken_one_by_one(
    a: Seq<Option<PwDumpObject>>,
    b: Seq<Option<PwDumpObject>>,
    object: PwDumpObject,
)
    ensures
        decoded(a + b) == decoded(a) + decoded(b),
        decoded(seq![Some(object)]) == seq![object],
        decoded(seq![None]) == Seq::<PwDumpObject>::empty(),
    decreases b.len(),
{
    let f = |result: Option<PwDumpObject>| result;
    Seq::lemma_filter_map_singleton(Some(object), f);
    Seq::lemma_filter_map_singleton(None::<PwDumpObject>, f);
    if b.len() == 0 {
        assert(a + b =~= a);
        assert(decoded(a) + decoded(b) =~= decoded(a));
    } else {
        assert((a + b).drop_last() =~= a + b.drop_last());
        decoded_objects_are_taken_one_by_one(a, b.drop_last(), object);
        assert(decoded(a + b) =~= decoded(a) + decoded(b));
    }
}

/// The monitor starts from the present graph: every node on which it shows a
/// screen share is known, none is active, and `pw-dump --monitor` is started. A
/// graph that holds other values is taken by its objects, and one that is no array
/// counts as empty.
pub proof fn monitor_starts_from_the_present_graph(
    m: MonitorModel,
    graph: Vec<PwDumpObject>,
    results: Vec<Option<PwDumpObject>>,
    stdout: Vec<u8>,
)
    ensures
        ({
            let read = MonitorEvent::BaselineRead { objects: graph };
            let taken = MonitorEvent::BaselineDecoded { objects: results };
            let printed = MonitorEvent::BaselinePrinted { stdout };
            &&& monitor_action(m, read) is Launch
            &&& monitor_next(m, read).tracker.known == share_ids(graph@)
            &&& monitor_next(m, read).tracker.active == Set::<u32>::empty()
            &&& monitor_action(m, taken) is Launch
            &&& monitor_next(m, taken).tracker.known == share_ids(decoded(results@))
            &&& monitor_next(m, taken).tracker.active == Set::<u32>::empty()
            &&& monitor_next(m, printed) == m
            &&& json_array_in(stdout@) matches Some(values) ==> monitor_action(m, printed) == (
            ActionModel::DecodeBaseline { values: objects(values) })
            &&& json_array_in(stdout@) is None ==> monitor_action(m, printed) is Launch
        }),
{
}

/// An update that is complete has all its objects decoded, and what they bring is
/// announced, whatever it is. Then the next line is read.
pub proof fn complete_updates_are_decoded(
    m: MonitorModel,
    text: String,
    results: Vec<Option<PwDumpObject>>,
)
    ensures
        ({
            let line = MonitorEvent::Line { text };
            let taken = MonitorEvent::Decoded { objects: results };
            &&& monitor_next(m, line).tracker == m.tracker
            &&& match completed(m.frames, text@) {
                Some(update) => match json_array(update) {
                    Some(values) => monitor_action(m, line) == (ActionModel::Decode {
                        values: objects(values),
                    }),
                    None => monitor_action(m, line) is ReadLine,
                },
                None => monitor_action(m, line) is ReadLine,
            }
            &&& monitor_action(m, taken) == (ActionModel::Announce {
                events: update_events(m.tracker, decoded(results@)),
            })
            &&& monitor_next(m, taken).tracker == updated(m.tracker, decoded(results@))
            &&& monitor_next(m, taken).frames == m.frames
            &&& monitor_action(m, MonitorEvent::Announced) is ReadLine
            &&& monitor_next(m, MonitorEvent::Announced) == m
        }),
{
}

} // verus!
