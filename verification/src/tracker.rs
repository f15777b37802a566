//! Telling the start and the end of screen shares from the objects of the
//! PipeWire graph.

use crate::text::{chars_of, contains, holds, opt_text};
use std::collections::HashSet;
use vstd::prelude::*;

verus! {

broadcast use vstd::std_specs::hash::group_hash_axioms;

/// An event of a screen share.
#[derive(Debug, Clone)]
pub enum ScreenShareEvent {
    /// A screen share has started.
    Started {
        /// The name of the application that started it, if it is known.
        app_name: Option<String>,
        /// The PipeWire node.
        node_id: u32,
    },
    /// A screen share has ended.
    Stopped {
        /// The PipeWire node that is gone.
        node_id: u32,
    },
}

/// A [`ScreenShareEvent`] as a mathematical value.
#[verifier::ext_equal]
pub ghost enum EventModel {
    Started { app_name: Option<Seq<char>>, node_id: u32 },
    Stopped { node_id: u32 },
}

impl View for ScreenShareEvent {
    type V = EventModel;

    open spec fn view(&self) -> EventModel {
        match *self {
            ScreenShareEvent::Started { app_name, node_id } => EventModel::Started {
                app_name: opt_text(app_name),
                node_id,
            },
            ScreenShareEvent::Stopped { node_id } => EventModel::Stopped { node_id },
        }
    }
}

/// The values of some events.
pub open spec fn event_models(events: Seq<ScreenShareEvent>) -> Seq<EventModel> {
    events.map_values(|event: ScreenShareEvent| event@)
}

/// An object of the PipeWire graph. Where it has no information, it is gone.
#[derive(Debug)]
pub struct PwDumpObject {
    pub id: u32,
    pub info: Option<PwDumpInfo>,
}

/// The information on an object.
#[derive(Debug)]
pub struct PwDumpInfo {
    pub props: Option<PwDumpProps>,
}

/// The properties of an object that tell a screen share.
#[derive(Debug)]
pub struct PwDumpProps {
    pub media_class: Option<String>,
    pub node_name: Option<String>,
    pub application_name: Option<String>,
}

/// The properties of an object, if it has any.
pub open spec fn props_of(object: PwDumpObject) -> Option<PwDumpProps> {
    match object.info {
        Some(info) => info.props,
        None => None,
    }
}

/// The media classes of a screen share: its consumer and its source.
pub open spec fn is_share_class(class: Seq<char>) -> bool {
    class == "Stream/Input/Video"@ || class == "Stream/Output/Video"@
}

/// The nodes that are always there and have nothing to do with a screen share.
pub open spec fn is_system_node(name: Seq<char>) -> bool {
    ||| contains(name, "kwin_wayland"@)
    ||| contains(name, "plasmashell"@)
    ||| contains(name, "xdg-desktop-portal-kde"@)
    ||| contains(name, "xdg-desktop-portal"@)
}

/// Whether an object is the node of a screen share.
pub open spec fn is_share(object: PwDumpObject) -> bool {
    match props_of(object) {
        Some(props) => {
            &&& props.media_class matches Some(class) && is_share_class(class@)
            &&& !is_system_node(
                match props.node_name {
                    Some(name) => name@,
                    None => Seq::empty(),
                },
            )
        },
        None => false,
    }
}

/// The name under which a screen share is announced.
pub open spec fn share_name(object: PwDumpObject) -> Option<Seq<char>> {
    match props_of(object) {
        Some(props) => match props.application_name {
            Some(name) => Some(name@),
            None => opt_text(props.node_name),
        },
        None => None,
    }
}

/// The nodes of screen shares among some objects.
pub open spec fn share_ids(objects: Seq<PwDumpObject>) -> Set<u32>
    decreases objects.len(),
{
    if objects.len() == 0 {
        Set::empty()
    } else if is_share(objects.last()) {
        share_ids(objects.drop_last()).insert(objects.last().id)
    } else {
        share_ids(objects.drop_last())
    }
}

/// Which nodes are known, and which of them were announced.
#[verifier::ext_equal]
pub ghost struct TrackerModel {
    /// All known nodes of screen shares: those from before, and those that were
    /// announced.
    pub known: Set<u32>,
    /// The nodes whose start was announced and whose end was not.
    pub active: Set<u32>,
}

/// The node that an object shows to be gone, if it was announced.
pub open spec fn gone(active: Set<u32>, object: PwDumpObject) -> Option<u32> {
    if object.info is None && active.contains(object.id) {
        Some(object.id)
    } else {
        None
    }
}

/// The announced nodes that some objects show to be gone.
pub open spec fn gone_ids(active: Set<u32>, objects: Seq<PwDumpObject>) -> Seq<u32> {
    objects.filter_map(|object: PwDumpObject| gone(active, object))
}

/// The tracker after some announced nodes are gone.
pub open spec fn without(m: TrackerModel, ids: Seq<u32>) -> TrackerModel
    decreases ids.len(),
{
    if ids.len() == 0 {
        m
    } else {
        let rest = without(m, ids.drop_last());
        TrackerModel {
            known: rest.known.remove(ids.last()),
            active: rest.active.remove(ids.last()),
        }
    }
}

/// The tracker after the nodes of new screen shares.
pub open spec fn with_new(m: TrackerModel, objects: Seq<PwDumpObject>) -> TrackerModel
    decreases objects.len(),
{
    if objects.len() == 0 {
        m
    } else {
        let rest = with_new(m, objects.drop_last());
        let object = objects.last();
        if is_share(object) && !rest.known.contains(object.id) {
            TrackerModel {
                known: rest.known.insert(object.id),
                active: rest.active.insert(object.id),
            }
        } else {
            rest
        }
    }
}

/// The starts that some objects show: those of nodes that are not known yet.
pub open spec fn starts(m: TrackerModel, objects: Seq<PwDumpObject>) -> Seq<EventModel>
    decreases objects.len(),
{
    if objects.len() == 0 {
        seq![]
    } else {
        let earlier = starts(m, objects.drop_last());
        let object = objects.last();
        if is_share(object) && !with_new(m, objects.drop_last()).known.contains(object.id) {
            earlier.push(EventModel::Started { app_name: share_name(object), node_id: object.id })
        } else {
            earlier
        }
    }
}

/// The ends of some announced nodes.
pub open spec fn stops(ids: Seq<u32>) -> Seq<EventModel> {
    ids.map_values(|id: u32| EventModel::Stopped { node_id: id })
}

/// The tracker after an update of the graph.
pub open spec fn updated(m: TrackerModel, objects: Seq<PwDumpObject>) -> TrackerModel {
    with_new(without(m, gone_ids(m.active, objects)), objects)
}

/// The events that an update of the graph brings: first the ends, in the order
/// of the objects, then the starts.
pub open spec fn update_events(m: TrackerModel, objects: Seq<PwDumpObject>) -> Seq<EventModel> {
    stops(gone_ids(m.active, objects)) + starts(without(m, gone_ids(m.active, objects)), objects)
}

/// See [`is_share_class`].
fn share_class(class: &String) -> (r: bool)
    ensures
        r == is_share_class(class@),
{
    *class == "Stream/Input/Video".to_owned() || *class == "Stream/Output/Video".to_owned()
}

/// See [`is_system_node`].
fn system_node(name: &str) -> (r: bool)
    ensures
        r == is_system_node(name@),
{
    let chars = chars_of(name);
    let name = chars.as_slice();
    holds(name, "kwin_wayland") || holds(name, "plasmashell") || holds(
        name,
        "xdg-desktop-portal-kde",
    ) || holds(name, "xdg-desktop-portal")
}

impl PwDumpObject {
    /// See [`is_share`].
    pub fn shows_share(&self) -> (r: bool)
        ensures
            r == is_share(*self),
    {
        match &self.info {
            Some(info) => match &info.props {
                Some(props) => match &props.media_class {
                    Some(class) => {
                        let system = match &props.node_name {
                            Some(name) => system_node(name.as_str()),
                            None => system_node(String::new().as_str()),
                        };
                        share_class(class) && !system
                    },
                    None => false,
                },
                None => false,
            },
            None => false,
        }
    }

    /// See [`share_name`].
    pub fn announced_name(&self) -> (r: Option<String>)
        ensures
            opt_text(r) == share_name(*self),
    {
        match &self.info {
            Some(info) => match &info.props {
                Some(props) => match &props.application_name {
                    Some(name) => Some(name.clone()),
                    None => match &props.node_name {
                        Some(name) => Some(name.clone()),
                        None => None,
                    },
                },
                None => None,
            },
            None => None,
        }
    }
}

/// The nodes of the screen shares that run already.
pub fn get_current_screencast_nodes(objects: &Vec<PwDumpObject>) -> (r: HashSet<u32>)
    ensures
        r@ == share_ids(objects@),
{
    let mut ids: HashSet<u32> = HashSet::new();
    for i in 0..objects.len()
        invariant
            ids@ == share_ids(objects@.take(i as int)),
    {
        assert(objects@.take(i + 1).drop_last() =~= objects@.take(i as int));
        if objects[i].shows_share() {
            ids.insert(objects[i].id);
        }
    }
    assert(objects@.take(objects@.len() as int) =~= objects@);
    ids
}

/// The nodes of screen shares that are known.
#[derive(Debug)]
pub struct ShareTracker {
    known_ids: HashSet<u32>,
    active_session_ids: HashSet<u32>,
}

impl View for ShareTracker {
    type V = TrackerModel;

    closed spec fn view(&self) -> TrackerModel {
        TrackerModel { known: self.known_ids@, active: self.active_session_ids@ }
    }
}

impl ShareTracker {
    /// A tracker to which the given nodes are known from before.
    pub fn new(baseline: HashSet<u32>) -> (r: ShareTracker)
        ensures
            r@ == (TrackerModel { known: baseline@, active: Set::empty() }),
    {
        ShareTracker { known_ids: baseline, active_session_ids: HashSet::new() }
    }

    /// The announced nodes that the objects show to be gone.
    fn find_gone(&self, objects: &Vec<PwDumpObject>) -> (r: Vec<u32>)
        ensures
            r@ == gone_ids(self@.active, objects@),
    {
        let mut ids: Vec<u32> = Vec::new();
        assert(gone_ids(self@.active, objects@.take(0)) =~= Seq::<u32>::empty());
        for i in 0..objects.len()
            invariant
                ids@ == gone_ids(self@.active, objects@.take(i as int)),
        {
            let ghost f = |object: PwDumpObject| gone(self@.active, object);
            proof {
                objects@.lemma_filter_map_take_succ(f, i as int);
            }
            if objects[i].info.is_none() && self.active_session_ids.contains(&objects[i].id) {
                ids.push(objects[i].id);
            }
        }
        assert(objects@.take(objects@.len() as int) =~= objects@);
        ids
    }

    /// Takes an update of the graph, and gives the events that it brings.
    pub fn update(&mut self, objects: &Vec<PwDumpObject>) -> (r: Vec<ScreenShareEvent>)
        ensures
            final(self)@ == updated(old(self)@, objects@),
            event_models(r@) == update_events(old(self)@, objects@),
    {
        let ghost start = self@;
        let ids = self.find_gone(objects);
        let mut events: Vec<ScreenShareEvent> = Vec::new();
        assert(stops(ids@.take(0)) =~= event_models(events@));
        for i in 0..ids.len()
            invariant
                self@ == without(start, ids@.take(i as int)),
                event_models(events@) == stops(ids@.take(i as int)),
        {
            let node_id = ids[i];
            assert(ids@.take(i + 1).drop_last() =~= ids@.take(i as int));
            self.known_ids.remove(&node_id);
            self.active_session_ids.remove(&node_id);
            let ghost old_events = events@;
            events.push(ScreenShareEvent::Stopped { node_id });
            assert(event_models(events@) =~= event_models(old_events).push(
                EventModel::Stopped { node_id },
            ));
            assert(stops(ids@.take(i + 1)) =~= stops(ids@.take(i as int)).push(
                EventModel::Stopped { node_id },
            ));
        }
        assert(ids@.take(ids@.len() as int) =~= ids@);
        let ghost middle = self@;
        let ghost ended = stops(ids@);
        assert(ended + starts(middle, objects@.take(0)) =~= ended);
        for i in 0..objects.len()
            invariant
                self@ == with_new(middle, objects@.take(i as int)),
                event_models(events@) == ended + starts(middle, objects@.take(i as int)),
        {
            assert(objects@.take(i + 1).drop_last() =~= objects@.take(i as int));
            let object = &objects[i];
            if object.shows_share() && !self.known_ids.contains(&object.id) {
                let app_name = object.announced_name();
                self.known_ids.insert(object.id);
                self.active_session_ids.insert(object.id);
                let ghost old_events = events@;
                events.push(ScreenShareEvent::Started { app_name, node_id: object.id });
                assert(event_models(events@) =~= event_models(old_events).push(
                    EventModel::Started { app_name: share_name(*object), node_id: object.id },
                ));
            }
            assert(event_models(events@) =~= ended + starts(middle, objects@.take(i + 1)));
        }
        assert(objects@.take(objects@.len() as int) =~= objects@);
        events
    }
}

// ---------------------------------------------------------------------------
// Laws
// ---------------------------------------------------------------------------

/// Whether some objects show a screen share on a node.
pub open spec fn shows(objects: Seq<PwDumpObject>, id: u32) -> bool {
    exists|j: int| 0 <= j < objects.len() && is_share(#[trigger] objects[j]) && objects[j].id == id
}

/// Whether some objects show a node to be gone.
pub open spec fn vanishes(objects: Seq<PwDumpObject>, id: u32) -> bool {
    exists|j: int| 0 <= j < objects.len() && (#[trigger] objects[j]).info is None && objects[j].id == id
}

/// Whether an event announces the start of a screen share on a node.
pub open spec fn is_start(event: EventModel, id: u32) -> bool {
    event matches EventModel::Started { node_id, .. } && node_id == id
}

/// Whether an event announces the end of the screen share on a node.
pub open spec fn is_stop(event: EventModel, id: u32) -> bool {
    event == (EventModel::Stopped { node_id: id })
}

/// Whether some events announce a start on a node.
pub open spec fn announces_start(events: Seq<EventModel>, id: u32) -> bool {
    exists|i: int| 0 <= i < events.len() && is_start(#[trigger] events[i], id)
}

/// Whether some events announce an end on a node.
pub open spec fn announces_stop(events: Seq<EventModel>, id: u32) -> bool {
    exists|i: int| 0 <= i < events.len() && is_stop(#[trigger] events[i], id)
}

proof fn lemma_without(m: TrackerModel, ids: Seq<u32>, id: u32)
    ensures
        without(m, ids).known.contains(id) <==> m.known.contains(id) && !ids.contains(id),
        without(m, ids).active.contains(id) <==> m.active.contains(id) && !ids.contains(id),
    decreases ids.len(),
{
    if ids.len() > 0 {
        lemma_without(m, ids.drop_last(), id);
        assert(ids.contains(id) <==> ids.drop_last().contains(id) || ids.last() == id) by {
            if ids.contains(id) {
                let k = choose|k: int| 0 <= k < ids.len() && ids[k] == id;
                if k < ids.len() - 1 {
                    assert(ids.drop_last()[k] == id);
                }
            }
            if ids.drop_last().contains(id) {
                let k = choose|k: int| 0 <= k < ids.len() - 1 && ids.drop_last()[k] == id;
                assert(ids[k] == id);
            }
        }
    }
}

proof fn lemma_shows(objects: Seq<PwDumpObject>, id: u32)
    requires
        objects.len() > 0,
    ensures
        shows(objects, id) <==> shows(objects.drop_last(), id) || (is_share(objects.last())
            && objects.last().id == id),
{
    let shorter = objects.drop_last();
    if shows(objects, id) {
        let j = choose|j: int|
            0 <= j < objects.len() && is_share(#[trigger] objects[j]) && objects[j].id == id;
        if j < shorter.len() {
            assert(shorter[j] == objects[j]);
        }
    }
    if shows(shorter, id) {
        let j = choose|j: int|
            0 <= j < shorter.len() && is_share(#[trigger] shorter[j]) && shorter[j].id == id;
        assert(objects[j] == shorter[j]);
    }
    if is_share(objects.last()) && objects.last().id == id {
        assert(is_share(objects[objects.len() - 1]));
    }
}

proof fn lemma_with_new(m: TrackerModel, objects: Seq<PwDumpObject>, id: u32)
    ensures
        with_new(m, objects).known.contains(id) <==> m.known.contains(id) || shows(objects, id),
        with_new(m, objects).active.contains(id) <==> m.active.contains(id) || (!m.known.contains(
            id,
        ) && shows(objects, id)),
    decreases objects.len(),
{
    if objects.len() > 0 {
        lemma_with_new(m, objects.drop_last(), id);
        lemma_shows(objects, id);
    }
}

proof fn lemma_starts(m: TrackerModel, objects: Seq<PwDumpObject>, id: u32)
    ensures
        announces_start(starts(m, objects), id) <==> !m.known.contains(id) && shows(objects, id),
        !announces_stop(starts(m, objects), id),
    decreases objects.len(),
{
    if objects.len() > 0 {
        let shorter = objects.drop_last();
        lemma_starts(m, shorter, id);
        lemma_shows(objects, id);
        lemma_with_new(m, shorter, id);
        let earlier = starts(m, shorter);
        let all = starts(m, objects);
        assert forall|i: int| 0 <= i < earlier.len() implies all[i] == earlier[i] by {}
        if announces_start(earlier, id) {
            let i = choose|i: int| 0 <= i < earlier.len() && is_start(#[trigger] earlier[i], id);
            assert(is_start(all[i], id));
        }
        if all.len() > earlier.len() && objects.last().id == id {
            assert(is_start(all[earlier.len() as int], id));
        }
        if announces_start(all, id) {
            let i = choose|i: int| 0 <= i < all.len() && is_start(#[trigger] all[i], id);
            if i < earlier.len() {
                assert(is_start(earlier[i], id));
            }
        }
        if announces_stop(all, id) {
            let i = choose|i: int| 0 <= i < all.len() && is_stop(#[trigger] all[i], id);
            if i < earlier.len() {
                assert(is_stop(earlier[i], id));
            }
        }
    }
}

proof fn lemma_stops(ids: Seq<u32>, id: u32)
    ensures
        announces_stop(stops(ids), id) <==> ids.contains(id),
        !announces_start(stops(ids), id),
{
    if ids.contains(id) {
        let k = choose|k: int| 0 <= k < ids.len() && ids[k] == id;
        assert(is_stop(stops(ids)[k], id));
    }
    if announces_stop(stops(ids), id) {
        let k = choose|k: int| 0 <= k < ids.len() && is_stop(#[trigger] stops(ids)[k], id);
        assert(ids[k] == id);
    }
}

proof fn lemma_gone(active: Set<u32>, objects: Seq<PwDumpObject>, id: u32)
    ensures
        gone_ids(active, objects).contains(id) <==> active.contains(id) && vanishes(objects, id),
    decreases objects.len(),
{
    if objects.len() > 0 {
        let shorter = objects.drop_last();
        let last = objects.last();
        lemma_gone(active, shorter, id);
        if vanishes(shorter, id) {
            let j = choose|j: int|
                0 <= j < shorter.len() && (#[trigger] shorter[j]).info is None && shorter[j].id
                    == id;
            assert(objects[j] == shorter[j]);
        }
        if vanishes(objects, id) {
            let j = choose|j: int|
                0 <= j < objects.len() && (#[trigger] objects[j]).info is None && objects[j].id
                    == id;
            if j < shorter.len() {
                assert(shorter[j] == objects[j]);
            }
        }
        let rest = gone_ids(active, shorter);
        let all = gone_ids(active, objects);
        match gone(active, last) {
            Some(x) => {
                assert(all == rest + seq![x]);
                assert(objects[objects.len() - 1].info is None);
                if rest.contains(id) {
                    let k = choose|k: int| 0 <= k < rest.len() && rest[k] == id;
                    assert(all[k] == id);
                }
                if x == id {
                    assert(all[rest.len() as int] == id);
                }
                if all.contains(id) {
                    let k = choose|k: int| 0 <= k < all.len() && all[k] == id;
                    if k < rest.len() {
                        assert(rest[k] == id);
                    }
                }
            },
            None => {
                assert(all == rest);
            },
        }
    }
}

proof fn lemma_update_events(m: TrackerModel, objects: Seq<PwDumpObject>, id: u32)
    ensures
        announces_stop(update_events(m, objects), id) <==> gone_ids(m.active, objects).contains(id),
        announces_start(update_events(m, objects), id) <==> !without(
            m,
            gone_ids(m.active, objects),
        ).known.contains(id) && shows(objects, id),
{
    let ids = gone_ids(m.active, objects);
    let middle = without(m, ids);
    let first = stops(ids);
    let second = starts(middle, objects);
    let all = update_events(m, objects);
    lemma_stops(ids, id);
    lemma_starts(middle, objects, id);
    assert forall|i: int| 0 <= i < first.len() implies all[i] == first[i] by {}
    assert forall|i: int| 0 <= i < second.len() implies all[first.len() + i] == second[i] by {}
    if announces_stop(first, id) {
        let i = choose|i: int| 0 <= i < first.len() && is_stop(#[trigger] first[i], id);
        assert(is_stop(all[i], id));
    }
    if announces_start(second, id) {
        let i = choose|i: int| 0 <= i < second.len() && is_start(#[trigger] second[i], id);
        assert(is_start(all[first.len() + i], id));
    }
    if announces_stop(all, id) {
        let i = choose|i: int| 0 <= i < all.len() && is_stop(#[trigger] all[i], id);
        if i < first.len() {
            assert(is_stop(first[i], id));
        } else {
            assert(is_stop(second[i - first.len()], id));
        }
    }
    if announces_start(all, id) {
        let i = choose|i: int| 0 <= i < all.len() && is_start(#[trigger] all[i], id);
        if i < first.len() {
            assert(is_start(first[i], id));
        } else {
            assert(is_start(second[i - first.len()], id));
        }
    }
}

/// An end is announced of exactly the nodes whose start was announced and which
/// the update shows to be gone.
pub proof fn only_announced_nodes_stop(m: TrackerModel, objects: Seq<PwDumpObject>, id: u32)
    ensures
        announces_stop(update_events(m, objects), id) <==> m.active.contains(id) && vanishes(
            objects,
            id,
        ),
{
    lemma_update_events(m, objects, id);
    lemma_gone(m.active, objects, id);
}

/// A start is announced of exactly the nodes on which the update shows a screen
/// share and which are not known, or of which the same update announces the end.
pub proof fn only_unknown_nodes_start(m: TrackerModel, objects: Seq<PwDumpObject>, id: u32)
    ensures
        announces_start(update_events(m, objects), id) <==> shows(objects, id)
            && (!m.known.contains(id) || announces_stop(update_events(m, objects), id)),
{
    lemma_update_events(m, objects, id);
    lemma_without(m, gone_ids(m.active, objects), id);
}

/// The active nodes are those of which the start was announced and the end was
/// not.
pub proof fn active_nodes_are_the_announced_ones(
    m: TrackerModel,
    objects: Seq<PwDumpObject>,
    id: u32,
)
    ensures
        updated(m, objects).active.contains(id) <==> announces_start(
            update_events(m, objects),
            id,
        ) || (m.active.contains(id) && !announces_stop(update_events(m, objects), id)),
{
    let ids = gone_ids(m.active, objects);
    lemma_update_events(m, objects, id);
    lemma_without(m, ids, id);
    lemma_with_new(without(m, ids), objects, id);
}

/// Every active node is known, whatever the updates are.
pub proof fn active_nodes_are_known(m: TrackerModel, objects: Seq<PwDumpObject>)
    requires
        m.active.subset_of(m.known),
    ensures
        updated(m, objects).active.subset_of(updated(m, objects).known),
{
    let ids = gone_ids(m.active, objects);
    assert forall|id: u32| updated(m, objects).active.contains(id) implies updated(
        m,
        objects,
    ).known.contains(id) by {
        lemma_without(m, ids, id);
        lemma_with_new(without(m, ids), objects, id);
    }
}

/// The tracker after some updates, one after the other.
pub open spec fn after_updates(m: TrackerModel, updates: Seq<Seq<PwDumpObject>>) -> TrackerModel
    decreases updates.len(),
{
    if updates.len() == 0 {
        m
    } else {
        updated(after_updates(m, updates.drop_last()), updates.last())
    }
}

/// The events that some updates bring, one after the other.
pub open spec fn all_events(m: TrackerModel, updates: Seq<Seq<PwDumpObject>>) -> Seq<EventModel>
    decreases updates.len(),
{
    if updates.len() == 0 {
        seq![]
    } else {
        all_events(m, updates.drop_last()) + update_events(
            after_updates(m, updates.drop_last()),
            updates.last(),
        )
    }
}

/// A node that is known from before is never announced, whatever the updates
/// are: neither a start nor an end.
pub proof fn baseline_is_never_announced(
    baseline: Set<u32>,
    updates: Seq<Seq<PwDumpObject>>,
    id: u32,
)
    requires
        baseline.contains(id),
    ensures
        !announces_start(
            all_events(TrackerModel { known: baseline, active: Set::empty() }, updates),
            id,
        ),
        !announces_stop(
            all_events(TrackerModel { known: baseline, active: Set::empty() }, updates),
            id,
        ),
        after_updates(
            TrackerModel { known: baseline, active: Set::empty() },
            updates,
        ).known.contains(id),
        !after_updates(
            TrackerModel { known: baseline, active: Set::empty() },
            updates,
        ).active.contains(id),
    decreases updates.len(),
{
    let m = TrackerModel { known: baseline, active: Set::empty() };
    if updates.len() > 0 {
        let shorter = updates.drop_last();
        let objects = updates.last();
        baseline_is_never_announced(baseline, shorter, id);
        let before = after_updates(m, shorter);
        let ids = gone_ids(before.active, objects);
        lemma_update_events(before, objects, id);
        lemma_gone(before.active, objects, id);
        lemma_without(before, ids, id);
        lemma_with_new(without(before, ids), objects, id);
        let first = all_events(m, shorter);
        let second = update_events(before, objects);
        let all = all_events(m, updates);
        if announces_start(all, id) {
            let i = choose|i: int| 0 <= i < all.len() && is_start(#[trigger] all[i], id);
            if i < first.len() {
                assert(is_start(first[i], id));
            } else {
                assert(is_start(second[i - first.len()], id));
            }
        }
        if announces_stop(all, id) {
            let i = choose|i: int| 0 <= i < all.len() && is_stop(#[trigger] all[i], id);
            if i < first.len() {
                assert(is_stop(first[i], id));
            } else {
                assert(is_stop(second[i - first.len()], id));
            }
        }
    }
}

/// No end is announced without a start before it, whatever the updates are: each
/// node whose end an update brings was announced by an earlier one.
pub proof fn no_end_without_a_start(
    baseline: Set<u32>,
    updates: Seq<Seq<PwDumpObject>>,
    objects: Seq<PwDumpObject>,
    id: u32,
)
    requires
        announces_stop(
            update_events(
                after_updates(TrackerModel { known: baseline, active: Set::empty() }, updates),
                objects,
            ),
            id,
        ),
    ensures
        announces_start(
            all_events(TrackerModel { known: baseline, active: Set::empty() }, updates),
            id,
        ),
{
    let m = TrackerModel { known: baseline, active: Set::empty() };
    only_announced_nodes_stop(after_updates(m, updates), objects, id);
    lemma_active_was_announced(m, updates, id);
}

proof fn lemma_active_was_announced(m: TrackerModel, updates: Seq<Seq<PwDumpObject>>, id: u32)
    requires
        !m.active.contains(id),
        after_updates(m, updates).active.contains(id),
    ensures
        announces_start(all_events(m, updates), id),
    decreases updates.len(),
{
    if updates.len() > 0 {
        let shorter = updates.drop_last();
        let before = after_updates(m, shorter);
        let first = all_events(m, shorter);
        let second = update_events(before, updates.last());
        let all = all_events(m, updates);
        active_nodes_are_the_announced_ones(before, updates.last(), id);
        if announces_start(second, id) {
            let i = choose|i: int| 0 <= i < second.len() && is_start(#[trigger] second[i], id);
            assert(all[first.len() + i] == second[i]);
            assert(is_start(all[first.len() + i], id));
        } else {
            lemma_active_was_announced(m, shorter, id);
            let i = choose|i: int| 0 <= i < first.len() && is_start(#[trigger] first[i], id);
            assert(all[i] == first[i]);
            assert(is_start(all[i], id));
        }
    }
}

/// Whether no two of some objects have the same id.
pub open spec fn distinct_ids(objects: Seq<PwDumpObject>) -> bool {
    forall|i: int, j: int|
        0 <= i < j < objects.len() ==> (#[trigger] objects[i]).id != (#[trigger] objects[j]).id
}

/// The events on a node among some events.
pub open spec fn node_events(events: Seq<EventModel>, id: u32) -> Seq<EventModel> {
    events.filter(|event: EventModel| is_start(event, id) || is_stop(event, id))
}

/// Whether some events are a start, an end, a start and so on, all on one node.
pub open spec fn alternate(events: Seq<EventModel>, id: u32) -> bool {
    forall|i: int|
        0 <= i < events.len() ==> if i % 2 == 0 {
            is_start(#[trigger] events[i], id)
        } else {
            is_stop(events[i], id)
        }
}

/// The events on a node alternate, beginning with a start, over all updates in
/// which no id is repeated. The node is active exactly where the last of them was
/// a start. A node that is known from before has none.
pub proof fn events_of_a_node_alternate(
    baseline: Set<u32>,
    updates: Seq<Seq<PwDumpObject>>,
    id: u32,
)
    requires
        forall|i: int| 0 <= i < updates.len() ==> distinct_ids(#[trigger] updates[i]),
    ensures
        ({
            let start = TrackerModel { known: baseline, active: Set::empty() };
            let events = node_events(all_events(start, updates), id);
            &&& alternate(events, id)
            &&& after_updates(start, updates).active.contains(id) <==> events.len() % 2 == 1
            &&& baseline.contains(id) ==> events.len() == 0
        }),
{
    let start = TrackerModel { known: baseline, active: Set::empty() };
    if baseline.contains(id) {
        baseline_is_never_announced(baseline, updates, id);
        lemma_no_node_events(all_events(start, updates), id);
    } else {
        lemma_alternate(start, updates, id);
    }
}

/// Where neither a start nor an end on a node is announced, there is no event on
/// it.
proof fn lemma_no_node_events(events: Seq<EventModel>, id: u32)
    requires
        !announces_start(events, id),
        !announces_stop(events, id),
    ensures
        node_events(events, id) == Seq::<EventModel>::empty(),
    decreases events.len(),
{
    reveal(Seq::filter);
    if events.len() > 0 {
        let shorter = events.drop_last();
        if announces_start(shorter, id) {
            let i = choose|i: int| 0 <= i < shorter.len() && is_start(#[trigger] shorter[i], id);
            assert(is_start(events[i], id));
        }
        if announces_stop(shorter, id) {
            let i = choose|i: int| 0 <= i < shorter.len() && is_stop(#[trigger] shorter[i], id);
            assert(is_stop(events[i], id));
        }
        lemma_no_node_events(shorter, id);
        assert(!is_start(events[events.len() - 1], id));
        assert(!is_stop(events[events.len() - 1], id));
    }
}

proof fn lemma_alternate(m: TrackerModel, updates: Seq<Seq<PwDumpObject>>, id: u32)
    requires
        !m.known.contains(id),
        !m.active.contains(id),
        forall|i: int| 0 <= i < updates.len() ==> distinct_ids(#[trigger] updates[i]),
    ensures
        ({
            let after = after_updates(m, updates);
            let events = node_events(all_events(m, updates), id);
            &&& alternate(events, id)
            &&& after.active.contains(id) <==> events.len() % 2 == 1
            &&& after.known.contains(id) <==> after.active.contains(id)
        }),
    decreases updates.len(),
{
    if updates.len() == 0 {
        lemma_no_node_events(all_events(m, updates), id);
    } else {
        let shorter = updates.drop_last();
        let objects = updates.last();
        assert forall|i: int| 0 <= i < shorter.len() implies distinct_ids(#[trigger] shorter[i]) by {
            assert(shorter[i] == updates[i]);
        }
        lemma_alternate(m, shorter, id);
        assert(distinct_ids(updates[updates.len() - 1]));
        let before = after_updates(m, shorter);
        let first = all_events(m, shorter);
        let second = update_events(before, objects);
        let pred = |event: EventModel| is_start(event, id) || is_stop(event, id);
        Seq::filter_distributes_over_add(first, second, pred);
        lemma_update_alternates(before, objects, id);
        let old_events = node_events(first, id);
        let new_events = node_events(second, id);
        let all = node_events(all_events(m, updates), id);
        assert(all == old_events + new_events);
        assert forall|i: int| 0 <= i < all.len() implies if i % 2 == 0 {
            is_start(#[trigger] all[i], id)
        } else {
            is_stop(all[i], id)
        } by {
            if i < old_events.len() {
                assert(all[i] == old_events[i]);
            } else {
                assert(all[i] == new_events[i - old_events.len()]);
            }
        }
    }
}

/// What one update without repeated ids brings on a node that is known only while
/// it is active: an end where it is active, else a start, or nothing.
proof fn lemma_update_alternates(m: TrackerModel, objects: Seq<PwDumpObject>, id: u32)
    requires
        distinct_ids(objects),
        m.known.contains(id) <==> m.active.contains(id),
    ensures
        ({
            let events = node_events(update_events(m, objects), id);
            let after = updated(m, objects);
            &&& events.len() <= 1
            &&& events.len() == 1 ==> if m.active.contains(id) {
                is_stop(events[0], id)
            } else {
                is_start(events[0], id)
            }
            &&& after.active.contains(id) <==> (m.active.contains(id) <==> events.len() == 0)
            &&& after.known.contains(id) <==> after.active.contains(id)
        }),
{
    let ids = gone_ids(m.active, objects);
    let middle = without(m, ids);
    let pred = |event: EventModel| is_start(event, id) || is_stop(event, id);
    Seq::filter_distributes_over_add(stops(ids), starts(middle, objects), pred);
    lemma_stops_once(m.active, objects, id);
    lemma_starts_once(middle, objects, id);
    lemma_gone(m.active, objects, id);
    lemma_without(m, ids, id);
    lemma_with_new(middle, objects, id);
    if vanishes(objects, id) && shows(objects, id) {
        let i = choose|i: int|
            0 <= i < objects.len() && (#[trigger] objects[i]).info is None && objects[i].id == id;
        let j = choose|j: int|
            0 <= j < objects.len() && is_share(#[trigger] objects[j]) && objects[j].id == id;
        assert(i != j);
        assert(false);
    }
    let first = node_events(stops(ids), id);
    let second = node_events(starts(middle, objects), id);
    assert(node_events(update_events(m, objects), id) == first + second);
}

/// Objects without repeated ids bring at most one end on a node.
proof fn lemma_stops_once(active: Set<u32>, objects: Seq<PwDumpObject>, id: u32)
    requires
        distinct_ids(objects),
    ensures
        ({
            let events = node_events(stops(gone_ids(active, objects)), id);
            &&& events.len() == if active.contains(id) && vanishes(objects, id) {
                1int
            } else {
                0
            }
            &&& events.len() == 1 ==> is_stop(events[0], id)
        }),
    decreases objects.len(),
{
    let ids = gone_ids(active, objects);
    if objects.len() == 0 {
        assert(stops(ids) =~= Seq::<EventModel>::empty());
        lemma_no_node_events(stops(ids), id);
    } else {
        let shorter = objects.drop_last();
        let last = objects.last();
        let rest = gone_ids(active, shorter);
        lemma_stops_once(active, shorter, id);
        lemma_gone(active, shorter, id);
        lemma_gone(active, objects, id);
        if vanishes(shorter, id) {
            let j = choose|j: int|
                0 <= j < shorter.len() && (#[trigger] shorter[j]).info is None && shorter[j].id
                    == id;
            assert(objects[j] == shorter[j]);
            assert(objects[objects.len() - 1].id != objects[j].id);
        }
        if vanishes(objects, id) {
            let j = choose|j: int|
                0 <= j < objects.len() && (#[trigger] objects[j]).info is None && objects[j].id
                    == id;
            if j < shorter.len() {
                assert(shorter[j] == objects[j]);
            }
        }
        let pred = |event: EventModel| is_start(event, id) || is_stop(event, id);
        match gone(active, last) {
            Some(x) => {
                assert(ids == rest + seq![x]);
                let event = EventModel::Stopped { node_id: x };
                assert(stops(ids) =~= stops(rest).push(event));
                stops(rest).lemma_filter_push(event, pred);
                if x == id {
                    assert(objects[objects.len() - 1].id == id);
                }
            },
            None => {
                assert(ids == rest);
            },
        }
    }
}

/// Objects bring at most one start on a node.
proof fn lemma_starts_once(m: TrackerModel, objects: Seq<PwDumpObject>, id: u32)
    ensures
        ({
            let events = node_events(starts(m, objects), id);
            &&& events.len() == if !m.known.contains(id) && shows(objects, id) {
                1int
            } else {
                0
            }
            &&& events.len() == 1 ==> is_start(events[0], id)
        }),
    decreases objects.len(),
{
    if objects.len() == 0 {
        lemma_no_node_events(starts(m, objects), id);
    } else {
        let shorter = objects.drop_last();
        let object = objects.last();
        lemma_starts_once(m, shorter, id);
        lemma_shows(objects, id);
        lemma_with_new(m, shorter, id);
        let earlier = starts(m, shorter);
        let pred = |event: EventModel| is_start(event, id) || is_stop(event, id);
        earlier.lemma_filter_push(
            EventModel::Started { app_name: share_name(object), node_id: object.id },
            pred,
        );
    }
}

/// An object is the node of a screen share exactly where its media class is one of
/// the two of a screen share and its node name, if it has one, holds none of the
/// names of the system. Nothing else counts.
pub proof fn share_is_told_by_class_and_node_name(object: PwDumpObject)
    ensures
        is_share(object) <==> {
            &&& object.info is Some
            &&& object.info->0.props is Some
            &&& object.info->0.props->0.media_class is Some
            &&& {
                ||| object.info->0.props->0.media_class->0@ == "Stream/Input/Video"@
                ||| object.info->0.props->0.media_class->0@ == "Stream/Output/Video"@
            }
            &&& object.info->0.props->0.node_name matches Some(name) ==> {
                &&& !contains(name@, "kwin_wayland"@)
                &&& !contains(name@, "plasmashell"@)
                &&& !contains(name@, "xdg-desktop-portal-kde"@)
                &&& !contains(name@, "xdg-desktop-portal"@)
            }
        },
{
    reveal_strlit("kwin_wayland");
    reveal_strlit("plasmashell");
    reveal_strlit("xdg-desktop-portal-kde");
    reveal_strlit("xdg-desktop-portal");
    assert forall|part: Seq<char>| part.len() > 0 implies !#[trigger] contains(
        Seq::<char>::empty(),
        part,
    ) by {}
}

/// Whether an object is the node of a screen share does not depend on its id nor
/// on the name of its application.
pub proof fn share_needs_no_application_name(
    object: PwDumpObject,
    id: u32,
    application_name: Option<String>,
)
    requires
        props_of(object) is Some,
    ensures
        is_share(object) == is_share(
            PwDumpObject {
                id,
                info: Some(
                    PwDumpInfo {
                        props: Some(PwDumpProps { application_name, ..props_of(object)->0 }),
                    },
                ),
            },
        ),
{
}

/// The name under which a share is announced is that of its application, and that
/// of its node only where the application has none.
pub proof fn share_has_the_name_of_its_application_or_node(object: PwDumpObject)
    requires
        object.info is Some,
        object.info->0.props is Some,
    ensures
        ({
            let props = object.info->0.props->0;
            &&& props.application_name matches Some(name) ==> share_name(object) == Some(name@)
            &&& props.application_name is None ==> match props.node_name {
                Some(name) => share_name(object) == Some(name@),
                None => share_name(object) is None,
            }
        }),
{
}

/// A single object that shows a screen share on a node that is not known is
/// announced, whatever else is known, under its name.
pub proof fn single_share_is_announced(m: TrackerModel, object: PwDumpObject)
    requires
        is_share(object),
        !m.known.contains(object.id),
    ensures
        update_events(m, seq![object]) == seq![
            EventModel::Started { app_name: share_name(object), node_id: object.id },
        ],
        updated(m, seq![object]).known == m.known.insert(object.id),
        updated(m, seq![object]).active == m.active.insert(object.id),
{
    let objects = seq![object];
    lemma_single(m.active, object);
    let rest = without(m, gone_ids(m.active, objects));
    assert(rest == m);
    assert(objects.drop_last() =~= Seq::<PwDumpObject>::empty());
    assert(starts(m, objects.drop_last()) =~= Seq::<EventModel>::empty());
    assert(with_new(m, objects.drop_last()) == m);
    assert(stops(gone_ids(m.active, objects)) =~= Seq::<EventModel>::empty());
    assert(update_events(m, objects) =~= seq![
        EventModel::Started { app_name: share_name(object), node_id: object.id },
    ]);
}

/// A single object that is there shows no node to be gone.
proof fn lemma_single(active: Set<u32>, object: PwDumpObject)
    requires
        object.info is Some,
    ensures
        gone_ids(active, seq![object]) == Seq::<u32>::empty(),
{
    let f = |object: PwDumpObject| gone(active, object);
    Seq::lemma_filter_map_singleton(object, f);
}

/// Every start that is announced is that of an object of the update which shows a
/// screen share, under the name and the id of that object.
pub proof fn starts_carry_the_names_of_their_objects(
    m: TrackerModel,
    objects: Seq<PwDumpObject>,
    k: int,
)
    requires
        0 <= k < update_events(m, objects).len(),
        update_events(m, objects)[k] is Started,
    ensures
        exists|j: int|
            0 <= j < objects.len() && is_share(#[trigger] objects[j]) && update_events(m, objects)[k]
                == (EventModel::Started {
                app_name: share_name(objects[j]),
                node_id: objects[j].id,
            }),
{
    let ids = gone_ids(m.active, objects);
    let first = stops(ids);
    let middle = without(m, ids);
    assert(k >= first.len());
    lemma_start_has_object(middle, objects, k - first.len());
    assert(update_events(m, objects)[k] == starts(middle, objects)[k - first.len()]);
}

proof fn lemma_start_has_object(m: TrackerModel, objects: Seq<PwDumpObject>, k: int)
    requires
        0 <= k < starts(m, objects).len(),
    ensures
        exists|j: int|
            0 <= j < objects.len() && is_share(#[trigger] objects[j]) && starts(m, objects)[k] == (
            EventModel::Started { app_name: share_name(objects[j]), node_id: objects[j].id }),
    decreases objects.len(),
{
    if objects.len() > 0 {
        let shorter = objects.drop_last();
        let earlier = starts(m, shorter);
        if k < earlier.len() {
            lemma_start_has_object(m, shorter, k);
            let j = choose|j: int|
                0 <= j < shorter.len() && is_share(#[trigger] shorter[j]) && earlier[k] == (
                EventModel::Started { app_name: share_name(shorter[j]), node_id: shorter[j].id });
            assert(objects[j] == shorter[j]);
        } else {
            assert(is_share(objects[objects.len() - 1]));
        }
    }
}

/// The baseline is made up of exactly the nodes on which the graph shows a screen
/// share.
pub proof fn baseline_is_what_the_graph_shows(objects: Seq<PwDumpObject>, id: u32)
    ensures
        share_ids(objects).contains(id) <==> exists|j: int|
            0 <= j < objects.len() && is_share(#[trigger] objects[j]) && objects[j].id == id,
    decreases objects.len(),
{
    if objects.len() > 0 {
        baseline_is_what_the_graph_shows(objects.drop_last(), id);
        lemma_shows(objects, id);
        assert(share_ids(objects.drop_last()).contains(id) <==> shows(objects.drop_last(), id));
        assert(share_ids(objects).contains(id) <==> shows(objects, id));
    }
}

/// What is known after an update: all that was known and did not end, and all
/// nodes on which the update shows a screen share.
pub proof fn update_keeps_what_is_known(m: TrackerModel, objects: Seq<PwDumpObject>, id: u32)
    ensures
        updated(m, objects).known.contains(id) <==> shows(objects, id) || (m.known.contains(id) && !(
        m.active.contains(id) && vanishes(objects, id))),
{
    let ids = gone_ids(m.active, objects);
    lemma_gone(m.active, objects, id);
    lemma_without(m, ids, id);
    lemma_with_new(without(m, ids), objects, id);
}

/// In what an update brings, the ends come before the starts.
pub proof fn ends_come_before_starts(m: TrackerModel, objects: Seq<PwDumpObject>, i: int, j: int)
    requires
        0 <= i < j < update_events(m, objects).len(),
        update_events(m, objects)[i] is Started,
    ensures
        update_events(m, objects)[j] is Started,
{
    let ids = gone_ids(m.active, objects);
    let middle = without(m, ids);
    let first = stops(ids);
    assert(i >= first.len());
    lemma_start_has_object(middle, objects, j - first.len());
    assert(update_events(m, objects)[j] == starts(middle, objects)[j - first.len()]);
}

/// No update announces two starts on one node, whatever it holds.
pub proof fn node_starts_once_in_an_update(
    m: TrackerModel,
    objects: Seq<PwDumpObject>,
    id: u32,
    i: int,
    j: int,
)
    requires
        0 <= i < j < update_events(m, objects).len(),
        is_start(update_events(m, objects)[i], id),
    ensures
        !is_start(update_events(m, objects)[j], id),
{
    let ids = gone_ids(m.active, objects);
    let middle = without(m, ids);
    let first = stops(ids);
    assert(i >= first.len());
    lemma_starts_differ(middle, objects, id, i - first.len(), j - first.len());
    assert(update_events(m, objects)[i] == starts(middle, objects)[i - first.len()]);
    assert(update_events(m, objects)[j] == starts(middle, objects)[j - first.len()]);
}

proof fn lemma_starts_differ(m: TrackerModel, objects: Seq<PwDumpObject>, id: u32, i: int, j: int)
    requires
        0 <= i < j < starts(m, objects).len(),
    ensures
        !(is_start(starts(m, objects)[i], id) && is_start(starts(m, objects)[j], id)),
    decreases objects.len(),
{
    if objects.len() > 0 {
        let shorter = objects.drop_last();
        let earlier = starts(m, shorter);
        if j < earlier.len() {
            lemma_starts_differ(m, shorter, id, i, j);
        } else if is_start(earlier[i], id) {
            assert(announces_start(earlier, id));
            lemma_starts(m, shorter, id);
            lemma_with_new(m, shorter, id);
        }
    }
}

} // verus!
