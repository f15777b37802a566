//! The background service: what it does when a screen share starts and ends.
//!
//! ```text
//!   monitor -> detect -> prompt -> route -> clean up -> monitor
//! ```
//!
//! A share that ends may come back at once under another node, so a route is
//! kept for a grace period before it is taken down. The service never ends by
//! itself: where the monitor of screen shares fails, it is started anew.

use crate::audio::{AudioRoute, RouteModel};
use crate::command::{error_message, CommandError};
use crate::text::{copy_strings, join, joined, texts};
use crate::tracker::ScreenShareEvent;
use vstd::prelude::*;

verus! {

/// How long a route outlives the share that it was made for, in milliseconds.
pub const GRACE_MILLIS: u64 = 3000;

/// How long the service rests before it starts a failed monitor anew, in
/// milliseconds.
pub const REST_MILLIS: u64 = 5000;

/// What the service is told.
#[derive(Debug)]
pub enum DaemonEvent {
    /// Whether the portal is available.
    PortalChecked { available: bool },
    /// A screen share has started or ended.
    Share { event: ScreenShareEvent },
    /// No event came within the time that was set.
    TimedOut,
    /// The monitor of screen shares has failed: no more events will come of it.
    Closed,
    /// The monitor of screen shares was started.
    Watching,
    /// The rest is over.
    Rested,
    /// The applications were moved.
    Relinked,
    /// The user chose applications.
    Chosen { apps: Vec<String> },
    /// The user chose none, or could not be asked.
    NotChosen,
    /// The route is set up.
    RouteBuilt { route: AudioRoute },
    /// The route could not be set up.
    RouteFailed { error: CommandError },
    /// The message was shown.
    Notified,
    /// The route is taken down.
    Destroyed,
}

/// What the service wants done next.
#[derive(Debug)]
pub enum DaemonAction {
    /// Check whether the portal is available.
    CheckPortal,
    /// Start the monitor of screen shares.
    Watch,
    /// Do nothing for the given time.
    Rest { millis: u64 },
    /// Wait for an event.
    Wait,
    /// Wait for an event, but no longer than the given time.
    WaitAtMost { millis: u64 },
    /// Move the audio of the applications to the route again, in order.
    Relink { apps: Vec<String> },
    /// Ask the user for the applications to share.
    AskUser,
    /// Set up a route for the applications.
    BuildRoute { apps: Vec<String> },
    /// Show the user a message.
    Notify { title: String, body: String },
    /// Take the route down.
    Destroy { route: AudioRoute },
    /// Give up, with a message.
    Fail { message: String },
}

/// A [`DaemonAction`] as a mathematical value.
#[verifier::ext_equal]
pub ghost enum DaemonActionModel {
    CheckPortal,
    Watch,
    Rest { millis: nat },
    Wait,
    WaitAtMost { millis: nat },
    Relink { apps: Seq<Seq<char>> },
    AskUser,
    BuildRoute { apps: Seq<Seq<char>> },
    Notify { title: Seq<char>, body: Seq<char> },
    Destroy { route: RouteModel },
    Fail { message: Seq<char> },
}

impl View for DaemonAction {
    type V = DaemonActionModel;

    open spec fn view(&self) -> DaemonActionModel {
        match *self {
            DaemonAction::CheckPortal => DaemonActionModel::CheckPortal,
            DaemonAction::Watch => DaemonActionModel::Watch,
            DaemonAction::Rest { millis } => DaemonActionModel::Rest { millis: millis as nat },
            DaemonAction::Wait => DaemonActionModel::Wait,
            DaemonAction::WaitAtMost { millis } => DaemonActionModel::WaitAtMost {
                millis: millis as nat,
            },
            DaemonAction::Relink { apps } => DaemonActionModel::Relink { apps: texts(apps@) },
            DaemonAction::AskUser => DaemonActionModel::AskUser,
            DaemonAction::BuildRoute { apps } => DaemonActionModel::BuildRoute {
                apps: texts(apps@),
            },
            DaemonAction::Notify { title, body } => DaemonActionModel::Notify {
                title: title@,
                body: body@,
            },
            DaemonAction::Destroy { route } => DaemonActionModel::Destroy { route: route@ },
            DaemonAction::Fail { message } => DaemonActionModel::Fail { message: message@ },
        }
    }
}

/// A [`Daemon`] as a mathematical value.
#[verifier::ext_equal]
pub ghost struct DaemonModel {
    /// The route that is set up, if there is one.
    pub route: Option<RouteModel>,
    /// The node of the present screen share, if there is one.
    pub node: Option<u32>,
    /// Whether the share has ended and the route is about to be taken down.
    pub pending: bool,
}

/// The service before its first event.
pub open spec fn daemon_start() -> DaemonModel {
    DaemonModel { route: None, node: None, pending: false }
}

/// How the service waits: with a limit where a route is about to be taken down.
pub open spec fn wait_action(m: DaemonModel) -> DaemonActionModel {
    if m.pending {
        DaemonActionModel::WaitAtMost { millis: GRACE_MILLIS as nat }
    } else {
        DaemonActionModel::Wait
    }
}

/// The service after an event.
pub open spec fn daemon_next(m: DaemonModel, event: DaemonEvent) -> DaemonModel {
    match event {
        DaemonEvent::Share { event: ScreenShareEvent::Started { node_id, .. } } => DaemonModel {
            node: Some(node_id),
            pending: false,
            ..m
        },
        DaemonEvent::Share { event: ScreenShareEvent::Stopped { node_id } } => DaemonModel {
            pending: m.pending || m.node == Some(node_id),
            ..m
        },
        DaemonEvent::TimedOut => if m.pending {
            daemon_start()
        } else {
            m
        },
        DaemonEvent::RouteBuilt { route } => DaemonModel { route: Some(route@), ..m },
        _ => m,
    }
}

/// What the service wants done after an event.
pub open spec fn daemon_action(m: DaemonModel, event: DaemonEvent) -> DaemonActionModel {
    match event {
        DaemonEvent::PortalChecked { available } => if available {
            DaemonActionModel::Watch
        } else {
            DaemonActionModel::Fail { message: "XDG Desktop Portal is required"@ }
        },
        DaemonEvent::Share { event: ScreenShareEvent::Started { .. } } => match m.route {
            Some(route) => DaemonActionModel::Relink { apps: route.apps },
            None => if m.pending {
                DaemonActionModel::Wait
            } else {
                DaemonActionModel::AskUser
            },
        },
        DaemonEvent::TimedOut => match m.route {
            Some(route) if m.pending => DaemonActionModel::Destroy { route },
            _ => DaemonActionModel::Wait,
        },
        DaemonEvent::Closed => DaemonActionModel::Rest { millis: REST_MILLIS as nat },
        DaemonEvent::Rested => DaemonActionModel::Watch,
        DaemonEvent::Chosen { apps } => DaemonActionModel::BuildRoute { apps: texts(apps@) },
        DaemonEvent::RouteBuilt { route } => DaemonActionModel::Notify {
            title: "Audio Routing Enabled"@,
            body: "Routing audio for "@ + join(texts(route.target_apps@), ", "@)
                + ". It will be cleaned up automatically once sharing concludes."@,
        },
        DaemonEvent::RouteFailed { error } => DaemonActionModel::Notify {
            title: "Error"@,
            body: "Route creation failed: "@ + error_message(error@),
        },
        _ => wait_action(daemon_next(m, event)),
    }
}

/// The background service.
#[derive(Debug)]
pub struct Daemon {
    active_route: Option<AudioRoute>,
    active_node_id: Option<u32>,
    pending_cleanup: bool,
}

impl View for Daemon {
    type V = DaemonModel;

    closed spec fn view(&self) -> DaemonModel {
        DaemonModel {
            route: match self.active_route {
                Some(route) => Some(route@),
                None => None,
            },
            node: self.active_node_id,
            pending: self.pending_cleanup,
        }
    }
}

/// Starts the service, and says what to do first.
pub fn run_daemon() -> (r: (Daemon, DaemonAction))
    ensures
        r.0@ == daemon_start(),
        r.1@ == DaemonActionModel::CheckPortal,
{
    (
        Daemon { active_route: None, active_node_id: None, pending_cleanup: false },
        DaemonAction::CheckPortal,
    )
}

impl Daemon {
    /// See [`wait_action`].
    fn wait(&self) -> (r: DaemonAction)
        ensures
            r@ == wait_action(self@),
    {
        if self.pending_cleanup {
            DaemonAction::WaitAtMost { millis: GRACE_MILLIS }
        } else {
            DaemonAction::Wait
        }
    }

    /// Takes an event, and says what to do next.
    pub fn step(&mut self, event: DaemonEvent) -> (r: DaemonAction)
        ensures
            final(self)@ == daemon_next(old(self)@, event),
            r@ == daemon_action(old(self)@, event),
    {
        match event {
            DaemonEvent::PortalChecked { available } => if available {
                DaemonAction::Watch
            } else {
                DaemonAction::Fail { message: "XDG Desktop Portal is required".to_owned() }
            },
            DaemonEvent::Share { event } => match event {
                ScreenShareEvent::Started { node_id, .. } => {
                    let reconnect = self.pending_cleanup;
                    self.active_node_id = Some(node_id);
                    self.pending_cleanup = false;
                    match &self.active_route {
                        Some(route) => DaemonAction::Relink {
                            apps: copy_strings(route.target_apps.as_slice()),
                        },
                        None => if reconnect {
                            DaemonAction::Wait
                        } else {
                            DaemonAction::AskUser
                        },
                    }
                },
                ScreenShareEvent::Stopped { node_id } => {
                    if let Some(current) = self.active_node_id {
                        if current == node_id {
                            self.pending_cleanup = true;
                        }
                    }
                    self.wait()
                },
            },
            DaemonEvent::TimedOut => {
                if !self.pending_cleanup {
                    return DaemonAction::Wait;
                }
                let route = self.active_route.take();
                self.active_node_id = None;
                self.pending_cleanup = false;
                match route {
                    Some(route) => DaemonAction::Destroy { route },
                    None => DaemonAction::Wait,
                }
            },
            DaemonEvent::Closed => DaemonAction::Rest { millis: REST_MILLIS },
            DaemonEvent::Rested => DaemonAction::Watch,
            DaemonEvent::Watching => self.wait(),
            DaemonEvent::Chosen { apps } => DaemonAction::BuildRoute { apps },
            DaemonEvent::RouteBuilt { route } => {
                let mut body = "Routing audio for ".to_owned();
                body.append(joined(route.target_apps.as_slice(), ", ").as_str());
                body.append(". It will be cleaned up automatically once sharing concludes.");
                self.active_route = Some(route);
                DaemonAction::Notify { title: "Audio Routing Enabled".to_owned(), body }
            },
            DaemonEvent::RouteFailed { error } => {
                let mut body = "Route creation failed: ".to_owned();
                body.append(error.message().as_str());
                DaemonAction::Notify { title: "Error".to_owned(), body }
            },
            DaemonEvent::Relinked => self.wait(),
            DaemonEvent::NotChosen => self.wait(),
            DaemonEvent::Notified => self.wait(),
            DaemonEvent::Destroyed => self.wait(),
        }
    }
}

// ---------------------------------------------------------------------------
// Laws
// ---------------------------------------------------------------------------

/// Whether an event can follow an action.
pub open spec fn follows(action: DaemonActionModel, event: DaemonEvent) -> bool {
    match action {
        DaemonActionModel::CheckPortal => event is PortalChecked,
        DaemonActionModel::Watch => event is Watching,
        DaemonActionModel::Rest { .. } => event is Rested,
        DaemonActionModel::Wait => event is Share || event is Closed,
        DaemonActionModel::WaitAtMost { .. } => event is Share || event is Closed
            || event is TimedOut,
        DaemonActionModel::Relink { .. } => event is Relinked,
        DaemonActionModel::AskUser => event is Chosen || event is NotChosen,
        DaemonActionModel::BuildRoute { apps } => match event {
            DaemonEvent::RouteBuilt { route } => route@.apps == apps,
            DaemonEvent::RouteFailed { .. } => true,
            _ => false,
        },
        DaemonActionModel::Notify { .. } => event is Notified,
        DaemonActionModel::Destroy { .. } => event is Destroyed,
        DaemonActionModel::Fail { .. } => false,
    }
}

/// What holds of the service whenever it wants something done.
pub open spec fn in_order(m: DaemonModel, action: DaemonActionModel) -> bool {
    &&& m.pending ==> m.node is Some
    &&& action is CheckPortal ==> m == daemon_start()
    &&& action is Wait ==> !m.pending
    &&& action is WaitAtMost ==> m.pending
    &&& action is AskUser || action is BuildRoute ==> m.route is None && !m.pending && m.node is Some
}

/// The service starts in order, and every event that can follow keeps it so.
pub proof fn service_stays_in_order(
    m: DaemonModel,
    action: DaemonActionModel,
    event: DaemonEvent,
)
    requires
        in_order(m, action),
        follows(action, event),
    ensures
        in_order(daemon_start(), DaemonActionModel::CheckPortal),
        in_order(daemon_next(m, event), daemon_action(m, event)),
{
}

/// A route that is set up is kept until the grace period has run out, and is
/// then handed over to be taken down. No other event replaces or forgets it.
pub proof fn no_route_is_lost(m: DaemonModel, action: DaemonActionModel, event: DaemonEvent)
    requires
        in_order(m, action),
        follows(action, event),
        m.route is Some,
    ensures
        event is TimedOut ==> daemon_next(m, event).route is None && daemon_action(m, event) == (
        DaemonActionModel::Destroy { route: m.route->0 }),
        event !is TimedOut ==> daemon_next(m, event).route == m.route && daemon_action(
            m,
            event,
        ) !is Destroy,
{
}

/// Some event can follow every action but the one that gives up, and the service
/// gives up only where there is no portal.
pub proof fn service_gives_up_without_a_portal_only(
    m: DaemonModel,
    event: DaemonEvent,
    error: CommandError,
)
    ensures
        daemon_action(m, event) is Fail <==> (event matches DaemonEvent::PortalChecked {
            available,
        } && !available),
        daemon_action(m, event) !is Fail ==> exists|next: DaemonEvent|
            follows(daemon_action(m, event), next),
{
    let action = daemon_action(m, event);
    let next = match action {
        DaemonActionModel::CheckPortal => DaemonEvent::PortalChecked { available: true },
        DaemonActionModel::Watch => DaemonEvent::Watching,
        DaemonActionModel::Rest { .. } => DaemonEvent::Rested,
        DaemonActionModel::Wait => DaemonEvent::Closed,
        DaemonActionModel::WaitAtMost { .. } => DaemonEvent::TimedOut,
        DaemonActionModel::Relink { .. } => DaemonEvent::Relinked,
        DaemonActionModel::AskUser => DaemonEvent::NotChosen,
        DaemonActionModel::BuildRoute { .. } => DaemonEvent::RouteFailed { error },
        DaemonActionModel::Notify { .. } => DaemonEvent::Notified,
        _ => DaemonEvent::Destroyed,
    };
    assert(action !is Fail ==> follows(action, next));
}

/// A monitor that fails changes nothing: it is started anew after a rest, and the
/// service then waits as it did before.
pub proof fn failed_monitor_is_started_anew(m: DaemonModel)
    ensures
        daemon_next(m, DaemonEvent::Closed) == m,
        daemon_action(m, DaemonEvent::Closed) == (DaemonActionModel::Rest {
            millis: REST_MILLIS as nat,
        }),
        daemon_next(m, DaemonEvent::Rested) == m,
        daemon_action(m, DaemonEvent::Rested) == DaemonActionModel::Watch,
        daemon_next(m, DaemonEvent::Watching) == m,
        daemon_action(m, DaemonEvent::Watching) == wait_action(m),
{
}

/// The user is asked only where no route is set up and none is about to be taken
/// down.
pub proof fn user_is_asked_without_a_route_only(m: DaemonModel, event: DaemonEvent)
    requires
        daemon_action(m, event) is AskUser,
    ensures
        m.route is None,
        !m.pending,
{
}

/// The end of a share that another has replaced changes nothing.
pub proof fn end_of_an_old_share_is_ignored(m: DaemonModel, event: DaemonEvent, node_id: u32)
    requires
        event == (DaemonEvent::Share { event: ScreenShareEvent::Stopped { node_id } }),
        m.node != Some(node_id),
    ensures
        daemon_next(m, event) == m,
        daemon_action(m, event) == wait_action(m),
{
}

/// A share that comes back within the grace period keeps its route: the
/// applications are moved to it again, and nobody is asked.
pub proof fn reconnect_keeps_the_route(
    m: DaemonModel,
    event: DaemonEvent,
    app_name: Option<String>,
    node_id: u32,
)
    requires
        m.pending,
        event == (DaemonEvent::Share { event: ScreenShareEvent::Started { app_name, node_id } }),
    ensures
        daemon_next(m, event) == (DaemonModel {
            route: m.route,
            node: Some(node_id),
            pending: false,
        }),
        m.route matches Some(route) ==> daemon_action(m, event) == (DaemonActionModel::Relink {
            apps: route.apps,
        }),
        m.route is None ==> daemon_action(m, event) == DaemonActionModel::Wait,
{
}

/// The life of a share: it is detected, the user is asked, the route is set up,
/// the share ends, and after the grace period the very route that was set up is
/// taken down. The service is then as it was at its start.
pub proof fn share_runs_full_circle(
    app_name: Option<String>,
    node_id: u32,
    apps: Vec<String>,
    route: AudioRoute,
)
    ensures
        ({
            let started = DaemonEvent::Share {
                event: ScreenShareEvent::Started { app_name, node_id },
            };
            let stopped = DaemonEvent::Share { event: ScreenShareEvent::Stopped { node_id } };
            let built = DaemonEvent::RouteBuilt { route };
            let chosen = DaemonEvent::Chosen { apps };
            let m0 = daemon_start();
            let m1 = daemon_next(m0, started);
            let m2 = daemon_next(m1, chosen);
            let m3 = daemon_next(m2, built);
            let m4 = daemon_next(m3, DaemonEvent::Notified);
            let m5 = daemon_next(m4, stopped);
            let m6 = daemon_next(m5, DaemonEvent::TimedOut);
            &&& daemon_action(m0, started) is AskUser
            &&& daemon_action(m1, chosen) == (DaemonActionModel::BuildRoute { apps: texts(apps@) })
            &&& daemon_action(m2, built) is Notify
            &&& daemon_action(m3, DaemonEvent::Notified) is Wait
            &&& daemon_action(m4, stopped) == (DaemonActionModel::WaitAtMost {
                millis: GRACE_MILLIS as nat,
            })
            &&& daemon_action(m5, DaemonEvent::TimedOut) == (DaemonActionModel::Destroy {
                route: route@,
            })
            &&& m6 == m0
        }),
{
}

/// The service after some events, and what it then wants done.
pub open spec fn daemon_run(events: Seq<DaemonEvent>) -> (DaemonModel, DaemonActionModel)
    decreases events.len(),
{
    if events.len() == 0 {
        (daemon_start(), DaemonActionModel::CheckPortal)
    } else {
        let (m, action) = daemon_run(events.drop_last());
        (daemon_next(m, events.last()), daemon_action(m, events.last()))
    }
}

/// Whether each of the events can follow the action before it.
pub open spec fn can_happen(events: Seq<DaemonEvent>) -> bool
    decreases events.len(),
{
    events.len() > 0 ==> can_happen(events.drop_last()) && follows(
        daemon_run(events.drop_last()).1,
        events.last(),
    )
}

/// The routes that some events set up, in order.
pub open spec fn built_routes(events: Seq<DaemonEvent>) -> Seq<RouteModel>
    decreases events.len(),
{
    if events.len() == 0 {
        seq![]
    } else {
        match events.last() {
            DaemonEvent::RouteBuilt { route } => built_routes(events.drop_last()).push(route@),
            _ => built_routes(events.drop_last()),
        }
    }
}

/// The routes that the service wanted taken down in the course of some events,
/// in order.
pub open spec fn destroyed_routes(events: Seq<DaemonEvent>) -> Seq<RouteModel>
    decreases events.len(),
{
    if events.len() == 0 {
        seq![]
    } else {
        match daemon_run(events).1 {
            DaemonActionModel::Destroy { route } => destroyed_routes(events.drop_last()).push(
                route,
            ),
            _ => destroyed_routes(events.drop_last()),
        }
    }
}

/// Whatever happens, the routes that were set up are those that were taken down,
/// in the same order, and after them the present one, if there is one. At most
/// one route is there at a time.
pub proof fn every_route_is_taken_down_once(events: Seq<DaemonEvent>)
    requires
        can_happen(events),
    ensures
        in_order(daemon_run(events).0, daemon_run(events).1),
        built_routes(events) == destroyed_routes(events) + match daemon_run(events).0.route {
            Some(route) => seq![route],
            None => Seq::empty(),
        },
    decreases events.len(),
{
    if events.len() > 0 {
        let shorter = events.drop_last();
        every_route_is_taken_down_once(shorter);
        let (m, action) = daemon_run(shorter);
        assert(in_order(daemon_next(m, events.last()), daemon_action(m, events.last())));
        if m.route is Some {
            no_route_is_lost(m, action, events.last());
        }
        assert(built_routes(events) =~= destroyed_routes(events) + match daemon_run(
            events,
        ).0.route {
            Some(route) => seq![route],
            None => Seq::empty(),
        });
    }
}

/// Once the portal was found, the service never ends by itself, whatever happens:
/// there is always something more that it wants done.
pub proof fn service_never_ends_by_itself(events: Seq<DaemonEvent>)
    requires
        can_happen(events),
        events.len() > 0,
        events[0] == (DaemonEvent::PortalChecked { available: true }),
    ensures
        daemon_run(events).1 !is Fail,
        daemon_run(events).1 !is CheckPortal,
    decreases events.len(),
{
    if events.len() > 1 {
        assert(events.drop_last()[0] == events[0]);
        service_never_ends_by_itself(events.drop_last());
    }
}

/// A share that starts while a route stands, whether or not the route is about to
/// be taken down, has exactly the applications of that route moved again, in
/// their order. The route stays, the new node becomes the present one, and nothing
/// is about to be taken down any more.
pub proof fn active_route_is_relinked(
    m: DaemonModel,
    route: RouteModel,
    app_name: Option<String>,
    node_id: u32,
)
    requires
        m.route == Some(route),
    ensures
        ({
            let started = DaemonEvent::Share {
                event: ScreenShareEvent::Started { app_name, node_id },
            };
            let after = daemon_next(m, started);
            &&& daemon_action(m, started) is Relink
            &&& daemon_action(m, started)->Relink_apps == route.apps
            &&& after.route == Some(route)
            &&& after.node == Some(node_id)
            &&& !after.pending
        }),
{
}

/// A share that starts where no route stands is one that the user is asked about,
/// unless the share before it ended within the grace period. It becomes the
/// present one either way, whatever its name and node are.
pub proof fn new_share_is_asked_about(m: DaemonModel, app_name: Option<String>, node_id: u32)
    requires
        m.route is None,
    ensures
        ({
            let started = DaemonEvent::Share {
                event: ScreenShareEvent::Started { app_name, node_id },
            };
            let after = daemon_next(m, started);
            &&& !m.pending ==> daemon_action(m, started) is AskUser
            &&& m.pending ==> daemon_action(m, started) is Wait
            &&& after.route is None
            &&& after.node == Some(node_id)
            &&& !after.pending
        }),
{
}

/// The end of the present share starts the grace period of three seconds, and
/// changes nothing else. The route stands meanwhile.
pub proof fn end_of_the_share_starts_the_grace(m: DaemonModel, node_id: u32)
    requires
        m.node == Some(node_id),
    ensures
        ({
            let stopped = DaemonEvent::Share { event: ScreenShareEvent::Stopped { node_id } };
            let after = daemon_next(m, stopped);
            &&& after.pending
            &&& after.route == m.route
            &&& after.node == m.node
            &&& daemon_action(m, stopped) is WaitAtMost
            &&& daemon_action(m, stopped)->WaitAtMost_millis == 3000
        }),
{
}

/// When the grace period has run out, the route that stood is handed over to be
/// taken down, whatever it holds, and the service is as it was at its start.
pub proof fn route_goes_when_the_grace_is_over(m: DaemonModel)
    requires
        m.pending,
    ensures
        ({
            let after = daemon_next(m, DaemonEvent::TimedOut);
            let action = daemon_action(m, DaemonEvent::TimedOut);
            &&& after.route is None
            &&& after.node is None
            &&& !after.pending
            &&& m.route matches Some(route) ==> action is Destroy && action->route == route
            &&& m.route is None ==> action is Wait
        }),
{
}

/// What the user chose is what the route is set up for, no more and no less. The
/// route that comes of it is kept as it is, and the user is told of all its
/// applications.
pub proof fn choice_becomes_the_route(m: DaemonModel, apps: Vec<String>, route: AudioRoute)
    ensures
        ({
            let chosen = daemon_action(m, DaemonEvent::Chosen { apps });
            let built = daemon_action(m, DaemonEvent::RouteBuilt { route });
            let after = daemon_next(m, DaemonEvent::RouteBuilt { route });
            &&& chosen is BuildRoute
            &&& chosen->BuildRoute_apps == texts(apps@)
            &&& daemon_next(m, DaemonEvent::Chosen { apps }) == m
            &&& after.route == Some(route@)
            &&& after.node == m.node
            &&& after.pending == m.pending
            &&& built is Notify
            &&& built->title == "Audio Routing Enabled"@
            &&& built->body == "Routing audio for "@ + join(texts(route.target_apps@), ", "@)
                + ". It will be cleaned up automatically once sharing concludes."@
        }),
{
}

/// A route that could not be set up leaves the service as it was, and the user is
/// told of the error.
pub proof fn failed_route_is_told(m: DaemonModel, error: CommandError)
    ensures
        ({
            let failed = daemon_action(m, DaemonEvent::RouteFailed { error });
            &&& daemon_next(m, DaemonEvent::RouteFailed { error }) == m
            &&& failed is Notify
            &&& failed->title == "Error"@
            &&& failed->body == "Route creation failed: "@ + error_message(error@)
        }),
{
}

/// Whatever only tells that something was done changes nothing. The service then
/// waits: for three seconds at most where a route is about to be taken down, and
/// else without a limit.
pub proof fn service_waits_when_all_is_done(m: DaemonModel, event: DaemonEvent)
    requires
        event is Watching || event is Relinked || event is NotChosen || event is Notified
            || event is Destroyed,
    ensures
        daemon_next(m, event) == m,
        !m.pending ==> daemon_action(m, event) is Wait,
        m.pending ==> daemon_action(m, event) is WaitAtMost && daemon_action(
            m,
            event,
        )->WaitAtMost_millis == 3000,
{
}

/// Once the portal is there, the monitor of screen shares is started, and nothing
/// else changes. Without it the service gives up.
pub proof fn portal_starts_the_monitor(m: DaemonModel, available: bool)
    ensures
        daemon_next(m, DaemonEvent::PortalChecked { available }) == m,
        available ==> daemon_action(m, DaemonEvent::PortalChecked { available }) is Watch,
        !available ==> daemon_action(m, DaemonEvent::PortalChecked { available }) == (
        DaemonActionModel::Fail { message: "XDG Desktop Portal is required"@ }),
{
}

} // verus!
