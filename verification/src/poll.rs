//! The poll loop as a machine that does no work of its own.
//!
//! A [`Watch`] says what is to be done next, as an [`Action`]; its caller
//! does it and says how it went, as an [`Event`]. In turn the watch asks for
//! a query, for the distances of the locker groups that the answer holds,
//! for one notification after the other, and for a pause, and begins again.
//! Nothing is tried twice: the first failure stops the watch for good.

use vstd::prelude::*;
use crate::config::{Config, ConfigView};
use crate::distance::Meters;
use crate::http::{PostRequest, PostRequestView};
use crate::model::{
    LockerGroup, LockerGroupView, ParseError, decode_text, group_views, locker_query,
};
use crate::ntfy::{notification, notification_request};
use crate::value::Decimal;
use crate::watch::{
    Alert, AlertView, Sighting, SightingView, alert_views, alerts, alerts_for, reference,
    reference_point, sighting_views,
};

verus! {

/// Why a watch stopped.
#[derive(Debug, Clone, Copy, PartialEq, Eq, Structural)]
pub enum Failure {
    /// The query did not go through.
    Request,
    /// The answer to the query could not be decoded.
    Response(ParseError),
    /// A notification did not go through.
    Notification,
    /// The caller told of something that the watch had not asked for.
    OutOfTurn,
}

/// What the caller of a watch tells it.
#[derive(Debug, PartialEq)]
pub enum Event {
    /// The query was answered with this text.
    Answered(String),
    /// The distances asked for, in the order of the points.
    Measured(Vec<Meters>),
    /// The notification went through.
    Delivered,
    /// The query or the notification did not go through.
    Failed,
    /// The pause is over.
    Rested,
}

/// The mathematical content of an [`Event`].
pub enum EventView {
    Answered(Seq<char>),
    Measured(Seq<Meters>),
    Delivered,
    Failed,
    Rested,
}

impl View for Event {
    type V = EventView;

    open spec fn view(&self) -> EventView {
        match self {
            Event::Answered(text) => EventView::Answered(text@),
            Event::Measured(distances) => EventView::Measured(distances@),
            Event::Delivered => EventView::Delivered,
            Event::Failed => EventView::Failed,
            Event::Rested => EventView::Rested,
        }
    }
}

/// What a watch asks its caller to do.
#[derive(Debug, PartialEq)]
pub enum Action {
    /// Send the request, and tell of the answer or of the failure.
    Query(PostRequest),
    /// Measure how far each point of `to` is from `from`, and tell of the
    /// distances.
    Measure { from: (Decimal, Decimal), to: Vec<(Decimal, Decimal)> },
    /// Log the report and send the request, and tell whether it went through.
    Notify { report: String, request: PostRequest },
    /// Wait for so many seconds, and tell when they are over.
    Sleep(u64),
    /// Give up.
    Stop(Failure),
}

/// The mathematical content of an [`Action`].
pub enum ActionView {
    Query(PostRequestView),
    Measure { from: (Decimal, Decimal), to: Seq<(Decimal, Decimal)> },
    Notify { report: Seq<char>, request: PostRequestView },
    Sleep(u64),
    Stop(Failure),
}

impl View for Action {
    type V = ActionView;

    open spec fn view(&self) -> ActionView {
        match self {
            Action::Query(request) => ActionView::Query(request@),
            Action::Measure { from, to } => ActionView::Measure { from: *from, to: to@ },
            Action::Notify { report, request } => ActionView::Notify {
                report: report@,
                request: request@,
            },
            Action::Sleep(seconds) => ActionView::Sleep(*seconds),
            Action::Stop(failure) => ActionView::Stop(*failure),
        }
    }
}

/// What a watch is waiting for.
#[derive(Debug, PartialEq)]
pub enum Phase {
    /// The answer to a query.
    Querying,
    /// The distances of these locker groups.
    Measuring(Vec<LockerGroup>),
    /// The outcome of the notification of `alerts[sent]`; the alerts before
    /// it are delivered.
    Notifying { alerts: Vec<Alert>, sent: usize },
    /// The end of a pause.
    Pausing,
    /// Nothing any more.
    Stopped(Failure),
}

/// The mathematical content of a [`Phase`].
pub enum PhaseView {
    Querying,
    Measuring(Seq<LockerGroupView>),
    Notifying { alerts: Seq<AlertView>, sent: nat },
    Pausing,
    Stopped(Failure),
}

impl View for Phase {
    type V = PhaseView;

    open spec fn view(&self) -> PhaseView {
        match self {
            Phase::Querying => PhaseView::Querying,
            Phase::Measuring(groups) => PhaseView::Measuring(group_views(groups@)),
            Phase::Notifying { alerts, sent } => PhaseView::Notifying {
                alerts: alert_views(alerts@),
                sent: *sent as nat,
            },
            Phase::Pausing => PhaseView::Pausing,
            Phase::Stopped(failure) => PhaseView::Stopped(*failure),
        }
    }
}

/// A poll loop: what it is configured to watch for, and where it stands.
#[derive(Debug, PartialEq)]
pub struct Watch {
    pub config: Config,
    pub phase: Phase,
}

/// The mathematical content of a [`Watch`].
pub struct WatchView {
    pub config: ConfigView,
    pub phase: PhaseView,
}

impl View for Watch {
    type V = WatchView;

    open spec fn view(&self) -> WatchView {
        WatchView { config: self.config@, phase: self.phase@ }
    }
}

/// Where each locker group of `groups` is, in order.
pub open spec fn places(groups: Seq<LockerGroupView>) -> Seq<(Decimal, Decimal)> {
    groups.map_values(|group: LockerGroupView| group.coordinates)
}

/// Each locker group of `groups` with the distance at its place in
/// `distances`.
pub open spec fn sighted(groups: Seq<LockerGroupView>, distances: Seq<Meters>) -> Seq<
    SightingView,
> {
    Seq::new(
        groups.len(),
        |i: int| SightingView { group: groups[i], distance: distances[i] },
    )
}

/// The watch gives up.
pub open spec fn stop(failure: Failure) -> (PhaseView, ActionView) {
    (PhaseView::Stopped(failure), ActionView::Stop(failure))
}

/// The watch asks for the query.
pub open spec fn query(config: ConfigView) -> (PhaseView, ActionView) {
    (PhaseView::Querying, ActionView::Query(locker_query(config.pc_session_id)))
}

/// The watch goes on to the alert at `next`, and to the pause where there is
/// none left.
pub open spec fn deliver(config: ConfigView, alerts: Seq<AlertView>, next: nat) -> (
    PhaseView,
    ActionView,
) {
    if next < alerts.len() {
        let alert = alerts[next as int];
        (
            PhaseView::Notifying { alerts, sent: next },
            ActionView::Notify {
                report: alert.report,
                request: notification_request(alert.topic, alert.message),
            },
        )
    } else {
        (PhaseView::Pausing, ActionView::Sleep(config.scanning_interval))
    }
}

/// What a watch in `phase` makes of `event`: where it stands afterwards,
/// and what it asks for.
pub open spec fn step(config: ConfigView, phase: PhaseView, event: EventView) -> (
    PhaseView,
    ActionView,
) {
    match phase {
        PhaseView::Stopped(failure) => stop(failure),
        PhaseView::Querying => match event {
            EventView::Answered(text) => match decode_text(text) {
                Ok(groups) => (
                    PhaseView::Measuring(groups),
                    ActionView::Measure { from: reference(), to: places(groups) },
                ),
                Err(error) => stop(Failure::Response(error)),
            },
            EventView::Failed => stop(Failure::Request),
            _ => stop(Failure::OutOfTurn),
        },
        PhaseView::Measuring(groups) => match event {
            EventView::Measured(distances) => if distances.len() == groups.len() {
                deliver(config, alerts_for(config, sighted(groups, distances)), 0)
            } else {
                stop(Failure::OutOfTurn)
            },
            _ => stop(Failure::OutOfTurn),
        },
        PhaseView::Notifying { alerts, sent } => match event {
            EventView::Delivered => deliver(config, alerts, sent + 1),
            EventView::Failed => stop(Failure::Notification),
            _ => stop(Failure::OutOfTurn),
        },
        PhaseView::Pausing => match event {
            EventView::Rested => query(config),
            _ => stop(Failure::OutOfTurn),
        },
    }
}

/// A watch that has stopped stays stopped, whatever it is told.
pub proof fn lemma_stopped_for_good(config: ConfigView, failure: Failure, event: EventView)
    ensures
        step(config, PhaseView::Stopped(failure), event) == stop(failure),
{
}

/// Every failure stops the watch: after a query or a notification that did
/// not go through, and after an answer that does not decode, nothing more
/// is asked for.
pub proof fn lemma_failure_stops(config: ConfigView, phase: PhaseView, event: EventView)
    requires
        event is Failed || (phase is Querying && event is Answered && decode_text(
            event->Answered_0,
        ) is Err),
    ensures
        step(config, phase, event).0 is Stopped,
        step(config, phase, event).1 is Stop,
{
}

/// A failed notification leaves the alerts after it undelivered.
pub proof fn lemma_failed_notification_is_the_last(
    config: ConfigView,
    alerts: Seq<AlertView>,
    sent: nat,
)
    ensures
        step(config, PhaseView::Notifying { alerts, sent }, EventView::Failed) == stop(
            Failure::Notification,
        ),
{
}

/// The alerts are sent one by one in their order, and the pause follows the
/// last one.
pub proof fn lemma_alerts_go_in_order(config: ConfigView, alerts: Seq<AlertView>, sent: nat)
    ensures
        sent + 1 < alerts.len() ==> step(
            config,
            PhaseView::Notifying { alerts, sent },
            EventView::Delivered,
        ) == (
            PhaseView::Notifying { alerts, sent: sent + 1 },
            ActionView::Notify {
                report: alerts[sent + 1 as int].report,
                request: notification_request(
                    alerts[sent + 1 as int].topic,
                    alerts[sent + 1 as int].message,
                ),
            },
        ),
        sent + 1 >= alerts.len() ==> step(
            config,
            PhaseView::Notifying { alerts, sent },
            EventView::Delivered,
        ) == (PhaseView::Pausing, ActionView::Sleep(config.scanning_interval)),
{
}

/// Whatever a watch is told, a pause that it asks for is as long as it is
/// configured, and a query that it asks for is the one of its session.
pub proof fn lemma_pause_and_query_are_configured(
    config: ConfigView,
    phase: PhaseView,
    event: EventView,
)
    ensures
        step(config, phase, event).1 matches ActionView::Sleep(seconds) ==> seconds
            == config.scanning_interval,
        step(config, phase, event).1 matches ActionView::Query(request) ==> request
            == locker_query(config.pc_session_id),
{
}

/// Pairs each locker group with the distance at its place.
fn pair(groups: &Vec<LockerGroup>, distances: &Vec<Meters>) -> (sightings: Vec<Sighting>)
    requires
        groups.len() == distances.len(),
    ensures
        sighting_views(sightings@) == sighted(group_views(groups@), distances@),
{
    let mut sightings: Vec<Sighting> = Vec::new();
    let mut i: usize = 0;
    while i < groups.len()
        invariant
            i <= groups.len(),
            groups.len() == distances.len(),
            sightings.len() == i,
            forall|j: int|
                0 <= j < i ==> (#[trigger] sightings[j])@ == (SightingView {
                    group: groups[j]@,
                    distance: distances[j],
                }),
        decreases groups.len() - i,
    {
        sightings.push(Sighting { group: groups[i].clone(), distance: distances[i] });
        i += 1;
    }
    assert(sighting_views(sightings@) == sighted(group_views(groups@), distances@));
    sightings
}

/// Lists where each locker group is.
fn places_of(groups: &Vec<LockerGroup>) -> (points: Vec<(Decimal, Decimal)>)
    ensures
        points@ == places(group_views(groups@)),
{
    let mut points: Vec<(Decimal, Decimal)> = Vec::new();
    let mut i: usize = 0;
    while i < groups.len()
        invariant
            i <= groups.len(),
            points.len() == i,
            forall|j: int| 0 <= j < i ==> #[trigger] points[j] == groups[j].coordinates,
        decreases groups.len() - i,
    {
        points.push(groups[i].coordinates);
        i += 1;
    }
    assert(points@ == places(group_views(groups@)));
    points
}

/// Goes on to the alert at `next`, and to the pause where there is none.
fn deliver_from(config: &Config, alerts: Vec<Alert>, next: usize) -> (r: (Phase, Action))
    ensures
        (r.0@, r.1@) == deliver(config@, alert_views(alerts@), next as nat),
{
    if next < alerts.len() {
        let report = alerts[next].report.clone();
        let request = notification(alerts[next].topic.as_str(), alerts[next].message.as_str());
        (Phase::Notifying { alerts, sent: next }, Action::Notify { report, request })
    } else {
        (Phase::Pausing, Action::Sleep(config.scanning_interval))
    }
}

impl Watch {
    /// Starts a watch: it begins with a query.
    pub fn start(config: Config) -> (r: (Watch, Action))
        ensures
            r.0@.config == config@,
            (r.0@.phase, r.1@) == query(config@),
    {
        let request = LockerGroup::request(config.pc_session_id.as_str());
        (Watch { config, phase: Phase::Querying }, Action::Query(request))
    }

    /// Takes in what the caller tells, and says what to do next.
    pub fn advance(self, event: Event) -> (r: (Watch, Action))
        ensures
            r.0@.config == self@.config,
            (r.0@.phase, r.1@) == step(self@.config, self@.phase, event@),
    {
        let config = self.config;
        let (phase, action) = match self.phase {
            Phase::Stopped(failure) => (Phase::Stopped(failure), Action::Stop(failure)),
            Phase::Querying => match event {
                Event::Answered(text) => match LockerGroup::parse(text.as_str()) {
                    Ok(groups) => {
                        let to = places_of(&groups);
                        (Phase::Measuring(groups), Action::Measure { from: reference_point(), to })
                    },
                    Err(error) => (
                        Phase::Stopped(Failure::Response(error)),
                        Action::Stop(Failure::Response(error)),
                    ),
                },
                Event::Failed => (
                    Phase::Stopped(Failure::Request),
                    Action::Stop(Failure::Request),
                ),
                _ => (Phase::Stopped(Failure::OutOfTurn), Action::Stop(Failure::OutOfTurn)),
            },
            Phase::Measuring(groups) => match event {
                Event::Measured(distances) => {
                    if distances.len() == groups.len() {
                        let sightings = pair(&groups, &distances);
                        deliver_from(&config, alerts(&config, &sightings), 0)
                    } else {
                        (Phase::Stopped(Failure::OutOfTurn), Action::Stop(Failure::OutOfTurn))
                    }
                },
                _ => (Phase::Stopped(Failure::OutOfTurn), Action::Stop(Failure::OutOfTurn)),
            },
            Phase::Notifying { alerts, sent } => match event {
                Event::Delivered => {
                    if sent < alerts.len() {
                        deliver_from(&config, alerts, sent + 1)
                    } else {
                        (Phase::Pausing, Action::Sleep(config.scanning_interval))
                    }
                },
                Event::Failed => (
                    Phase::Stopped(Failure::Notification),
                    Action::Stop(Failure::Notification),
                ),
                _ => (Phase::Stopped(Failure::OutOfTurn), Action::Stop(Failure::OutOfTurn)),
            },
            Phase::Pausing => match event {
                Event::Rested => {
                    let request = LockerGroup::request(config.pc_session_id.as_str());
                    (Phase::Querying, Action::Query(request))
                },
                _ => (Phase::Stopped(Failure::OutOfTurn), Action::Stop(Failure::OutOfTurn)),
            },
        };
        (Watch { config, phase }, action)
    }
}

} // verus!
