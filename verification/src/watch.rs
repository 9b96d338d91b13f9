//! One cycle of the watch: which of the locker groups just reported are
//! worth a notification, and what to say of each.
//!
//! A cycle keeps nothing for the next one. A locker group that matches in
//! two cycles is notified in both.

use vstd::prelude::*;
use vstd::string::StringExecFns;
use crate::config::{Config, ConfigView, name_views};
use crate::distance::Meters;
use crate::model::{LockerGroup, LockerGroupView};
use crate::text::{same_text, texts};
use crate::value::Decimal;

verus! {

/// A locker group as one poll found it, with its distance from the
/// reference point.
#[derive(Debug, PartialEq)]
pub struct Sighting {
    pub group: LockerGroup,
    pub distance: Meters,
}

/// The mathematical content of a [`Sighting`].
pub struct SightingView {
    pub group: LockerGroupView,
    pub distance: Meters,
}

impl View for Sighting {
    type V = SightingView;

    open spec fn view(&self) -> SightingView {
        SightingView { group: self.group@, distance: self.distance }
    }
}

/// What to do about one locker group that matched: a line for the log, and
/// a message for a topic.
#[derive(Debug, PartialEq)]
pub struct Alert {
    pub report: String,
    pub topic: String,
    pub message: String,
}

/// The mathematical content of an [`Alert`].
pub struct AlertView {
    pub report: Seq<char>,
    pub topic: Seq<char>,
    pub message: Seq<char>,
}

impl View for Alert {
    type V = AlertView;

    open spec fn view(&self) -> AlertView {
        AlertView { report: self.report@, topic: self.topic@, message: self.message@ }
    }
}

/// The content of a decision on one sighting.
pub open spec fn decision_view(decision: Option<Alert>) -> Option<AlertView> {
    match decision {
        Some(alert) => Some(alert@),
        None => None,
    }
}

/// The content of each sighting of `sightings`, in order.
pub open spec fn sighting_views(sightings: Seq<Sighting>) -> Seq<SightingView> {
    sightings.map_values(|sighting: Sighting| sighting@)
}

/// The content of each alert of `alerts`, in order.
pub open spec fn alert_views(alerts: Seq<Alert>) -> Seq<AlertView> {
    alerts.map_values(|alert: Alert| alert@)
}

/// Whether a locker group at `distance` is in range: a largest distance is
/// configured, and `distance` is no larger.
pub open spec fn in_range(max_distance: Option<Meters>, distance: Meters) -> bool {
    max_distance matches Some(max) && distance.at_most(max)
}

/// Whether `name` is one of the configured names.
pub open spec fn listed(locker_groups: Option<Seq<Seq<char>>>, name: Seq<char>) -> bool {
    locker_groups matches Some(names) && names.contains(name)
}

/// The line that reports a match, with the reasons for it. The word `and`
/// stands in the report of every match, between the places of the two
/// reasons, whether one of them holds or both.
pub open spec fn report_line(name: Seq<char>, is_in_range: bool, name_matches: bool) -> Seq<
    char,
> {
    "Locker "@ + name + " "@ + (if is_in_range {
        "is in range"@
    } else {
        Seq::empty()
    }) + (if is_in_range || name_matches {
        " and "@
    } else {
        Seq::empty()
    }) + (if name_matches {
        "name matches"@
    } else {
        Seq::empty()
    }) + ". Sending notification."@
}

/// The message that tells of the locker group `name`.
pub open spec fn availability_message(name: Seq<char>) -> Seq<char> {
    "Lockers available at "@ + name
}

/// The alert that a sighting calls for: one where the locker group is in
/// range or its name is listed, and one only where it is both.
pub open spec fn alert_for(config: ConfigView, sighting: SightingView) -> Option<AlertView> {
    let is_in_range = in_range(config.max_distance, sighting.distance);
    let name_matches = listed(config.locker_groups, sighting.group.name);
    if is_in_range || name_matches {
        Some(
            AlertView {
                report: report_line(sighting.group.name, is_in_range, name_matches),
                topic: "epfl_lockers"@,
                message: availability_message(sighting.group.name),
            },
        )
    } else {
        None
    }
}

/// The alerts that the sightings of one poll call for, in the order of the
/// sightings.
pub open spec fn alerts_for(config: ConfigView, sightings: Seq<SightingView>) -> Seq<AlertView>
    decreases sightings.len(),
{
    if sightings.len() == 0 {
        Seq::empty()
    } else {
        let earlier = alerts_for(config, sightings.drop_last());
        match alert_for(config, sightings.last()) {
            Some(alert) => earlier.push(alert),
            None => earlier,
        }
    }
}

/// No locker group is notified twice in a cycle: there are at most as many
/// alerts as sightings.
pub proof fn lemma_one_alert_at_most(config: ConfigView, sightings: Seq<SightingView>)
    ensures
        alerts_for(config, sightings).len() <= sightings.len(),
    decreases sightings.len(),
{
    if sightings.len() > 0 {
        lemma_one_alert_at_most(config, sightings.drop_last());
    }
}

/// Where every sighting matches, each gets its alert, at its own place.
pub proof fn lemma_all_matching(config: ConfigView, sightings: Seq<SightingView>)
    requires
        forall|i: int| 0 <= i < sightings.len() ==> alert_for(config, #[trigger] sightings[i]) is Some,
    ensures
        alerts_for(config, sightings).len() == sightings.len(),
        forall|i: int|
            0 <= i < sightings.len() ==> Some(alerts_for(config, sightings)[i]) == alert_for(
                config,
                #[trigger] sightings[i],
            ),
    decreases sightings.len(),
{
    if sightings.len() > 0 {
        let earlier = sightings.drop_last();
        assert forall|i: int| 0 <= i < earlier.len() implies alert_for(
            config,
            #[trigger] earlier[i],
        ) is Some by {
            assert(earlier[i] == sightings[i]);
        }
        lemma_all_matching(config, earlier);
        assert forall|i: int| 0 <= i < sightings.len() implies Some(
            alerts_for(config, sightings)[i],
        ) == alert_for(config, #[trigger] sightings[i]) by {
            if i < earlier.len() {
                assert(earlier[i] == sightings[i]);
            }
        }
    }
}

/// Where no sighting matches, nothing is notified.
pub proof fn lemma_none_matching(config: ConfigView, sightings: Seq<SightingView>)
    requires
        forall|i: int| 0 <= i < sightings.len() ==> alert_for(config, #[trigger] sightings[i]) is None,
    ensures
        alerts_for(config, sightings).len() == 0,
    decreases sightings.len(),
{
    if sightings.len() > 0 {
        let earlier = sightings.drop_last();
        assert forall|i: int| 0 <= i < earlier.len() implies alert_for(
            config,
            #[trigger] earlier[i],
        ) is None by {
            assert(earlier[i] == sightings[i]);
        }
        lemma_none_matching(config, earlier);
    }
}

/// The point that distances are taken from, 46.519704 degrees of latitude
/// and 6.566954 degrees of longitude.
pub open spec fn reference() -> (Decimal, Decimal) {
    (
        Decimal { positive: true, mantissa: 46_519_704, exponent: (-6) as i16 },
        Decimal { positive: true, mantissa: 6_566_954, exponent: (-6) as i16 },
    )
}

/// The point that distances are taken from: latitude and longitude in
/// degrees.
pub fn reference_point() -> (point: (Decimal, Decimal))
    ensures
        point == reference(),
{
    (
        Decimal { positive: true, mantissa: 46_519_704, exponent: -6 },
        Decimal { positive: true, mantissa: 6_566_954, exponent: -6 },
    )
}

/// Whether a locker group at `distance` is in range.
pub fn is_in_range(max_distance: Option<Meters>, distance: Meters) -> (r: bool)
    ensures
        r == in_range(max_distance, distance),
{
    match max_distance {
        Some(max) => distance.at_most(max),
        None => false,
    }
}

/// Whether `name` is one of the configured names.
pub fn name_matches(locker_groups: &Option<Vec<String>>, name: &str) -> (r: bool)
    ensures
        r == listed(name_views(*locker_groups), name@),
{
    match locker_groups {
        Some(names) => {
            let mut i: usize = 0;
            while i < names.len()
                invariant
                    i <= names.len(),
                    *locker_groups == Some(*names),
                    forall|j: int| 0 <= j < i ==> texts(names@)[j] != name@,
                decreases names.len() - i,
            {
                if same_text(names[i].as_str(), name) {
                    assert(texts(names@)[i as int] == name@);
                    return true;
                }
                i += 1;
            }
            false
        },
        None => false,
    }
}

/// Writes the line that reports a match.
pub fn report(name: &str, is_in_range: bool, name_matches: bool) -> (line: String)
    ensures
        line@ == report_line(name@, is_in_range, name_matches),
{
    let line = "Locker ".to_owned().concat(name).concat(" ");
    let line = line.concat(
        if is_in_range {
            "is in range"
        } else {
            ""
        },
    );
    let line = line.concat(
        if is_in_range || name_matches {
            " and "
        } else {
            ""
        },
    );
    let line = line.concat(
        if name_matches {
            "name matches"
        } else {
            ""
        },
    );
    proof {
        reveal_strlit("");
        assert(""@ == Seq::<char>::empty());
    }
    line.concat(". Sending notification.")
}

/// Decides on one sighting.
pub fn alert(config: &Config, sighting: &Sighting) -> (r: Option<Alert>)
    ensures
        decision_view(r) == alert_for(config@, sighting@),
{
    let is_in_range = is_in_range(config.max_distance, sighting.distance);
    let name_matches = name_matches(&config.locker_groups, sighting.group.name.as_str());
    if is_in_range || name_matches {
        Some(
            Alert {
                report: report(sighting.group.name.as_str(), is_in_range, name_matches),
                topic: "epfl_lockers".to_owned(),
                message: "Lockers available at ".to_owned().concat(sighting.group.name.as_str()),
            },
        )
    } else {
        None
    }
}

/// Decides on the sightings of one poll: the alerts to raise, in order.
pub fn alerts(config: &Config, sightings: &Vec<Sighting>) -> (raised: Vec<Alert>)
    ensures
        alert_views(raised@) == alerts_for(config@, sighting_views(sightings@)),
{
    let mut raised: Vec<Alert> = Vec::new();
    let mut i: usize = 0;
    assert(sighting_views(sightings@).take(0) == Seq::<SightingView>::empty());
    assert(alert_views(raised@) == Seq::<AlertView>::empty());
    while i < sightings.len()
        invariant
            i <= sightings.len(),
            alert_views(raised@) == alerts_for(
                config@,
                sighting_views(sightings@).take(i as int),
            ),
        decreases sightings.len() - i,
    {
        let ghost seen = sighting_views(sightings@).take(i as int);
        let ghost more = sighting_views(sightings@).take(i + 1);
        let ghost before = alert_views(raised@);
        assert(more.drop_last() == seen);
        assert(more.last() == sightings[i as int]@);
        match alert(config, &sightings[i]) {
            Some(one) => {
                raised.push(one);
                assert(alert_views(raised@) == before.push(one@));
            },
            None => {},
        }
        i += 1;
    }
    assert(sighting_views(sightings@).take(sightings.len() as int) == sighting_views(sightings@));
    raised
}

} // verus!
