use geo::{Distance, Haversine, Point, VincentyDistance};
use locker_watch::config::Config;
use locker_watch::distance::Meters;
use locker_watch::model::LockerGroup;
use locker_watch::ntfy::notification;
use locker_watch::value::Decimal;
use locker_watch::poll::{Action, Event, Watch};
use locker_watch::watch::{alerts, reference_point, Sighting};

fn degrees(decimal: Decimal) -> f64 {
    f64::from(json::number::Number::from_parts(
        decimal.positive,
        decimal.mantissa,
        decimal.exponent,
    ))
}

fn point((latitude, longitude): (Decimal, Decimal)) -> Point<f64> {
    Point::new(degrees(longitude), degrees(latitude))
}

fn sight(group: LockerGroup) -> Sighting {
    let here = point(group.coordinates);
    let target = point(reference_point());
    let distance = here
        .vincenty_distance(&target)
        .unwrap_or_else(|_| Haversine::distance(here, target));
    Sighting { group, distance: Meters { bits: distance.to_bits() } }
}

const RESPONSE: &str = "[1,\"getMapLayerItems2\",2,0,{\"0\":{\"rec\":{\"1\":{\"i32\":200},\"2\":{\"set\":[\"rec\",3,\
{\"1\":{\"str\":\"Near\"},\"2\":{\"dbl\":46.5198},\"3\":{\"dbl\":6.567},\"4\":{\"i32\":1}},\
{\"1\":{\"str\":\"Elsewhere\"},\"2\":{\"dbl\":46.2},\"3\":{\"dbl\":6.1},\"4\":{\"i32\":0}},\
{\"1\":{\"str\":\"Named\"},\"2\":{\"dbl\":47.37},\"3\":{\"dbl\":8.54},\"4\":{\"i32\":2}}]}}}}]";

#[test]
fn one_group_in_range_and_one_by_name_give_two_notifications() {
    let config = Config::from_values(
        Some(String::from("id")),
        Some(Meters { bits: 1000f64.to_bits() }),
        Some("Named,Other"),
        None,
    )
    .unwrap();
    let groups = LockerGroup::parse(RESPONSE).unwrap();
    assert_eq!(groups.len(), 3);
    let sightings: Vec<Sighting> = groups.into_iter().map(sight).collect();
    let raised = alerts(&config, &sightings);
    assert_eq!(raised.len(), 2);
    assert!(raised[0].message.contains("Near"));
    assert!(raised[1].message.contains("Named"));
    assert!(raised[0].report.contains("is in range"));
    assert!(!raised[0].report.contains("name matches"));
    assert!(raised[1].report.contains("name matches"));
    assert!(!raised[1].report.contains("is in range"));
    let requests: Vec<_> =
        raised.iter().map(|alert| notification(&alert.topic, &alert.message)).collect();
    assert_eq!(requests[0].url, "https://ntfy.sh/epfl_lockers");
    assert_eq!(requests[0].body, "Lockers available at Near");
    assert_eq!(requests[1].url, "https://ntfy.sh/epfl_lockers");
    assert_eq!(requests[1].body, "Lockers available at Named");
}

#[test]
fn one_cycle_of_the_watch_sends_two_notifications() {
    let config = Config::from_values(
        Some(String::from("id")),
        Some(Meters { bits: 1000f64.to_bits() }),
        Some("Named,Other"),
        None,
    )
    .unwrap();
    let (mut watch, mut action) = Watch::start(config);
    let mut sent: Vec<(String, String)> = Vec::new();
    loop {
        let event = match action {
            Action::Query(_) => Event::Answered(String::from(RESPONSE)),
            Action::Measure { from, to } => Event::Measured(
                to.into_iter()
                    .map(|place| {
                        let here = point(place);
                        let target = point(from);
                        let distance = here
                            .vincenty_distance(&target)
                            .unwrap_or_else(|_| Haversine::distance(here, target));
                        Meters { bits: distance.to_bits() }
                    })
                    .collect(),
            ),
            Action::Notify { request, .. } => {
                sent.push((request.url, request.body));
                Event::Delivered
            }
            Action::Sleep(seconds) => {
                assert_eq!(seconds, 3600);
                break;
            }
            Action::Stop(failure) => panic!("stopped: {:?}", failure),
        };
        (watch, action) = watch.advance(event);
    }
    assert_eq!(
        sent,
        vec![
            (
                String::from("https://ntfy.sh/epfl_lockers"),
                String::from("Lockers available at Near")
            ),
            (
                String::from("https://ntfy.sh/epfl_lockers"),
                String::from("Lockers available at Named")
            ),
        ]
    );
}

#[test]
fn without_limit_and_names_nothing_is_notified() {
    let config = Config::from_values(Some(String::from("id")), None, None, None).unwrap();
    let sightings: Vec<Sighting> =
        LockerGroup::parse(RESPONSE).unwrap().into_iter().map(sight).collect();
    assert_eq!(alerts(&config, &sightings), vec![]);
}

#[test]
fn a_wide_limit_notifies_of_every_group() {
    let config = Config::from_values(
        Some(String::from("id")),
        Some(Meters { bits: 1e9f64.to_bits() }),
        None,
        None,
    )
    .unwrap();
    let sightings: Vec<Sighting> =
        LockerGroup::parse(RESPONSE).unwrap().into_iter().map(sight).collect();
    let raised = alerts(&config, &sightings);
    let messages: Vec<&str> = raised.iter().map(|alert| alert.message.as_str()).collect();
    assert_eq!(
        messages,
        vec![
            "Lockers available at Near",
            "Lockers available at Elsewhere",
            "Lockers available at Named"
        ]
    );
}

#[test]
fn the_reference_point_reads_as_its_degrees() {
    let (latitude, longitude) = reference_point();
    assert_eq!(degrees(latitude), 46.519_704);
    assert_eq!(degrees(longitude), 6.566_954);
}

fn group_at(latitude: Decimal, longitude: Decimal) -> LockerGroup {
    LockerGroup { name: String::from("A"), coordinates: (latitude, longitude), level: 0 }
}

#[test]
fn a_group_at_the_reference_point_is_in_every_range() {
    let (latitude, longitude) = reference_point();
    let sighting = sight(group_at(latitude, longitude));
    assert_eq!(f64::from_bits(sighting.distance.bits), 0.0);
    assert!(locker_watch::watch::is_in_range(Some(Meters { bits: 0f64.to_bits() }), sighting.distance));
}

#[test]
fn a_degree_of_latitude_is_longer_than_one_of_longitude() {
    let (latitude, longitude) = reference_point();
    let north = Decimal { positive: true, mantissa: 47_519_704, exponent: -6 };
    let east = Decimal { positive: true, mantissa: 7_566_954, exponent: -6 };
    let north = f64::from_bits(sight(group_at(north, longitude)).distance.bits);
    let east = f64::from_bits(sight(group_at(latitude, east)).distance.bits);
    assert!(north > 111_000.0 && north < 111_400.0, "north {}", north);
    assert!(east > 76_000.0 && east < 77_500.0, "east {}", east);
}

#[test]
fn a_group_opposite_the_reference_point_has_a_distance() {
    let latitude = Decimal { positive: false, mantissa: 46_519_704, exponent: -6 };
    let longitude = Decimal { positive: false, mantissa: 173_433_046, exponent: -6 };
    let here = point((latitude, longitude));
    assert!(here.vincenty_distance(&point(reference_point())).is_err());
    let sighting = sight(group_at(latitude, longitude));
    let distance = f64::from_bits(sighting.distance.bits);
    assert!(distance.is_finite());
    assert!(distance > 20_000_000.0 && distance < 20_100_000.0);
    assert!(!locker_watch::watch::is_in_range(
        Some(Meters { bits: 1000f64.to_bits() }),
        sighting.distance
    ));
    assert!(locker_watch::watch::is_in_range(
        Some(Meters { bits: f64::INFINITY.to_bits() }),
        sighting.distance
    ));
}
