use locker_watch::model::{Field, LockerGroup, ParseError};
use locker_watch::value::{Decimal, Entry, Json};

fn record_text(name: &str, latitude: &str, longitude: &str, level: &str) -> String {
    format!(
        "{{\"1\":{{\"str\":\"{}\"}},\"2\":{{\"dbl\":{}}},\"3\":{{\"dbl\":{}}},\"4\":{{\"i32\":{}}}}}",
        name, latitude, longitude, level
    )
}

fn envelope_text(count: &str, records: &[String]) -> String {
    let mut set = format!("[\"rec\",{}", count);
    for record in records {
        set.push(',');
        set.push_str(record);
    }
    set.push(']');
    format!(
        "[1,\"getMapLayerItems2\",2,0,{{\"0\":{{\"rec\":{{\"1\":{{\"i32\":200}},\"2\":{{\"set\":{}}}}}}}}}]",
        set
    )
}

fn decimal(positive: bool, mantissa: u64, exponent: i16) -> Decimal {
    Decimal { positive, mantissa, exponent }
}

fn object(entries: Vec<(&str, Json)>) -> Json {
    Json::Object(
        entries
            .into_iter()
            .map(|(key, value)| Entry { key: String::from(key), value })
            .collect(),
    )
}

fn tagged(tag: &str, value: Json) -> Json {
    object(vec![(tag, value)])
}

fn record_value(name: &str, latitude: Decimal, longitude: Decimal, level: u64) -> Json {
    object(vec![
        ("1", tagged("str", Json::Text(String::from(name)))),
        ("2", tagged("dbl", Json::Number(latitude))),
        ("3", tagged("dbl", Json::Number(longitude))),
        ("4", tagged("i32", Json::Number(decimal(true, level, 0)))),
    ])
}

fn envelope_value(set: Json) -> Json {
    Json::Array(vec![
        Json::Number(decimal(true, 1, 0)),
        Json::Text(String::from("getMapLayerItems2")),
        Json::Number(decimal(true, 2, 0)),
        Json::Number(decimal(true, 0, 0)),
        object(vec![("0", tagged("rec", object(vec![("2", tagged("set", set))])))]),
    ])
}

#[test]
fn parse_reads_every_declared_group_in_order() {
    let text = envelope_text(
        "3",
        &[
            record_text("BC", "46.5186", "6.5619", "1"),
            record_text("INF", "46.51875", "6.56368", "0"),
            record_text("CO", "46.52", "6.565", "-1"),
        ],
    );
    let groups = LockerGroup::parse(&text).unwrap();
    assert_eq!(
        groups,
        vec![
            LockerGroup {
                name: String::from("BC"),
                coordinates: (decimal(true, 465186, -4), decimal(true, 65619, -4)),
                level: 1,
            },
            LockerGroup {
                name: String::from("INF"),
                coordinates: (decimal(true, 4651875, -5), decimal(true, 656368, -5)),
                level: 0,
            },
            LockerGroup {
                name: String::from("CO"),
                coordinates: (decimal(true, 4652, -2), decimal(true, 6565, -3)),
                level: -1,
            },
        ]
    );
}

#[test]
fn parse_of_an_empty_set_is_empty() {
    let text = envelope_text("0", &[]);
    assert_eq!(LockerGroup::parse(&text), Ok(vec![]));
}

#[test]
fn parse_stops_at_the_declared_count() {
    let text = envelope_text(
        "1",
        &[record_text("A", "1.5", "2.5", "3"), record_text("B", "4.5", "5.5", "6")],
    );
    let groups = LockerGroup::parse(&text).unwrap();
    assert_eq!(groups.len(), 1);
    assert_eq!(groups[0].name, "A");
}

#[test]
fn parse_of_a_value_that_is_no_array_is_empty() {
    assert_eq!(LockerGroup::parse("{\"4\": 1}"), Ok(vec![]));
    assert_eq!(LockerGroup::parse("null"), Ok(vec![]));
    assert_eq!(LockerGroup::parse("\"text\""), Ok(vec![]));
    assert_eq!(LockerGroup::parse("17"), Ok(vec![]));
    assert_eq!(LockerGroup::parse("true"), Ok(vec![]));
}

#[test]
fn parse_of_text_that_is_no_json_is_malformed() {
    assert_eq!(LockerGroup::parse(""), Err(ParseError::MalformedResponse));
    assert_eq!(LockerGroup::parse("[1, 2"), Err(ParseError::MalformedResponse));
    assert_eq!(LockerGroup::parse("<html></html>"), Err(ParseError::MalformedResponse));
    assert_eq!(LockerGroup::parse("[] trailing"), Err(ParseError::MalformedResponse));
}

#[test]
fn parse_of_an_array_without_the_set_misses_the_count() {
    assert_eq!(LockerGroup::parse("[]"), Err(ParseError::MissingField(Field::Count)));
    assert_eq!(
        LockerGroup::parse("[1,\"x\",2,0,{\"0\":{\"rec\":{}}}]"),
        Err(ParseError::MissingField(Field::Count))
    );
    assert_eq!(
        LockerGroup::parse("[1,\"x\",2,0,{\"0\":{\"rec\":{\"2\":{\"set\":[\"rec\"]}}}}]"),
        Err(ParseError::MissingField(Field::Count))
    );
}

#[test]
fn parse_takes_a_count_only_as_a_plain_unsigned_integer() {
    for count in ["-1", "-0", "1.0", "1e1", "\"1\"", "null", "10e-1", "99999999999999999999999"] {
        let text = envelope_text(count, &[record_text("A", "1.5", "2.5", "3")]);
        assert_eq!(
            LockerGroup::parse(&text),
            Err(ParseError::MissingField(Field::Count)),
            "count {}",
            count
        );
    }
}

#[test]
fn parse_takes_a_count_with_an_exponent_of_zero() {
    let text = envelope_text("1e0", &[record_text("A", "1.5", "2.5", "3")]);
    assert_eq!(LockerGroup::parse(&text).unwrap().len(), 1);
}

#[test]
fn parse_of_a_set_shorter_than_its_count_misses_a_name() {
    let text = envelope_text("2", &[record_text("A", "1.5", "2.5", "3")]);
    assert_eq!(LockerGroup::parse(&text), Err(ParseError::MissingField(Field::Name)));
}

#[test]
fn parse_of_a_set_with_a_huge_count_misses_a_name() {
    let count = usize::MAX.to_string();
    let text = envelope_text(&count, &[]);
    assert_eq!(LockerGroup::parse(&text), Err(ParseError::MissingField(Field::Name)));
}

#[test]
fn parse_reports_the_name_when_its_tag_is_missing() {
    let bad = String::from(
        "{\"1\":{\"txt\":\"A\"},\"2\":{\"dbl\":1.5},\"3\":{\"dbl\":2.5},\"4\":{\"i32\":3}}",
    );
    let text = envelope_text("2", &[record_text("A", "1.5", "2.5", "3"), bad]);
    assert_eq!(LockerGroup::parse(&text), Err(ParseError::MissingField(Field::Name)));
}

#[test]
fn parse_reports_the_name_when_it_is_no_string() {
    let bad = String::from(
        "{\"1\":{\"str\":7},\"2\":{\"dbl\":1.5},\"3\":{\"dbl\":2.5},\"4\":{\"i32\":3}}",
    );
    let text = envelope_text("1", &[bad]);
    assert_eq!(LockerGroup::parse(&text), Err(ParseError::MissingField(Field::Name)));
}

#[test]
fn parse_reports_the_latitude() {
    let text = envelope_text("1", &[record_text("A", "\"1.5\"", "2.5", "3")]);
    assert_eq!(LockerGroup::parse(&text), Err(ParseError::MissingField(Field::Latitude)));
}

#[test]
fn parse_reports_the_longitude() {
    let text = envelope_text("1", &[record_text("A", "1.5", "null", "3")]);
    assert_eq!(LockerGroup::parse(&text), Err(ParseError::MissingField(Field::Longitude)));
}

#[test]
fn parse_reports_the_level() {
    for level in [
        "\"3\"", "3.5", "3.0", "2147483648", "-2147483649", "1e2", "null", "9223372036854775807",
        "9223372036854775808", "18446744073709551615", "-18446744073709551615",
        "-18446744073709551614", "18446744071562067968", "99999999999999999999999999",
    ] {
        let text = envelope_text("1", &[record_text("A", "1.5", "2.5", level)]);
        assert_eq!(
            LockerGroup::parse(&text),
            Err(ParseError::MissingField(Field::Level)),
            "level {}",
            level
        );
    }
}

#[test]
fn parse_reports_the_first_field_that_is_missing() {
    let text = envelope_text("1", &[String::from("{}")]);
    assert_eq!(LockerGroup::parse(&text), Err(ParseError::MissingField(Field::Name)));
    let text = envelope_text("1", &[String::from("{\"1\":{\"str\":\"A\"}}")]);
    assert_eq!(LockerGroup::parse(&text), Err(ParseError::MissingField(Field::Latitude)));
    let text =
        envelope_text("1", &[String::from("{\"1\":{\"str\":\"A\"},\"2\":{\"dbl\":1}}")]);
    assert_eq!(LockerGroup::parse(&text), Err(ParseError::MissingField(Field::Longitude)));
}

#[test]
fn parse_returns_no_part_of_a_list_with_a_bad_record() {
    let text = envelope_text(
        "3",
        &[
            record_text("A", "1.5", "2.5", "3"),
            record_text("B", "1.5", "2.5", "\"x\""),
            record_text("C", "1.5", "2.5", "3"),
        ],
    );
    assert_eq!(LockerGroup::parse(&text), Err(ParseError::MissingField(Field::Level)));
}

#[test]
fn parse_takes_the_extreme_levels() {
    let text = envelope_text(
        "2",
        &[
            record_text("A", "1.5", "2.5", "2147483647"),
            record_text("B", "1.5", "2.5", "-2147483648"),
        ],
    );
    let groups = LockerGroup::parse(&text).unwrap();
    assert_eq!(groups[0].level, i32::MAX);
    assert_eq!(groups[1].level, i32::MIN);
}

#[test]
fn parse_keeps_names_outside_ascii() {
    let text = envelope_text("1", &[record_text("Bâtiment é", "1.5", "2.5", "3")]);
    let groups = LockerGroup::parse(&text).unwrap();
    assert_eq!(groups[0].name, "Bâtiment é");
}

#[test]
fn parse_takes_coordinates_without_a_fraction() {
    let text = envelope_text("1", &[record_text("A", "-46", "6e-1", "3")]);
    let groups = LockerGroup::parse(&text).unwrap();
    assert_eq!(groups[0].coordinates, (decimal(false, 46, 0), decimal(true, 6, -1)));
}

#[test]
fn from_json_decodes_a_value_written_by_hand() {
    let set = Json::Array(vec![
        Json::Text(String::from("rec")),
        Json::Number(decimal(true, 2, 0)),
        record_value("A", decimal(true, 465, -1), decimal(true, 65, -1), 1),
        record_value("B", decimal(true, 466, -1), decimal(true, 66, -1), 2),
    ]);
    let groups = LockerGroup::from_json(&envelope_value(set)).unwrap();
    assert_eq!(groups.len(), 2);
    assert_eq!(groups[0].name, "A");
    assert_eq!(groups[1].name, "B");
    assert_eq!(groups[1].coordinates, (decimal(true, 466, -1), decimal(true, 66, -1)));
    assert_eq!(groups[1].level, 2);
}

#[test]
fn from_json_agrees_with_parse() {
    let text = envelope_text("1", &[record_text("A", "46.5", "6.5", "1")]);
    let set = Json::Array(vec![
        Json::Text(String::from("rec")),
        Json::Number(decimal(true, 1, 0)),
        record_value("A", decimal(true, 465, -1), decimal(true, 65, -1), 1),
    ]);
    assert_eq!(LockerGroup::parse(&text), LockerGroup::from_json(&envelope_value(set)));
}

#[test]
fn from_json_of_a_value_that_is_no_array_is_empty() {
    assert_eq!(LockerGroup::from_json(&Json::Null), Ok(vec![]));
    assert_eq!(LockerGroup::from_json(&object(vec![])), Ok(vec![]));
}

#[test]
fn from_json_value_decodes_one_record() {
    let record = record_value("A", decimal(true, 465, -1), decimal(false, 65, -1), 4);
    assert_eq!(
        LockerGroup::from_json_value(&record),
        Ok(LockerGroup {
            name: String::from("A"),
            coordinates: (decimal(true, 465, -1), decimal(false, 65, -1)),
            level: 4,
        })
    );
    assert_eq!(
        LockerGroup::from_json_value(&Json::Null),
        Err(ParseError::MissingField(Field::Name))
    );
}

#[test]
fn from_json_value_takes_the_first_of_two_equal_keys() {
    let record = object(vec![
        ("1", tagged("str", Json::Text(String::from("first")))),
        ("1", tagged("str", Json::Text(String::from("second")))),
        ("2", tagged("dbl", Json::Number(decimal(true, 1, 0)))),
        ("3", tagged("dbl", Json::Number(decimal(true, 2, 0)))),
        ("4", tagged("i32", Json::Number(decimal(true, 3, 0)))),
    ]);
    assert_eq!(LockerGroup::from_json_value(&record).unwrap().name, "first");
}

#[test]
fn clone_copies_every_field() {
    let group = LockerGroup {
        name: String::from("A"),
        coordinates: (decimal(true, 465, -1), decimal(false, 65, -1)),
        level: 4,
    };
    assert_eq!(group.clone(), group);
}

#[test]
fn parse_takes_a_name_of_many_digits() {
    let name = "7".repeat(40000);
    let text = envelope_text("1", &[record_text(&name, "1.5", "2.5", "3")]);
    let groups = LockerGroup::parse(&text).unwrap();
    assert_eq!(groups.len(), 1);
    assert_eq!(groups[0].name, name);
    let name = format!("0.{}", "0".repeat(40000));
    let text = envelope_text("1", &[record_text(&name, "1.5", "2.5", "3")]);
    assert_eq!(LockerGroup::parse(&text).unwrap()[0].name, name);
}

#[test]
fn parse_of_a_long_string_that_is_no_array_is_empty() {
    assert_eq!(LockerGroup::parse(&format!("\"{}\"", "7".repeat(32769))), Ok(vec![]));
    assert_eq!(LockerGroup::parse(&format!("\"0.{}\"", "0".repeat(32769))), Ok(vec![]));
    assert_eq!(LockerGroup::parse(&"7".repeat(32769)), Ok(vec![]));
    assert_eq!(LockerGroup::parse(&format!("7e{}", "7".repeat(32769))), Ok(vec![]));
}

#[test]
fn parse_of_a_number_too_long_to_read_is_malformed() {
    let latitude = format!("0.{}", "0".repeat(40000));
    let text = envelope_text("1", &[record_text("A", &latitude, "2.5", "3")]);
    assert_eq!(LockerGroup::parse(&text), Err(ParseError::MalformedResponse));
}

#[test]
fn the_default_group_is_empty() {
    let zero = decimal(true, 0, 0);
    assert_eq!(
        LockerGroup::default(),
        LockerGroup { name: String::new(), coordinates: (zero, zero), level: 0 }
    );
}

#[test]
fn every_field_has_its_complaint() {
    assert_eq!(Field::Count.message(), "count present could not be determined");
    assert_eq!(Field::Name.message(), "name unknown");
    assert_eq!(Field::Latitude.message(), "lat unknown");
    assert_eq!(Field::Longitude.message(), "long unknown");
    assert_eq!(Field::Level.message(), "level unknown");
}
