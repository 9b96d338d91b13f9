//! Locker groups, and the decoder that reads them out of a response.
//!
//! The service answers with an envelope in which every value is tagged with
//! its type: `"rec"` holds a record whose fields are keyed by position,
//! `"set"` a collection that starts with its element type and its count,
//! `"str"`, `"dbl"` and `"i32"` a primitive. The locker groups are the
//! elements of one set at a fixed place in that envelope.

use vstd::prelude::*;
use crate::http::{Header, PostRequest, PostRequestView, header_views};
use crate::value::{Decimal, Json, JsonView, value_of};

verus! {

/// A named cluster of lockers, where it is and on which level.
#[derive(Debug, PartialEq)]
pub struct LockerGroup {
    pub name: String,
    /// Latitude and longitude in degrees, as the response spelled them.
    pub coordinates: (Decimal, Decimal),
    pub level: i32,
}

/// The mathematical content of a [`LockerGroup`].
pub struct LockerGroupView {
    pub name: Seq<char>,
    pub coordinates: (Decimal, Decimal),
    pub level: i32,
}

impl View for LockerGroup {
    type V = LockerGroupView;

    open spec fn view(&self) -> LockerGroupView {
        LockerGroupView { name: self.name@, coordinates: self.coordinates, level: self.level }
    }
}

impl Default for LockerGroup {
    /// A locker group without a name, at zero degrees, on level zero.
    fn default() -> (group: LockerGroup)
        ensures
            group@ == (LockerGroupView {
                name: Seq::empty(),
                coordinates: (
                    Decimal { positive: true, mantissa: 0, exponent: 0 },
                    Decimal { positive: true, mantissa: 0, exponent: 0 },
                ),
                level: 0,
            }),
    {
        let zero = Decimal { positive: true, mantissa: 0, exponent: 0 };
        LockerGroup { name: String::new(), coordinates: (zero, zero), level: 0 }
    }
}

impl Clone for LockerGroup {
    fn clone(&self) -> (copy: LockerGroup)
        ensures
            copy@ == self@,
    {
        LockerGroup {
            name: self.name.clone(),
            coordinates: (self.coordinates.0, self.coordinates.1),
            level: self.level,
        }
    }
}

/// What a response has to carry for the decoder to succeed.
#[derive(Debug, Clone, Copy, PartialEq, Eq, Structural)]
pub enum Field {
    /// How many locker groups the set holds.
    Count,
    Name,
    Latitude,
    Longitude,
    Level,
}

impl Field {
    /// What to say of a response that lacks the field.
    pub open spec fn complaint(self) -> Seq<char> {
        match self {
            Field::Count => "count present could not be determined"@,
            Field::Name => "name unknown"@,
            Field::Latitude => "lat unknown"@,
            Field::Longitude => "long unknown"@,
            Field::Level => "level unknown"@,
        }
    }

    /// Says what a response that lacks the field is refused for.
    pub fn message(&self) -> (text: String)
        ensures
            text@ == self.complaint(),
    {
        match self {
            Field::Count => "count present could not be determined".to_owned(),
            Field::Name => "name unknown".to_owned(),
            Field::Latitude => "lat unknown".to_owned(),
            Field::Longitude => "long unknown".to_owned(),
            Field::Level => "level unknown".to_owned(),
        }
    }
}

/// Why a response could not be decoded.
#[derive(Debug, Clone, Copy, PartialEq, Eq, Structural)]
pub enum ParseError {
    /// The text is not JSON.
    MalformedResponse,
    /// The field is absent, or holds a value of another type.
    MissingField(Field),
}

/// The request that asks the service for the locker groups now available,
/// on behalf of the session `auth_pcsessid`. Address, body and all headers
/// but the session's are fixed. The service is expected to answer directly,
/// so no redirect is followed.
pub open spec fn locker_query(auth_pcsessid: Seq<char>) -> PostRequestView {
    PostRequestView {
        url: "https://campus.epfl.ch/deploy/backend_proxy/14620/lockers/js-map"@,
        headers: seq![
            ("Content-Type"@, "application/vnd.apache.thrift.json; charset=UTF-8"@),
            ("X-PC-APP-IDENTIFIER"@, "org.pocketcampus"@),
            ("X-PC-APP-VERSION"@, "3"@),
            ("X-PC-AUTH-PCSESSID"@, auth_pcsessid),
            ("X-PC-LANG-CODE"@, "en"@),
            ("X-PC-PUSHNOTIF-OS"@, "WEB"@),
        ],
        body: "[1,\"getMapLayerItems2\",1,0,{\"1\":{\"rec\":{\"1\":{\"set\":[\"str\",1,\"available_locker_groups\"]},\"2\":{\"tf\":0}}}}]"@,
        follow_redirects: false,
    }
}

/// The set of locker groups inside the envelope `root`.
pub open spec fn locker_set(root: JsonView) -> JsonView {
    root.at(4).get("0"@).get("rec"@).get("2"@).get("set"@)
}

/// The count that a set declares, after its element type.
pub open spec fn declared_count(set: JsonView) -> Option<usize> {
    set.at(1).as_usize()
}

/// The `index`-th element of a set, after its element type and its count.
pub open spec fn record(set: JsonView, index: int) -> JsonView {
    set.at(index + 2)
}

/// The locker group that one record spells: its name has to be a string,
/// its latitude and its longitude numbers, and its level an integer that an
/// `i32` holds. The fields are read in the order name, latitude, longitude,
/// level, and the first one missing is reported.
pub open spec fn decode_record(value: JsonView) -> Result<LockerGroupView, ParseError> {
    match value.get("1"@).get("str"@).text() {
        None => Err(ParseError::MissingField(Field::Name)),
        Some(name) => match value.get("2"@).get("dbl"@).number() {
            None => Err(ParseError::MissingField(Field::Latitude)),
            Some(latitude) => match value.get("3"@).get("dbl"@).number() {
                None => Err(ParseError::MissingField(Field::Longitude)),
                Some(longitude) => match value.get("4"@).get("i32"@).as_i32() {
                    None => Err(ParseError::MissingField(Field::Level)),
                    Some(level) => Ok(
                        LockerGroupView { name, coordinates: (latitude, longitude), level },
                    ),
                },
            },
        },
    }
}

/// The first `count` records of `set`, in order, or the error of the first
/// one that does not decode.
pub open spec fn decode_records(set: JsonView, count: nat) -> Result<
    Seq<LockerGroupView>,
    ParseError,
>
    decreases count,
{
    if count == 0 {
        Ok(Seq::empty())
    } else {
        match decode_records(set, (count - 1) as nat) {
            Err(error) => Err(error),
            Ok(groups) => match decode_record(record(set, count - 1)) {
                Err(error) => Err(error),
                Ok(group) => Ok(groups.push(group)),
            },
        }
    }
}

/// The locker groups that the envelope `root` holds. A value that is no
/// array holds none; an array has to declare a count and to hold as many
/// records that decode.
pub open spec fn decode(root: JsonView) -> Result<Seq<LockerGroupView>, ParseError> {
    if !(root is Array) {
        Ok(Seq::empty())
    } else {
        match declared_count(locker_set(root)) {
            None => Err(ParseError::MissingField(Field::Count)),
            Some(count) => decode_records(locker_set(root), count as nat),
        }
    }
}

/// The locker groups that a response text holds.
pub open spec fn decode_text(text: Seq<char>) -> Result<Seq<LockerGroupView>, ParseError> {
    match value_of(text) {
        None => Err(ParseError::MalformedResponse),
        Some(root) => decode(root),
    }
}

/// The content of a decoder's outcome.
pub open spec fn group_view(outcome: Result<LockerGroup, ParseError>) -> Result<
    LockerGroupView,
    ParseError,
> {
    match outcome {
        Ok(group) => Ok(group@),
        Err(error) => Err(error),
    }
}

/// The content of each locker group of `groups`, in order.
pub open spec fn group_views(groups: Seq<LockerGroup>) -> Seq<LockerGroupView> {
    groups.map_values(|group: LockerGroup| group@)
}

/// The content of a decoder's outcome.
pub open spec fn groups_view(outcome: Result<Vec<LockerGroup>, ParseError>) -> Result<
    Seq<LockerGroupView>,
    ParseError,
> {
    match outcome {
        Ok(groups) => Ok(group_views(groups@)),
        Err(error) => Err(error),
    }
}

/// Once a record fails, every longer run of records fails with its error.
proof fn lemma_error_persists(set: JsonView, failed: nat, count: nat)
    requires
        failed <= count,
        decode_records(set, failed) is Err,
    ensures
        decode_records(set, count) == decode_records(set, failed),
    decreases count,
{
    if failed < count {
        lemma_error_persists(set, failed, (count - 1) as nat);
    }
}

/// A run of records that all decode gives as many locker groups, each at
/// the place of its record.
proof fn lemma_records_decode(set: JsonView, count: nat)
    requires
        forall|i: int| 0 <= i < count ==> decode_record(#[trigger] record(set, i)) is Ok,
    ensures
        decode_records(set, count) matches Ok(groups) && groups.len() == count && forall|i: int|
            0 <= i < count ==> Ok::<_, ParseError>(groups[i]) == decode_record(
                #[trigger] record(set, i),
            ),
    decreases count,
{
    if count > 0 {
        lemma_records_decode(set, (count - 1) as nat);
        assert(decode_record(record(set, count - 1)) is Ok);
    }
}

/// A run of records fails as soon as it reaches one that does not decode,
/// and only ever for a missing field.
proof fn lemma_records_fail(set: JsonView, index: nat, count: nat)
    requires
        index < count,
        decode_record(record(set, index as int)) is Err,
    ensures
        decode_records(set, count) matches Err(ParseError::MissingField(_)),
    decreases count,
{
    if index + 1 == count {
        if decode_records(set, index) is Err {
            lemma_records_error_kind(set, index);
        }
    } else {
        lemma_records_fail(set, index, (count - 1) as nat);
    }
}

/// A run of records fails only for a missing field.
proof fn lemma_records_error_kind(set: JsonView, count: nat)
    ensures
        decode_records(set, count) matches Err(error) ==> error is MissingField,
    decreases count,
{
    if count > 0 {
        lemma_records_error_kind(set, (count - 1) as nat);
    }
}

/// A record decodes exactly where its four fields are there, each of its
/// type; the level is of its type where it is a number written without
/// fraction or exponent that lies, with its sign, in the range of an `i32`.
pub proof fn lemma_record_decodes_when_complete(value: JsonView)
    ensures
        decode_record(value) is Ok <==> {
            let level = value.get("4"@).get("i32"@);
            &&& value.get("1"@).get("str"@) is Text
            &&& value.get("2"@).get("dbl"@) is Number
            &&& value.get("3"@).get("dbl"@) is Number
            &&& level is Number
            &&& level->Number_0.exponent == 0
            &&& if level->Number_0.positive {
                level->Number_0.mantissa <= i32::MAX
            } else {
                level->Number_0.mantissa <= -(i32::MIN as int)
            }
        },
{
}

/// Whether `root` has the shape of a response: an array that declares a
/// count and holds as many records that decode.
pub open spec fn well_formed(root: JsonView) -> bool {
    &&& root is Array
    &&& declared_count(locker_set(root)) matches Some(count) && forall|i: int|
        0 <= i < count ==> decode_record(#[trigger] record(locker_set(root), i)) is Ok
}

/// A response of the right shape decodes to as many locker groups as it
/// declares, and the group at each place is the one that the record at that
/// place spells: the order of the response is kept.
pub proof fn lemma_well_formed_decodes_in_order(root: JsonView)
    requires
        well_formed(root),
    ensures
        decode(root) matches Ok(groups) && groups.len() == declared_count(
            locker_set(root),
        ).unwrap() && forall|i: int|
            0 <= i < groups.len() ==> Ok::<_, ParseError>(groups[i]) == decode_record(
                #[trigger] record(locker_set(root), i),
            ),
{
    lemma_records_decode(locker_set(root), declared_count(locker_set(root)).unwrap() as nat);
}

/// A response whose top-level value is no array holds no locker group, and
/// that is no error.
pub proof fn lemma_non_array_holds_nothing(root: JsonView)
    requires
        !(root is Array),
    ensures
        decode(root) == Ok::<_, ParseError>(Seq::<LockerGroupView>::empty()),
{
}

/// An array that declares no count is refused for that field.
pub proof fn lemma_missing_count_fails(root: JsonView)
    requires
        root is Array,
        declared_count(locker_set(root)) is None,
    ensures
        decode(root) == Err::<Seq<LockerGroupView>, _>(ParseError::MissingField(Field::Count)),
{
}

/// One record that does not decode spoils the whole response: the outcome is
/// a missing field and no locker group, whatever the other records hold.
pub proof fn lemma_bad_record_fails(root: JsonView, index: int)
    requires
        root is Array,
        declared_count(locker_set(root)) matches Some(count) && 0 <= index < count,
        decode_record(record(locker_set(root), index)) is Err,
    ensures
        decode(root) matches Err(ParseError::MissingField(_)),
{
    lemma_records_fail(
        locker_set(root),
        index as nat,
        declared_count(locker_set(root)).unwrap() as nat,
    );
}

/// Decoding never reports malformed text: that is for text that is no JSON.
pub proof fn lemma_decode_error_is_missing_field(root: JsonView)
    ensures
        decode(root) matches Err(error) ==> error is MissingField,
{
    if root is Array && declared_count(locker_set(root)) is Some {
        lemma_records_error_kind(
            locker_set(root),
            declared_count(locker_set(root)).unwrap() as nat,
        );
    }
}

/// Text is decoded as the value it spells, so that what holds of decoding
/// a value holds of decoding its text; and text is malformed exactly where
/// it spells no value.
pub proof fn lemma_text_decodes_as_its_value(text: Seq<char>)
    ensures
        match value_of(text) {
            Some(root) => decode_text(text) == decode(root),
            None => decode_text(text) == Err::<Seq<LockerGroupView>, _>(
                ParseError::MalformedResponse,
            ),
        },
        decode_text(text) == Err::<Seq<LockerGroupView>, _>(ParseError::MalformedResponse)
            <==> value_of(text) is None,
{
    if value_of(text) is Some {
        lemma_decode_error_is_missing_field(value_of(text).unwrap());
    }
}

/// A JSON array has no element at an index that a `usize` cannot hold.
proof fn lemma_array_is_bounded(value: &Json, index: int)
    requires
        index > usize::MAX,
    ensures
        value@.at(index) == JsonView::Null,
{
}

impl LockerGroup {
    /// Describes the request for the locker groups; what the service
    /// answers goes to [`LockerGroup::parse`].
    pub fn request(auth_pcsessid: &str) -> (request: PostRequest)
        ensures
            request@ == locker_query(auth_pcsessid@),
    {
        let mut headers: Vec<Header> = Vec::new();
        headers.push(
            Header::new("Content-Type", "application/vnd.apache.thrift.json; charset=UTF-8"),
        );
        headers.push(Header::new("X-PC-APP-IDENTIFIER", "org.pocketcampus"));
        headers.push(Header::new("X-PC-APP-VERSION", "3"));
        headers.push(Header::new("X-PC-AUTH-PCSESSID", auth_pcsessid));
        headers.push(Header::new("X-PC-LANG-CODE", "en"));
        headers.push(Header::new("X-PC-PUSHNOTIF-OS", "WEB"));
        assert(header_views(headers@) == locker_query(auth_pcsessid@).headers);
        PostRequest {
            url: "https://campus.epfl.ch/deploy/backend_proxy/14620/lockers/js-map".to_owned(),
            headers,
            body: "[1,\"getMapLayerItems2\",1,0,{\"1\":{\"rec\":{\"1\":{\"set\":[\"str\",1,\"available_locker_groups\"]},\"2\":{\"tf\":0}}}}]".to_owned(),
            follow_redirects: false,
        }
    }

    /// Decodes one record of the set.
    pub fn from_json_value(set: &Json) -> (r: Result<LockerGroup, ParseError>)
        ensures
            group_view(r) == decode_record(set@),
    {
        let name = match set.member("1").member("str").as_str() {
            Some(text) => text.to_owned(),
            None => return Err(ParseError::MissingField(Field::Name)),
        };
        let latitude = match set.member("2").member("dbl").as_number() {
            Some(number) => number,
            None => return Err(ParseError::MissingField(Field::Latitude)),
        };
        let longitude = match set.member("3").member("dbl").as_number() {
            Some(number) => number,
            None => return Err(ParseError::MissingField(Field::Longitude)),
        };
        let level = match set.member("4").member("i32").as_i32() {
            Some(number) => number,
            None => return Err(ParseError::MissingField(Field::Level)),
        };
        Ok(LockerGroup { name, coordinates: (latitude, longitude), level })
    }

    /// Decodes the locker groups of a parsed response.
    pub fn from_json(root: &Json) -> (r: Result<Vec<LockerGroup>, ParseError>)
        ensures
            groups_view(r) == decode(root@),
    {
        let mut locker_groups: Vec<LockerGroup> = Vec::new();
        assert(group_views(locker_groups@) == Seq::<LockerGroupView>::empty());
        if root.is_array() {
            let set = root.element(4).member("0").member("rec").member("2").member("set");
            let count_present = match set.element(1).as_usize() {
                Some(count) => count,
                None => return Err(ParseError::MissingField(Field::Count)),
            };
            let mut index: usize = 0;
            while index < count_present
                invariant
                    index <= count_present,
                    root@ is Array,
                    set@ == locker_set(root@),
                    declared_count(set@) == Some(count_present),
                    decode_records(set@, index as nat) == Ok::<_, ParseError>(
                        group_views(locker_groups@),
                    ),
                decreases count_present - index,
            {
                if index >= usize::MAX - 1 {
                    proof {
                        lemma_array_is_bounded(set, index + 2);
                        lemma_error_persists(set@, (index + 1) as nat, count_present as nat);
                    }
                    return Err(ParseError::MissingField(Field::Name));
                }
                match Self::from_json_value(set.element(index + 2)) {
                    Ok(group) => {
                        assert(group_views(locker_groups@.push(group)) == group_views(
                            locker_groups@,
                        ).push(group@));
                        locker_groups.push(group);
                    },
                    Err(error) => {
                        proof {
                            lemma_error_persists(set@, (index + 1) as nat, count_present as nat);
                        }
                        return Err(error);
                    },
                }
                index += 1;
            }
        }
        Ok(locker_groups)
    }

    /// Decodes the locker groups of a response text.
    pub fn parse(json_text: &str) -> (r: Result<Vec<LockerGroup>, ParseError>)
        ensures
            groups_view(r) == decode_text(json_text@),
    {
        match Json::parse(json_text) {
            Some(root) => Self::from_json(&root),
            None => Err(ParseError::MalformedResponse),
        }
    }
}

} // verus!
