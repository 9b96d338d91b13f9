//! JSON values as plain data, and the accessors a decoder navigates with.
//!
//! Every accessor is total: asking an array for an index it lacks, an object
//! for a key it lacks, or a value of the wrong kind for anything, yields
//! `Null` or `None` and never fails.

use json::JsonValue;
use vstd::prelude::*;
use vstd::utf8::encode_utf8;
use crate::text::same_text;

verus! {

#[verifier::external_type_specification]
#[verifier::external_body]
pub struct ExJsonValue(JsonValue);

#[verifier::external_type_specification]
#[verifier::external_body]
pub struct ExJsonError(json::Error);

/// A JSON number as it was written: `mantissa * 10^exponent`, negated unless
/// `positive`.
#[derive(Clone, Copy, Debug, PartialEq, Eq, Structural)]
pub struct Decimal {
    pub positive: bool,
    pub mantissa: u64,
    pub exponent: i16,
}

/// One key of a JSON object with the value it maps to.
#[derive(Debug, PartialEq)]
pub struct Entry {
    pub key: String,
    pub value: Json,
}

/// A JSON value. An object keeps its entries in the order they were written.
#[derive(Debug, PartialEq)]
pub enum Json {
    Null,
    Boolean(bool),
    Number(Decimal),
    Text(String),
    Array(Vec<Json>),
    Object(Vec<Entry>),
}

/// The mathematical content of a [`Json`] value.
pub enum JsonView {
    Null,
    Boolean(bool),
    Number(Decimal),
    Text(Seq<char>),
    Array(Seq<JsonView>),
    Object(Seq<(Seq<char>, JsonView)>),
}

/// The content of `value`: its own kind, and the content of what it holds.
pub open spec fn content(value: Json) -> JsonView
    decreases value,
{
    match value {
        Json::Null => JsonView::Null,
        Json::Boolean(b) => JsonView::Boolean(b),
        Json::Number(d) => JsonView::Number(d),
        Json::Text(s) => JsonView::Text(s@),
        Json::Array(items) => JsonView::Array(
            Seq::new(
                items.len() as nat,
                |i: int|
                    if 0 <= i < items.len() {
                        content(items[i])
                    } else {
                        JsonView::Null
                    },
            ),
        ),
        Json::Object(entries) => JsonView::Object(
            Seq::new(
                entries.len() as nat,
                |i: int|
                    if 0 <= i < entries.len() {
                        (entries[i].key@, content(entries[i].value))
                    } else {
                        (Seq::empty(), JsonView::Null)
                    },
            ),
        ),
    }
}

impl View for Json {
    type V = JsonView;

    open spec fn view(&self) -> JsonView {
        content(*self)
    }
}

/// The value that the first entry under `key` holds, `Null` where no entry
/// has that key.
pub open spec fn lookup(entries: Seq<(Seq<char>, JsonView)>, key: Seq<char>) -> JsonView
    decreases entries.len(),
{
    if entries.len() == 0 {
        JsonView::Null
    } else if entries[0].0 == key {
        entries[0].1
    } else {
        lookup(entries.drop_first(), key)
    }
}

/// The most digits that a fraction may have for the parser to be given it.
/// The parser counts the digits after the point of a number in sixteen
/// bits, and more of them would run that count over.
pub const MAX_DIGITS: usize = 32768;

/// Whether `byte` is an ASCII decimal digit.
pub open spec fn is_digit_byte(byte: u8) -> bool {
    0x30 <= byte <= 0x39
}

/// Where a place in JSON text lies with respect to its strings.
#[derive(Clone, Copy, Debug, PartialEq, Eq, Structural)]
pub enum Place {
    /// Outside every string.
    Outside,
    /// Inside a string.
    Inside,
    /// Inside a string, just after a backslash: the next byte is escaped.
    Escaped,
}

/// Where the place after `byte` lies, when the place before it is `before`:
/// a quote opens a string and closes it, unless a backslash escapes it.
pub open spec fn place_after(before: Place, byte: u8) -> Place {
    match before {
        Place::Outside => if byte == 0x22 {
            Place::Inside
        } else {
            Place::Outside
        },
        Place::Inside => if byte == 0x22 {
            Place::Outside
        } else if byte == 0x5c {
            Place::Escaped
        } else {
            Place::Inside
        },
        Place::Escaped => Place::Inside,
    }
}

/// Where the place just before the byte at `at` lies.
pub open spec fn place(bytes: Seq<u8>, at: int) -> Place
    decreases at,
{
    if 0 < at <= bytes.len() {
        place_after(place(bytes, at - 1), bytes[at - 1])
    } else {
        Place::Outside
    }
}

/// The digits of a fraction that end just before `end`: how many digits
/// stand between a point outside every string and `end`, with nothing else
/// between them; `None` where the bytes before `end` are no such run.
pub open spec fn fraction_before(bytes: Seq<u8>, end: int) -> Option<nat>
    decreases end,
{
    if 0 < end <= bytes.len() {
        let byte = bytes[end - 1];
        if byte == 0x2e && place(bytes, end - 1) == Place::Outside {
            Some(0)
        } else if is_digit_byte(byte) {
            match fraction_before(bytes, end - 1) {
                Some(digits) => Some(digits + 1),
                None => None,
            }
        } else {
            None
        }
    } else {
        None
    }
}

/// Whether no point outside a string is followed by more than
/// [`MAX_DIGITS`] digits.
pub open spec fn fractions_fit(bytes: Seq<u8>) -> bool {
    forall|end: int|
        0 <= end <= bytes.len() ==> (#[trigger] fraction_before(bytes, end) matches Some(digits)
            ==> digits <= MAX_DIGITS)
}

/// Text without a point holds no fraction, so it fits however many digits
/// it has in a row: a long name, a long integer and a long exponent are
/// all handed to the parser.
pub proof fn lemma_text_without_point_fits(bytes: Seq<u8>)
    requires
        forall|i: int| 0 <= i < bytes.len() ==> bytes[i] != 0x2e,
    ensures
        fractions_fit(bytes),
{
    assert forall|end: int| 0 <= end <= bytes.len() implies fraction_before(bytes, end)
        is None by {
        lemma_no_point_no_fraction(bytes, end);
    }
}

/// Where no point stands before `end`, no fraction ends there.
proof fn lemma_no_point_no_fraction(bytes: Seq<u8>, end: int)
    requires
        0 <= end <= bytes.len(),
        forall|i: int| 0 <= i < bytes.len() ==> bytes[i] != 0x2e,
    ensures
        fraction_before(bytes, end) is None,
    decreases end,
{
    if end > 0 {
        lemma_no_point_no_fraction(bytes, end - 1);
    }
}

/// What the `json` crate's parser makes of `text`: the content of the value
/// it reads, or `None` where it reports an error.
pub uninterp spec fn parsed(text: Seq<char>) -> Option<JsonView>;

/// The JSON value that `text` spells, if it spells one: what the parser
/// makes of it. Text in which a number has a fraction of more than
/// [`MAX_DIGITS`] digits spells none: it is kept from the parser.
pub open spec fn value_of(text: Seq<char>) -> Option<JsonView> {
    if fractions_fit(encode_utf8(text)) {
        parsed(text)
    } else {
        None
    }
}

/// The content of an outcome of reading.
pub open spec fn read_view(outcome: Option<Json>) -> Option<JsonView> {
    match outcome {
        Some(value) => Some(value@),
        None => None,
    }
}

/// Runs `json::parse` on `text` and hands the value over as a [`Json`].
/// Trusted: that the parser returns on text whose fractions fit, and that
/// the outcome depends on the characters of `text` alone, so that it can be
/// called [`parsed`]. Nothing is claimed of what a text parses to.
#[verifier::external_body]
fn parse_text(text: &str) -> (r: Result<Json, json::Error>)
    requires
        fractions_fit(encode_utf8(text@)),
    ensures
        r is Ok <==> parsed(text@) is Some,
        r matches Ok(value) ==> parsed(text@) == Some(value@),
{
    match json::parse(text) {
        Ok(value) => Ok(tree_of(&value)),
        Err(error) => Err(error),
    }
}

/// Copies a `json::JsonValue` into a [`Json`], variant by variant: both of
/// the crate's string variants become `Text`, a number is taken apart with
/// `Number::as_parts`, an object's entries are walked in the order of
/// `Object::iter`. Trusted as a conversion; it has no contract.
#[verifier::external_body]
fn tree_of(value: &JsonValue) -> Json {
    match value {
        JsonValue::Null => Json::Null,
        JsonValue::Short(s) => Json::Text(s.as_str().to_string()),
        JsonValue::String(s) => Json::Text(s.clone()),
        JsonValue::Number(n) => {
            let (positive, mantissa, exponent) = n.as_parts();
            Json::Number(Decimal { positive, mantissa, exponent })
        },
        JsonValue::Boolean(b) => Json::Boolean(*b),
        JsonValue::Object(o) => Json::Object(
            o.iter().map(|(k, v)| Entry { key: k.to_string(), value: tree_of(v) }).collect(),
        ),
        JsonValue::Array(a) => Json::Array(a.iter().map(tree_of).collect()),
    }
}

impl Place {
    /// Where the place after `byte` lies.
    fn after(self, byte: u8) -> (next: Place)
        ensures
            next == place_after(self, byte),
    {
        match self {
            Place::Outside => if byte == 0x22 {
                Place::Inside
            } else {
                Place::Outside
            },
            Place::Inside => if byte == 0x22 {
                Place::Outside
            } else if byte == 0x5c {
                Place::Escaped
            } else {
                Place::Inside
            },
            Place::Escaped => Place::Inside,
        }
    }
}

/// Whether no point outside a string is followed by more than
/// [`MAX_DIGITS`] digits.
fn fractions_fit_in(bytes: &[u8]) -> (fit: bool)
    ensures
        fit == fractions_fit(bytes@),
{
    let mut here = Place::Outside;
    let mut fraction: Option<usize> = None;
    let mut i: usize = 0;
    while i < bytes.len()
        invariant
            i <= bytes.len(),
            here == place(bytes@, i as int),
            match fraction {
                Some(digits) => fraction_before(bytes@, i as int) == Some(digits as nat),
                None => fraction_before(bytes@, i as int) is None,
            },
            forall|end: int|
                0 <= end <= i ==> (#[trigger] fraction_before(bytes@, end) matches Some(digits)
                    ==> digits <= MAX_DIGITS),
        decreases bytes.len() - i,
    {
        let byte: u8 = bytes[i];
        let longer: Option<usize> = if byte == 0x2e && here == Place::Outside {
            Some(0)
        } else if 0x30 <= byte && byte <= 0x39 {
            match fraction {
                Some(digits) => {
                    if digits == MAX_DIGITS {
                        assert(fraction_before(bytes@, i + 1) == Some((MAX_DIGITS + 1) as nat));
                        return false;
                    }
                    Some(digits + 1)
                },
                None => None,
            }
        } else {
            None
        };
        fraction = longer;
        here = here.after(byte);
        i += 1;
    }
    true
}

impl Decimal {
    /// The number as a `usize`: it has to be written without sign, fraction
    /// or exponent, and to fit.
    pub open spec fn spec_as_usize(self) -> Option<usize> {
        if self.positive && self.exponent == 0 && self.mantissa <= usize::MAX {
            Some(self.mantissa as usize)
        } else {
            None
        }
    }

    /// The number as an `i32`: it has to be written without fraction or
    /// exponent, and the mantissa with its sign has to fit.
    pub open spec fn spec_as_i32(self) -> Option<i32> {
        let value = if self.positive {
            self.mantissa as int
        } else {
            -(self.mantissa as int)
        };
        if self.exponent == 0 && i32::MIN <= value <= i32::MAX {
            Some(value as i32)
        } else {
            None
        }
    }

    /// The number as a `usize`, where it is one.
    #[verifier::when_used_as_spec(spec_as_usize)]
    pub fn as_usize(self) -> (r: Option<usize>)
        ensures
            r == self.spec_as_usize(),
    {
        if self.positive && self.exponent == 0 && self.mantissa <= usize::MAX as u64 {
            Some(self.mantissa as usize)
        } else {
            None
        }
    }

    /// The number as an `i32`, where it is one.
    #[verifier::when_used_as_spec(spec_as_i32)]
    pub fn as_i32(self) -> (r: Option<i32>)
        ensures
            r == self.spec_as_i32(),
    {
        if self.exponent != 0 {
            return None;
        }
        if self.mantissa <= 0x7fff_ffff {
            let small: i32 = self.mantissa as i32;
            if self.positive {
                Some(small)
            } else {
                Some(-small)
            }
        } else if self.mantissa == 0x8000_0000 && !self.positive {
            Some(i32::MIN)
        } else {
            None
        }
    }
}

impl JsonView {
    /// The element of an array at `index`; `Null` for an index out of range
    /// and for a value that is no array.
    pub open spec fn at(self, index: int) -> JsonView {
        match self {
            JsonView::Array(items) => if 0 <= index < items.len() {
                items[index]
            } else {
                JsonView::Null
            },
            _ => JsonView::Null,
        }
    }

    /// The value of an object under `key`; `Null` for a missing key and for a
    /// value that is no object.
    pub open spec fn get(self, key: Seq<char>) -> JsonView {
        match self {
            JsonView::Object(entries) => lookup(entries, key),
            _ => JsonView::Null,
        }
    }

    /// The characters of a string value.
    pub open spec fn text(self) -> Option<Seq<char>> {
        match self {
            JsonView::Text(s) => Some(s),
            _ => None,
        }
    }

    /// The parts of a number value.
    pub open spec fn number(self) -> Option<Decimal> {
        match self {
            JsonView::Number(d) => Some(d),
            _ => None,
        }
    }

    /// A number value as a `usize`, see [`Decimal::spec_as_usize`].
    pub open spec fn as_usize(self) -> Option<usize> {
        match self {
            JsonView::Number(d) => d.spec_as_usize(),
            _ => None,
        }
    }

    /// A number value as an `i32`, see [`Decimal::spec_as_i32`].
    pub open spec fn as_i32(self) -> Option<i32> {
        match self {
            JsonView::Number(d) => d.spec_as_i32(),
            _ => None,
        }
    }
}

impl Json {
    /// Reads `text` as JSON. `None` is for text that is not well-formed,
    /// and for text in which a point outside every string is followed by
    /// more than [`MAX_DIGITS`] digits, well-formed or not: a fraction that
    /// long is not handed to the parser.
    pub fn parse(text: &str) -> (r: Option<Json>)
        ensures
            read_view(r) == value_of(text@),
    {
        if !fractions_fit_in(text.as_bytes()) {
            return None;
        }
        match parse_text(text) {
            Ok(value) => Some(value),
            Err(_) => None,
        }
    }

    /// Whether the value is an array.
    pub fn is_array(&self) -> (r: bool)
        ensures
            r == (self@ is Array),
    {
        match self {
            Json::Array(_) => true,
            _ => false,
        }
    }

    /// The element at `index`, or `Null`.
    pub fn element(&self, index: usize) -> (r: &Json)
        ensures
            r@ == self@.at(index as int),
    {
        match self {
            Json::Array(items) => {
                if index < items.len() {
                    &items[index]
                } else {
                    &Json::Null
                }
            },
            _ => &Json::Null,
        }
    }

    /// The value under `key`, or `Null`.
    pub fn member(&self, key: &str) -> (r: &Json)
        ensures
            r@ == self@.get(key@),
    {
        match self {
            Json::Object(entries) => {
                let ghost all = self@->Object_0;
                let mut i: usize = 0;
                assert(all.skip(0) == all);
                while i < entries.len()
                    invariant
                        i <= entries.len(),
                        all.len() == entries.len(),
                        forall|j: int|
                            0 <= j < entries.len() ==> all[j] == (
                                #[trigger] entries[j].key@,
                                entries[j].value@,
                            ),
                        self@.get(key@) == lookup(all.skip(i as int), key@),
                    decreases entries.len() - i,
                {
                    let ghost rest = all.skip(i as int);
                    assert(rest[0] == all[i as int]);
                    assert(rest.drop_first() == all.skip(i + 1));
                    if same_text(entries[i].key.as_str(), key) {
                        return &entries[i].value;
                    }
                    i += 1;
                }
                &Json::Null
            },
            _ => &Json::Null,
        }
    }

    /// The text of a string value.
    pub fn as_str(&self) -> (r: Option<&str>)
        ensures
            r is Some <==> self@.text() is Some,
            r matches Some(s) ==> self@.text() == Some(s@),
    {
        match self {
            Json::Text(s) => Some(s.as_str()),
            _ => None,
        }
    }

    /// The parts of a number value.
    pub fn as_number(&self) -> (r: Option<Decimal>)
        ensures
            r == self@.number(),
    {
        match self {
            Json::Number(d) => Some(*d),
            _ => None,
        }
    }

    /// A number value as a `usize`.
    pub fn as_usize(&self) -> (r: Option<usize>)
        ensures
            r == self@.as_usize(),
    {
        match self {
            Json::Number(d) => d.as_usize(),
            _ => None,
        }
    }

    /// A number value as an `i32`.
    pub fn as_i32(&self) -> (r: Option<i32>)
        ensures
            r == self@.as_i32(),
    {
        match self {
            Json::Number(d) => d.as_i32(),
            _ => None,
        }
    }
}

} // verus!
