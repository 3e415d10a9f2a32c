use crate::dates::{iso_date, iso_of_day, is_day};
use serde_json::Value;
use vstd::prelude::*;
use vstd::string::*;

verus! {

#[verifier::external_type_specification]
#[verifier::external_body]
pub struct ExJsonError(serde_json::Error);

/// What a member of a JSON object holds, as far as a location reads it.
#[derive(Debug, Clone)]
pub enum Field {
    /// The member is absent, or the element is no object. An element given
    /// as a JSON array of the members in order is no location here: a
    /// location is read from named members only.
    Missing,
    /// The member is `null`.
    Null,
    /// The member is a string.
    Text(String),
    /// The member is a number without sign or fraction.
    Unsigned(u64),
    /// The member holds anything else.
    Other,
}

/// One element of a response: its JSON text and the members a location reads.
#[derive(Debug, Clone)]
pub struct Element {
    pub raw: String,
    pub id: Field,
    pub name: Field,
    pub state: Field,
    pub city: Field,
    pub address: Field,
    pub address_additional: Field,
    pub postal_code: Field,
    pub phone_number: Field,
}

/// A testing location as the scheduling service describes it.
#[derive(Debug, Clone)]
pub struct Location {
    pub id: usize,
    pub name: String,
    pub state: String,
    pub city: String,
    pub address: String,
    pub address_additional: Option<String>,
    pub postal_code: String,
    pub phone_number: Option<String>,
}

/// A location found for a date, with the element's JSON text kept as it came.
#[derive(Debug, Clone)]
pub struct FetchedLocation {
    pub date: i32,
    pub loc: Location,
    pub raw_json: String,
}

/// Why the fetch of one date produced no locations.
#[derive(Debug)]
pub enum FetchError {
    /// The request failed, or the server answered with an error status.
    Transport(String),
    /// The response body could not be read.
    Body(String),
    /// The response body is not a JSON array, or an element cannot be written back.
    Json(serde_json::Error),
    /// No attempt was allowed.
    NoAttempt,
    /// The task that fetched the date stopped abnormally.
    TaskFault(String),
}

/// The text of a member that must be a string.
pub open spec fn text_of(f: Field) -> Option<Seq<char>> {
    match f {
        Field::Text(s) => Some(s@),
        _ => None,
    }
}

/// Whether a member may stand for an optional string: absent, `null` or a string.
pub open spec fn optional_ok(f: Field) -> bool {
    f is Missing || f is Null || f is Text
}

/// The number of a member that must be an unsigned integer of machine size.
pub open spec fn id_of(f: Field) -> Option<usize> {
    match f {
        Field::Unsigned(u) => if u <= usize::MAX {
            Some(u as usize)
        } else {
            None
        },
        _ => None,
    }
}

pub open spec fn opt_view(o: Option<String>) -> Option<Seq<char>> {
    match o {
        Some(s) => Some(s@),
        None => None,
    }
}

impl Element {
    /// Whether the element has the shape of a location.
    pub open spec fn parses(self) -> bool {
        &&& id_of(self.id) is Some
        &&& text_of(self.name) is Some
        &&& text_of(self.state) is Some
        &&& text_of(self.city) is Some
        &&& text_of(self.address) is Some
        &&& optional_ok(self.address_additional)
        &&& text_of(self.postal_code) is Some
        &&& optional_ok(self.phone_number)
    }
}

impl Location {
    /// Whether this location holds exactly what the element says.
    pub open spec fn read_from(self, e: Element) -> bool {
        &&& id_of(e.id) == Some(self.id)
        &&& text_of(e.name) == Some(self.name@)
        &&& text_of(e.state) == Some(self.state@)
        &&& text_of(e.city) == Some(self.city@)
        &&& text_of(e.address) == Some(self.address@)
        &&& text_of(e.address_additional) == opt_view(self.address_additional)
        &&& text_of(e.postal_code) == Some(self.postal_code@)
        &&& text_of(e.phone_number) == opt_view(self.phone_number)
    }
}

fn required_text(f: &Field) -> (r: Option<String>)
    ensures
        opt_view(r) == text_of(*f),
{
    match f {
        Field::Text(s) => Some(s.clone()),
        _ => None,
    }
}

fn optional_text(f: &Field) -> (r: Option<Option<String>>)
    ensures
        r is Some <==> optional_ok(*f),
        r matches Some(o) ==> opt_view(o) == text_of(*f),
{
    match f {
        Field::Missing => Some(None),
        Field::Null => Some(None),
        Field::Text(s) => Some(Some(s.clone())),
        _ => None,
    }
}

fn id_value(f: &Field) -> (r: Option<usize>)
    ensures
        r == id_of(*f),
{
    match f {
        Field::Unsigned(u) => if *u <= usize::MAX as u64 {
            Some(*u as usize)
        } else {
            None
        },
        _ => None,
    }
}

/// Reads a location out of an element; `None` where the element lacks a
/// member that a location needs or holds one of the wrong kind.
pub fn location_of(e: &Element) -> (r: Option<Location>)
    ensures
        r is Some <==> e.parses(),
        r matches Some(l) ==> l.read_from(*e),
{
    let id = match id_value(&e.id) {
        Some(v) => v,
        None => return None,
    };
    let name = match required_text(&e.name) {
        Some(v) => v,
        None => return None,
    };
    let state = match required_text(&e.state) {
        Some(v) => v,
        None => return None,
    };
    let city = match required_text(&e.city) {
        Some(v) => v,
        None => return None,
    };
    let address = match required_text(&e.address) {
        Some(v) => v,
        None => return None,
    };
    let address_additional = match optional_text(&e.address_additional) {
        Some(v) => v,
        None => return None,
    };
    let postal_code = match required_text(&e.postal_code) {
        Some(v) => v,
        None => return None,
    };
    let phone_number = match optional_text(&e.phone_number) {
        Some(v) => v,
        None => return None,
    };
    Some(Location { id, name, state, city, address, address_additional, postal_code, phone_number })
}

/// Whether a state is one of those searched.
pub open spec fn allowed(states: Seq<String>, state: Seq<char>) -> bool {
    exists|j: int| 0 <= j < states.len() && (#[trigger] states[j])@ == state
}

/// Whether `state` is one of `states`.
pub fn state_allowed(state: &String, states: &Vec<String>) -> (r: bool)
    ensures
        r == allowed(states@, state@),
{
    let mut j: usize = 0;
    while j < states.len()
        invariant
            j <= states@.len(),
            forall|k: int| 0 <= k < j ==> (#[trigger] states@[k])@ != state@,
        decreases states@.len() - j,
    {
        if states[j] == *state {
            return true;
        }
        j = j + 1;
    }
    false
}

/// Whether an element yields a location of a searched state.
pub open spec fn kept(e: Element, states: Seq<String>) -> bool {
    e.parses() && allowed(states, text_of(e.state)->Some_0)
}

/// The elements that yield a location of a searched state, in their order.
pub open spec fn kept_elements(es: Seq<Element>, states: Seq<String>) -> Seq<Element>
    decreases es.len(),
{
    if es.len() == 0 {
        Seq::empty()
    } else {
        let prev = kept_elements(es.drop_last(), states);
        if kept(es.last(), states) {
            prev.push(es.last())
        } else {
            prev
        }
    }
}

/// Whether `r` holds, for `date`, one location for each element of `chosen`, in order.
pub open spec fn found_for(r: Seq<FetchedLocation>, date: i32, chosen: Seq<Element>) -> bool {
    &&& r.len() == chosen.len()
    &&& forall|i: int|
        0 <= i < r.len() ==> {
            &&& (#[trigger] r[i]).date == date
            &&& r[i].raw_json@ == chosen[i].raw@
            &&& r[i].loc.read_from(chosen[i])
        }
}

/// The locations of the searched states among the elements of one date's
/// response; elements without the shape of a location are passed over.
pub fn select_locations(date: i32, elements: &Vec<Element>, states: &Vec<String>) -> (r: Vec<
    FetchedLocation,
>)
    ensures
        found_for(r@, date, kept_elements(elements@, states@)),
        forall|i: int| 0 <= i < r@.len() ==> allowed(states@, (#[trigger] r@[i]).loc.state@),
{
    let mut r: Vec<FetchedLocation> = Vec::new();
    let mut i: usize = 0;
    while i < elements.len()
        invariant
            i <= elements@.len(),
            found_for(r@, date, kept_elements(elements@.subrange(0, i as int), states@)),
            forall|k: int| 0 <= k < r@.len() ==> allowed(states@, (#[trigger] r@[k]).loc.state@),
        decreases elements@.len() - i,
    {
        let e = &elements[i];
        assert(elements@.subrange(0, i + 1).drop_last() =~= elements@.subrange(0, i as int));
        assert(elements@.subrange(0, i + 1).last() == elements@[i as int]);
        match location_of(e) {
            Some(loc) => {
                if state_allowed(&loc.state, states) {
                    r.push(FetchedLocation { date, loc, raw_json: e.raw.clone() });
                }
            },
            None => {},
        }
        i = i + 1;
    }
    assert(elements@.subrange(0, elements@.len() as int) =~= elements@);
    r
}

/// The address of the slots endpoint, up to the date.
pub const SLOTS_URL_HEAD: &'static str =
    "https://ttp.cbp.dhs.gov/schedulerapi/slots/asLocations?minimum=1&filterTimestampBy=on&timestamp=";

/// The rest of the address, after the date: the service asked about.
pub const SLOTS_URL_TAIL: &'static str = "&serviceName=Global%20Entry";

/// The request that asks for the locations with free slots on `day`.
pub fn request_url(day: i32) -> (r: String)
    requires
        is_day(day as int),
    ensures
        r@ == SLOTS_URL_HEAD@ + iso_of_day(day as int) + SLOTS_URL_TAIL@,
{
    let mut url = String::from_str(SLOTS_URL_HEAD);
    url.append(iso_date(day).as_str());
    url.append(SLOTS_URL_TAIL);
    url
}

/// An element without the shape of a location changes nothing in what the
/// other elements of the same response yield.
pub proof fn lemma_unparsable_dropped(es: Seq<Element>, i: int, states: Seq<String>)
    requires
        0 <= i < es.len(),
        !es[i].parses(),
    ensures
        kept_elements(es, states) == kept_elements(es.remove(i), states),
    decreases es.len(),
{
    if i == es.len() - 1 {
        assert(es.remove(i) =~= es.drop_last());
    } else {
        lemma_unparsable_dropped(es.drop_last(), i, states);
        assert(es.remove(i).drop_last() =~= es.drop_last().remove(i));
        assert(es.remove(i).last() == es.last());
    }
}

/// Whether a text holds one JSON array (what `serde_json::from_str` for
/// `Vec<Value>` accepts).
pub uninterp spec fn json_array_accepts(text: Seq<char>) -> bool;

/// The elements of the JSON array that a text holds, each with its compact
/// JSON text and the members that a location reads.
pub uninterp spec fn response_elements(text: Seq<char>) -> Seq<Element>;

/// Relies on `serde_json::from_str::<Vec<Value>>`, which reads a JSON array;
/// on `serde_json::to_string`, which writes each element back as JSON text;
/// and on `Value::get` and `Value::as_u64`, which read a member of an object
/// (`None` for any other value) and a number without sign or fraction.
#[verifier::external_body]
fn parse_elements(text: &str) -> (r: Result<Vec<Element>, serde_json::Error>)
    ensures
        r is Ok <==> json_array_accepts(text@),
        r matches Ok(es) ==> es@ == response_elements(text@),
{
    let field = |v: &Value, k: &str| match v.get(k) {
        None => Field::Missing,
        Some(Value::Null) => Field::Null,
        Some(Value::String(s)) => Field::Text(s.clone()),
        Some(n) => n.as_u64().map_or(Field::Other, Field::Unsigned),
    };
    let mut out = Vec::new();
    for v in &serde_json::from_str::<Vec<Value>>(text)? {
        let m = |k: &str| field(v, k);
        out.push(Element { raw: serde_json::to_string(v)?, id: m("id"), name: m("name"),
            state: m("state"), city: m("city"), address: m("address"),
            address_additional: m("addressAdditional"), postal_code: m("postalCode"),
            phone_number: m("phoneNumber") });
    }
    Ok(out)
}

/// Reads the elements of a response body, which must be a JSON array.
pub fn elements_of(body: &str) -> (r: Result<Vec<Element>, FetchError>)
    ensures
        r is Ok <==> json_array_accepts(body@),
        r matches Ok(es) ==> es@ == response_elements(body@),
        r matches Err(e) ==> e is Json,
{
    match parse_elements(body) {
        Ok(es) => Ok(es),
        Err(e) => Err(FetchError::Json(e)),
    }
}

/// The locations of the searched states that a response body lists for
/// `date`, in the order of the body's elements; elements without the shape
/// of a location are passed over.
pub fn locations_from_body(date: i32, body: &str, states: &Vec<String>) -> (r: Result<
    Vec<FetchedLocation>,
    FetchError,
>)
    ensures
        r is Ok <==> json_array_accepts(body@),
        r matches Err(e) ==> e is Json,
        r matches Ok(v) ==> found_for(v@, date, kept_elements(response_elements(body@), states@)),
        r matches Ok(v) ==> forall|i: int| 0 <= i < v@.len() ==> allowed(states@, (#[trigger] v@[i]).loc.state@),
{
    let elements = elements_of(body)?;
    let found = select_locations(date, &elements, states);
    Ok(found)
}

/// The error that ends a date's fetch once no attempt is left: the last
/// failure seen, or `NoAttempt` where none was made.
pub fn terminal_error(last_failure: Option<String>) -> (r: FetchError)
    ensures
        last_failure matches Some(m) ==> r matches FetchError::Transport(t) && t@ == m@,
        last_failure is None ==> r is NoAttempt,
{
    match last_failure {
        Some(m) => FetchError::Transport(m),
        None => FetchError::NoAttempt,
    }
}

} // verus!
