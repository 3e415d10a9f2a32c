use crate::dates::{iso_date, iso_of_day, is_day};
use crate::locations::{FetchedLocation, Location};
use vstd::prelude::*;
use vstd::string::*;

verus! {

/// Most locations that a chat message lists one by one.
pub const MESSAGE_LIMIT: usize = 5;

/// The character of a decimal digit.
pub open spec fn digit_char(d: nat) -> char {
    if d == 0 {
        '0'
    } else if d == 1 {
        '1'
    } else if d == 2 {
        '2'
    } else if d == 3 {
        '3'
    } else if d == 4 {
        '4'
    } else if d == 5 {
        '5'
    } else if d == 6 {
        '6'
    } else if d == 7 {
        '7'
    } else if d == 8 {
        '8'
    } else {
        '9'
    }
}

/// The decimal digits of `n`, without leading zeros.
pub open spec fn decimal(n: nat) -> Seq<char>
    decreases n,
{
    if n < 10 {
        seq![digit_char(n)]
    } else {
        decimal(n / 10).push(digit_char(n % 10))
    }
}

fn digit_text(d: usize) -> (r: &'static str)
    requires
        d < 10,
    ensures
        r@ == seq![digit_char(d as nat)],
{
    proof {
        reveal_strlit("0");
        reveal_strlit("1");
        reveal_strlit("2");
        reveal_strlit("3");
        reveal_strlit("4");
        reveal_strlit("5");
        reveal_strlit("6");
        reveal_strlit("7");
        reveal_strlit("8");
        reveal_strlit("9");
    }
    let r = if d == 0 {
        "0"
    } else if d == 1 {
        "1"
    } else if d == 2 {
        "2"
    } else if d == 3 {
        "3"
    } else if d == 4 {
        "4"
    } else if d == 5 {
        "5"
    } else if d == 6 {
        "6"
    } else if d == 7 {
        "7"
    } else if d == 8 {
        "8"
    } else {
        "9"
    };
    assert(r@ =~= seq![digit_char(d as nat)]);
    r
}

/// The decimal digits of `n`.
pub fn decimal_text(n: usize) -> (r: String)
    ensures
        r@ == decimal(n as nat),
    decreases n,
{
    if n < 10 {
        String::from_str(digit_text(n))
    } else {
        let mut s = decimal_text(n / 10);
        s.append(digit_text(n % 10));
        s
    }
}

/// A missing phone number as the reports write it.
pub open spec fn phone_or_default(phone: Option<String>) -> Seq<char> {
    match phone {
        Some(p) => p@,
        None => "N/A"@,
    }
}

pub open spec fn extra_or_empty(extra: Option<String>) -> Seq<char> {
    match extra {
        Some(e) => e@,
        None => Seq::empty(),
    }
}

/// The paragraph of the chat message for the item at position `i` (from 0).
pub open spec fn entry(i: nat, item: FetchedLocation) -> Seq<char> {
    let loc = item.loc;
    decimal(i + 1) + ". (Date: "@ + iso_of_day(item.date as int) + ") *"@ + loc.name@
        + "* (ID: "@ + decimal(loc.id as nat) + ") in "@ + loc.city@ + ", "@ + loc.state@
        + "\nAddress: "@ + loc.address@ + " "@ + extra_or_empty(loc.address_additional)
        + "\nZip: "@ + loc.postal_code@ + "\nPhone: "@ + phone_or_default(loc.phone_number)
        + "\n\n"@
}

/// The paragraphs of the first `n` items.
pub open spec fn entries(items: Seq<FetchedLocation>, n: nat) -> Seq<char>
    decreases n,
{
    if n == 0 {
        Seq::empty()
    } else {
        entries(items, (n - 1) as nat) + entry((n - 1) as nat, items[n - 1])
    }
}

/// The chat message for a run's locations: the first few in full, and how
/// many more there are.
pub open spec fn chat_message(items: Seq<FetchedLocation>) -> Seq<char> {
    if items.len() == 0 {
        "No Global Entry appointments found."@
    } else {
        let shown: nat = if items.len() < MESSAGE_LIMIT {
            items.len()
        } else {
            MESSAGE_LIMIT as nat
        };
        let tail = if items.len() > MESSAGE_LIMIT {
            "...and "@ + decimal((items.len() - MESSAGE_LIMIT) as nat) + " more.\n"@
        } else {
            Seq::empty()
        };
        "*Global Entry Availability*\n\n"@ + entries(items, shown) + tail
    }
}

/// Whether every item's date stands for a calendar date.
pub open spec fn dated(items: Seq<FetchedLocation>) -> bool {
    forall|i: int| 0 <= i < items.len() ==> is_day((#[trigger] items[i]).date as int)
}

fn phone_text(loc: &Location) -> (r: String)
    ensures
        r@ == phone_or_default(loc.phone_number),
{
    match &loc.phone_number {
        Some(p) => p.clone(),
        None => String::from_str("N/A"),
    }
}

fn entry_text(i: usize, item: &FetchedLocation) -> (r: String)
    requires
        i < usize::MAX,
        is_day(item.date as int),
    ensures
        r@ == entry(i as nat, *item),
{
    let loc = &item.loc;
    let mut s = decimal_text(i + 1);
    s.append(". (Date: ");
    s.append(iso_date(item.date).as_str());
    s.append(") *");
    s.append(loc.name.as_str());
    s.append("* (ID: ");
    s.append(decimal_text(loc.id).as_str());
    s.append(") in ");
    s.append(loc.city.as_str());
    s.append(", ");
    s.append(loc.state.as_str());
    s.append("\nAddress: ");
    s.append(loc.address.as_str());
    s.append(" ");
    match &loc.address_additional {
        Some(e) => s.append(e.as_str()),
        None => {},
    }
    s.append("\nZip: ");
    s.append(loc.postal_code.as_str());
    s.append("\nPhone: ");
    s.append(phone_text(loc).as_str());
    s.append("\n\n");
    s
}

/// The chat message that announces a run's locations.
pub fn build_slack_message(items: &Vec<FetchedLocation>) -> (r: String)
    requires
        dated(items@),
    ensures
        r@ == chat_message(items@),
{
    if items.len() == 0 {
        return String::from_str("No Global Entry appointments found.");
    }
    let mut msg = String::from_str("*Global Entry Availability*\n\n");
    let ghost head = msg@;
    let mut i: usize = 0;
    while i < items.len() && i < MESSAGE_LIMIT
        invariant
            i <= items@.len(),
            i <= MESSAGE_LIMIT,
            dated(items@),
            msg@ == head + entries(items@, i as nat),
        decreases MESSAGE_LIMIT - i,
    {
        msg.append(entry_text(i, &items[i]).as_str());
        i = i + 1;
    }
    if items.len() > MESSAGE_LIMIT {
        msg.append("...and ");
        msg.append(decimal_text(items.len() - MESSAGE_LIMIT).as_str());
        msg.append(" more.\n");
    }
    msg
}

/// The column names of the CSV export.
pub open spec fn header_fields() -> Seq<Seq<char>> {
    seq![
        "Date"@,
        "ID"@,
        "Name"@,
        "State"@,
        "City"@,
        "Address"@,
        "PostalCode"@,
        "Phone"@,
        "RawJSON"@,
    ]
}

/// The CSV fields of one item, in the order of the header.
pub open spec fn record_fields(item: FetchedLocation) -> Seq<Seq<char>> {
    seq![
        iso_of_day(item.date as int),
        decimal(item.loc.id as nat),
        item.loc.name@,
        item.loc.state@,
        item.loc.city@,
        item.loc.address@,
        item.loc.postal_code@,
        phone_or_default(item.loc.phone_number),
        item.raw_json@,
    ]
}

pub open spec fn texts(v: Seq<String>) -> Seq<Seq<char>> {
    v.map_values(|s: String| s@)
}

/// The header row of the CSV export.
pub fn csv_header() -> (r: Vec<String>)
    ensures
        texts(r@) == header_fields(),
{
    let r = vec![
        String::from_str("Date"),
        String::from_str("ID"),
        String::from_str("Name"),
        String::from_str("State"),
        String::from_str("City"),
        String::from_str("Address"),
        String::from_str("PostalCode"),
        String::from_str("Phone"),
        String::from_str("RawJSON"),
    ];
    assert(texts(r@) =~= header_fields());
    r
}

/// The CSV row of one item; the JSON text is kept as it came.
pub fn csv_record(item: &FetchedLocation) -> (r: Vec<String>)
    requires
        is_day(item.date as int),
    ensures
        texts(r@) == record_fields(*item),
{
    let loc = &item.loc;
    let r = vec![
        iso_date(item.date),
        decimal_text(loc.id),
        loc.name.clone(),
        loc.state.clone(),
        loc.city.clone(),
        loc.address.clone(),
        loc.postal_code.clone(),
        phone_text(loc),
        item.raw_json.clone(),
    ];
    assert(texts(r@) =~= record_fields(*item));
    r
}

/// The rows of the CSV export: the header, then one row per item in order.
pub fn csv_rows(items: &Vec<FetchedLocation>) -> (r: Vec<Vec<String>>)
    requires
        dated(items@),
    ensures
        r@.len() == items@.len() + 1,
        texts(r@[0]@) == header_fields(),
        forall|i: int|
            0 <= i < items@.len() ==> texts((#[trigger] r@[i + 1])@) == record_fields(items@[i]),
{
    let mut r: Vec<Vec<String>> = Vec::new();
    r.push(csv_header());
    let mut i: usize = 0;
    while i < items.len()
        invariant
            i <= items@.len(),
            dated(items@),
            r@.len() == i + 1,
            texts(r@[0]@) == header_fields(),
            forall|k: int|
                0 <= k < i ==> texts((#[trigger] r@[k + 1])@) == record_fields(items@[k]),
        decreases items@.len() - i,
    {
        r.push(csv_record(&items[i]));
        i = i + 1;
    }
    r
}

/// The failure text of a chat reply that is not `ok`.
pub open spec fn reply_error(error: Option<String>) -> Seq<char> {
    match error {
        Some(e) => e@,
        None => "Slack unknown error"@,
    }
}

/// What a chat reply means: success where it reports `ok`, else the error
/// it gives, or a fixed text where it gives none.
pub fn chat_reply_result(ok: bool, error: Option<String>) -> (r: Result<(), String>)
    ensures
        ok <==> r is Ok,
        !ok ==> (r is Err && r->Err_0@ == reply_error(error)),
{
    if ok {
        Ok(())
    } else {
        match error {
            Some(e) => Err(e),
            None => Err(String::from_str("Slack unknown error")),
        }
    }
}

/// Where a run's locations go: exactly one of the two.
#[derive(Debug, Clone, Copy, PartialEq, Eq, Structural)]
pub enum Sink {
    Chat,
    File,
}

/// The sink that the configuration chooses.
pub fn sink_for(enable_slack: bool) -> (r: Sink)
    ensures
        enable_slack <==> r == Sink::Chat,
        !enable_slack <==> r == Sink::File,
{
    if enable_slack {
        Sink::Chat
    } else {
        Sink::File
    }
}

} // verus!
