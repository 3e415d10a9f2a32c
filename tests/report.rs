use jeff::locations::{FetchedLocation, Location};
use jeff::report::{
    build_slack_message, chat_reply_result, csv_header, decimal_text, csv_record, csv_rows, sink_for, Sink,
};

fn item(id: usize, phone: Option<&str>, extra: Option<&str>) -> FetchedLocation {
    FetchedLocation {
        date: 738915,
        loc: Location {
            id,
            name: "Airport".to_string(),
            state: "TX".to_string(),
            city: "Austin".to_string(),
            address: "1 Main St".to_string(),
            address_additional: extra.map(|s| s.to_string()),
            postal_code: "78701".to_string(),
            phone_number: phone.map(|s| s.to_string()),
        },
        raw_json: format!("{{\"id\":{id},\"note\":\"a, \\\"b\\\"\"}}"),
    }
}

#[test]
fn empty_message() {
    assert_eq!(build_slack_message(&vec![]), "No Global Entry appointments found.");
}

#[test]
fn message_for_one_location() {
    let msg = build_slack_message(&vec![item(5, None, Some("Gate 2"))]);
    assert_eq!(
        msg,
        "*Global Entry Availability*\n\n1. (Date: 2024-01-30) *Airport* (ID: 5) in Austin, TX\nAddress: 1 Main St Gate 2\nZip: 78701\nPhone: N/A\n\n"
    );
}

#[test]
fn message_lists_five_and_counts_the_rest() {
    let items: Vec<FetchedLocation> = (1..=7).map(|i| item(i, Some("555"), None)).collect();
    let msg = build_slack_message(&items);
    assert!(msg.contains("5. (Date: 2024-01-30) *Airport* (ID: 5)"));
    assert!(!msg.contains("6. (Date"));
    assert!(msg.ends_with("Phone: 555\n\n...and 2 more.\n"));
    assert!(msg.contains("Address: 1 Main St \nZip"));
}

#[test]
fn csv_header_and_record() {
    assert_eq!(
        csv_header(),
        vec!["Date", "ID", "Name", "State", "City", "Address", "PostalCode", "Phone", "RawJSON"]
    );
    let r = csv_record(&item(42, None, None));
    assert_eq!(r[0], "2024-01-30");
    assert_eq!(r[1], "42");
    assert_eq!(r[7], "N/A");
    assert_eq!(r[8], item(42, None, None).raw_json);
}

#[test]
fn csv_round_trip_keeps_raw_json() {
    let items: Vec<FetchedLocation> =
        vec![item(1, Some("555"), None), item(2, None, Some("x")), item(3, None, None)];
    let rows = csv_rows(&items);
    let mut w = csv::Writer::from_writer(Vec::new());
    for row in &rows {
        w.write_record(row).unwrap();
    }
    let bytes = w.into_inner().unwrap();
    let mut r = csv::ReaderBuilder::new().has_headers(false).from_reader(bytes.as_slice());
    let back: Vec<csv::StringRecord> = r.records().map(|x| x.unwrap()).collect();
    assert_eq!(back.len(), items.len() + 1);
    assert_eq!(&back[0][8], "RawJSON");
    for (i, it) in items.iter().enumerate() {
        assert_eq!(&back[i + 1][8], it.raw_json.as_str());
        assert_eq!(&back[i + 1][1], (i + 1).to_string().as_str());
    }
}

#[test]
fn exactly_one_sink() {
    assert_eq!(sink_for(true), Sink::Chat);
    assert_eq!(sink_for(false), Sink::File);
}

#[test]
fn chat_reply_outcomes() {
    assert_eq!(chat_reply_result(true, Some("ignored".to_string())), Ok(()));
    assert_eq!(
        chat_reply_result(false, Some("channel_not_found".to_string())),
        Err("channel_not_found".to_string())
    );
    assert_eq!(chat_reply_result(false, None), Err("Slack unknown error".to_string()));
}

#[test]
fn decimal_digits() {
    assert_eq!(decimal_text(0), "0");
    assert_eq!(decimal_text(7), "7");
    assert_eq!(decimal_text(10), "10");
    assert_eq!(decimal_text(1234), "1234");
    assert_eq!(decimal_text(usize::MAX), usize::MAX.to_string());
}
