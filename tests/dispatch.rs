use jeff::dates::ConfigError;
use jeff::dispatch::Dispatcher;
use jeff::locations::{FetchError, FetchedLocation, Location};

fn item(date: i32, id: usize) -> FetchedLocation {
    FetchedLocation {
        date,
        loc: Location {
            id,
            name: format!("L{id}"),
            state: "CA".to_string(),
            city: "C".to_string(),
            address: "A".to_string(),
            address_additional: None,
            postal_code: "P".to_string(),
            phone_number: None,
        },
        raw_json: format!("{{\"id\":{id}}}"),
    }
}

#[test]
fn zero_concurrency_is_config_error() {
    assert!(matches!(Dispatcher::new(vec![1, 2], 0), Err(ConfigError::NoConcurrency)));
}

#[test]
fn aggregate_of_mixed_outcomes() {
    let mut d = Dispatcher::new(vec![10, 11, 12, 13, 14], 5).unwrap();
    let mut started = Vec::new();
    while let Some(date) = d.start_next() {
        started.push(date);
    }
    assert_eq!(started, vec![10, 11, 12, 13, 14]);
    // Completion order differs from submission order.
    d.complete(Ok(vec![item(13, 1), item(13, 2), item(13, 3)]));
    d.complete(Ok(vec![]));
    d.complete(Err(FetchError::Transport("503".to_string())));
    d.complete(Ok(vec![item(10, 4), item(10, 5), item(10, 6)]));
    d.complete(Ok(vec![]));
    assert!(d.is_finished());
    assert_eq!(d.failed, 1);
    let found = d.into_found();
    assert_eq!(found.len(), 6);
    let ids: Vec<usize> = found.iter().map(|f| f.loc.id).collect();
    assert_eq!(ids, vec![1, 2, 3, 4, 5, 6]);
}

#[test]
fn in_flight_never_exceeds_bound() {
    let dates: Vec<i32> = (1..=7).collect();
    let mut d = Dispatcher::new(dates, 2).unwrap();
    let mut order = Vec::new();
    let mut peak = 0;
    loop {
        while let Some(date) = d.start_next() {
            order.push(date);
            peak = peak.max(d.in_flight());
            assert!(d.in_flight() <= 2);
        }
        if d.is_finished() {
            break;
        }
        d.complete(Ok(vec![]));
    }
    assert_eq!(peak, 2);
    assert_eq!(order, vec![1, 2, 3, 4, 5, 6, 7]);
}

#[test]
fn task_fault_is_counted_not_fatal() {
    let mut d = Dispatcher::new(vec![1, 2], 1).unwrap();
    assert_eq!(d.start_next(), Some(1));
    assert_eq!(d.start_next(), None);
    d.complete(Err(FetchError::TaskFault("panicked".to_string())));
    assert_eq!(d.start_next(), Some(2));
    d.complete(Ok(vec![item(2, 9)]));
    assert!(d.is_finished());
    assert_eq!(d.failed, 1);
    assert_eq!(d.into_found().len(), 1);
}
