use jeff::dates::{day_text, days_between, expand_dates, ConfigError, FIRST_DAY, LAST_DAY};

#[test]
fn expands_inclusive_range_in_order() {
    let days = expand_dates("2024-02-27", "2024-03-01").unwrap();
    assert_eq!(days.len(), 4);
    assert_eq!(days[0], 738943);
    for w in days.windows(2) {
        assert_eq!(w[1], w[0] + 1);
    }
    assert_eq!(day_text(days[2]), "2024-02-29");
    assert_eq!(day_text(days[3]), "2024-03-01");
}

#[test]
fn single_day_range() {
    let days = expand_dates("2024-01-30", "2024-01-30").unwrap();
    assert_eq!(days, vec![738915]);
}

#[test]
fn reversed_range_is_config_error() {
    assert_eq!(expand_dates("2024-03-01", "2024-01-30"), Err(ConfigError::EndBeforeStart));
    assert_eq!(days_between(10, 9), Err(ConfigError::EndBeforeStart));
}

#[test]
fn unparsable_dates_are_config_errors() {
    assert_eq!(expand_dates("tomorrow", "2024-01-30"), Err(ConfigError::InvalidStart));
    assert_eq!(expand_dates("2024-01-30", "2024-13-01"), Err(ConfigError::InvalidEnd));
    assert_eq!(expand_dates("2024-02-30", "2024-03-01"), Err(ConfigError::InvalidStart));
}

#[test]
fn day_numbers_and_text_agree() {
    assert_eq!(day_text(1), "0001-01-01");
    assert_eq!(day_text(719163), "1970-01-01");
    assert_eq!(day_text(LAST_DAY), "+262142-12-31");
    assert_eq!(day_text(FIRST_DAY), "-262143-01-01");
}

#[test]
fn days_between_counts_end_minus_start_plus_one() {
    let days = days_between(-3, 4).unwrap();
    assert_eq!(days, vec![-3, -2, -1, 0, 1, 2, 3, 4]);
}
