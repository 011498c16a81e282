use slack_r::calendar::day_index_exec;
use slack_r::clock::{datetime_of_epoch, epoch_of_datetime, now_datetime};
use slack_r::datetime::DateTime;
use slack_r::dates::{convert_date_string_to_local, validate_date_input, validate_time_input};
use slack_r::strutil::format_day_index;

#[test]
fn local_is_weekday_true() {
    // 2022-02-15 is a Tuesday
    let aware_monday = DateTime::new(day_index_exec(2022, 2, 15), 0);
    assert_eq!(aware_monday.weekday(), 1);
    assert!(aware_monday.is_weekday());
}

#[test]
fn naive_date_is_weekday_false() {
    // 2022-02-13 is a Sunday
    let naive_sunday = DateTime::new(day_index_exec(2022, 2, 13), 0);
    assert_eq!(naive_sunday.weekday(), 6);
    assert!(!naive_sunday.is_weekday());
}

#[test]
fn input_time_validation_fail() {
    let test_input = ["", "noo", "16:00:62", "10:00"];
    for input in test_input {
        assert!(validate_time_input(input.to_string()).is_err());
    }
}

#[test]
fn input_time_validation_success() {
    let test_input = ["10:00:30", "16:00:00"];
    for input in test_input {
        assert!(validate_time_input(input.to_string()).is_ok());
    }
}

#[test]
fn string_to_local_date_conversion_success() {
    let time = now_datetime().unwrap();
    let res = convert_date_string_to_local("2022-01-05", &time);
    assert!(res.is_ok());
    let expected = DateTime::new(day_index_exec(2022, 1, 5), time.secs);
    assert_eq!(res.unwrap(), expected);
}

#[test]
fn string_to_local_date_conversion_fail() {
    let time = now_datetime().unwrap();
    for input in [
        "not a date",
        "2022-02-31",
        "20220122",
        "01-22",
        "2022/01/12",
    ] {
        let res = convert_date_string_to_local(input, &time);
        assert!(res.is_err());
    }
}

#[test]
fn validate_date_input_fail_past_date() {
    let now = now_datetime().unwrap();
    let d = validate_date_input("2020-01-20".to_string(), &now);
    assert!(d.is_err());
    assert_eq!(d.unwrap_err(), "Date 2020-01-20 must be in the future");
}

#[test]
fn validate_date_input_fail_present_date() {
    let now = now_datetime().unwrap();
    let today = format_day_index(now.day).unwrap();
    let d = validate_date_input(today.clone(), &now);
    assert!(d.is_err());
    assert_eq!(
        d.unwrap_err(),
        format!("Date {today} must be in the future", today = today)
    );
}

#[test]
fn validate_date_input_fail_120_days_ahead() {
    let now = now_datetime().unwrap();
    let in_120_days_str = format_day_index(now.day + 120).unwrap();
    let d = validate_date_input(in_120_days_str.clone(), &now);
    assert!(d.is_err());
    assert_eq!(
        d.unwrap_err(),
        format!(
            "Date {future} must not be more than 120 days in the future",
            future = in_120_days_str
        )
    );
}

#[test]
fn validate_date_input_success() {
    let now = now_datetime().unwrap();
    let in_10_days_str = format_day_index(now.day + 10).unwrap();
    let d = validate_date_input(in_10_days_str.clone(), &now);
    assert!(d.is_ok());
}

#[test]
fn format_day_index_round_trip() {
    let time = DateTime::new(0, 0);
    for (y, m, d) in [(2021u32, 12u32, 31u32), (2000, 2, 29), (1999, 1, 1)] {
        let day = day_index_exec(y, m, d);
        let s = format_day_index(day).unwrap();
        let back = convert_date_string_to_local(&s, &time).unwrap();
        assert_eq!(back.day, day);
    }
    assert_eq!(
        format_day_index(day_index_exec(2021, 12, 31)).unwrap(),
        "2021-12-31"
    );
}

#[test]
fn now_datetime_is_in_range() {
    let now = now_datetime().unwrap();
    assert!(now.day > 0);
    assert!(now.secs < 86400);
}

#[test]
fn epoch_conversion_round_trip() {
    let now = now_datetime().unwrap();
    let ts = epoch_of_datetime(&now).unwrap();
    let back = datetime_of_epoch(ts).unwrap();
    assert_eq!(back, now);
}
