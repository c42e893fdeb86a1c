use log_roll::date::LocalDate;
use log_roll::log_time::LogTime;

fn march_sixth() -> LocalDate {
    LocalDate::new(2023, 3, 6).unwrap()
}

#[test]
fn mock_standard_date() {
    let day = LocalDate::new(1998, 6, 18).unwrap();
    assert_eq!("19980618", day.to_text());
}

#[test]
fn standard_date() {
    assert_eq!(chrono::Local::now().format("%Y%m%d").to_string(), LogTime::standard_date());
}

#[test]
fn expand_time_var() {
    let current_time = chrono::Local::now();

    let s = "mylog{d}.log";
    assert_eq!(format!("mylog{}.log", current_time.format("%Y%m%d")), LogTime::expand_time_var(s));

    let s = "mylog{y}.log";
    assert_eq!(format!("mylog{}.log", current_time.format("%Y")), LogTime::expand_time_var(s));

    let s = "mylog{m}.log";
    assert_eq!(format!("mylog{}.log", current_time.format("%m")), LogTime::expand_time_var(s));

    let s = "mylog{D}.log";
    assert_eq!(format!("mylog{}.log", current_time.format("%d")), LogTime::expand_time_var(s));

    let s = "mylog{y}-{m}-{D}.log";
    assert_eq!(
        format!(
            "mylog{}-{}-{}.log",
            current_time.format("%Y"),
            current_time.format("%m"),
            current_time.format("%d")
        ),
        LogTime::expand_time_var(s)
    );
}

#[test]
fn whole_date_placeholder_on_fixed_day() {
    assert_eq!("mylog20230306.log", LogTime::expand_time_var_on("mylog{d}.log", &march_sixth()));
}

#[test]
fn year_month_day_placeholders_on_fixed_day() {
    let day = march_sixth();
    let once = LogTime::expand_time_var_on("log{y}{m}{D}.log", &day);
    assert_eq!("log20230306.log", once);
    assert_eq!(once, LogTime::expand_time_var_on(&once, &day));
    assert_eq!(
        LogTime::expand_time_var_on("log{d}.log", &day),
        LogTime::expand_time_var_on("log{y}{m}{D}.log", &day)
    );
}

#[test]
fn every_occurrence_is_replaced() {
    let day = march_sixth();
    assert_eq!("06-06/2023/2023", LogTime::expand_time_var_on("{D}-{D}/{y}/{y}", &day));
}

#[test]
fn unknown_placeholders_and_plain_text_pass_through() {
    let day = march_sixth();
    assert_eq!("a{x}b{}c{Y}", LogTime::expand_time_var_on("a{x}b{}c{Y}", &day));
    assert_eq!("", LogTime::expand_time_var_on("", &day));
    assert_eq!("$1.2023.*", LogTime::expand_time_var_on("$1.{y}.*", &day));
}

#[test]
fn years_outside_four_digits_carry_a_sign() {
    assert_eq!("00990102", LocalDate::new(99, 1, 2).unwrap().to_text());
    assert_eq!("+123451231", LocalDate::new(12345, 12, 31).unwrap().to_text());
    assert_eq!("-00050715", LocalDate::new(-5, 7, 15).unwrap().to_text());
    assert_eq!("0000", LocalDate::new(0, 1, 1).unwrap().year_string());
}

#[test]
fn date_parts_are_zero_padded() {
    let day = LocalDate::new(2024, 11, 9).unwrap();
    assert_eq!("2024", day.year_string());
    assert_eq!("11", day.month_string());
    assert_eq!("09", day.day_string());
}

#[test]
fn only_real_days_are_dates() {
    assert!(LocalDate::new(2023, 2, 29).is_none());
    assert!(LocalDate::new(2024, 2, 29).is_some());
    assert!(LocalDate::new(1900, 2, 29).is_none());
    assert!(LocalDate::new(2000, 2, 29).is_some());
    assert!(LocalDate::new(2023, 4, 31).is_none());
    assert!(LocalDate::new(2023, 13, 1).is_none());
    assert!(LocalDate::new(2023, 0, 1).is_none());
    assert!(LocalDate::new(2023, 1, 0).is_none());
    let d = LocalDate::new(2023, 12, 31).unwrap();
    assert_eq!((2023, 12, 31), (d.year(), d.month(), d.day()));
}
