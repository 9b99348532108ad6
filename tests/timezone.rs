use cluster::timezone::{
    choose_instant, get_local_date_formarted, get_local_datetime_formarted, get_timestamp_from_local,
    get_timestamp_from_utc, start_of_today, LocalTime,
};

#[test]
fn utc_timestamps() {
    assert_eq!(get_timestamp_from_utc("2024-01-01 00:00:00", "%Y-%m-%d %H:%M:%S"), 1704067200);
    assert_eq!(get_timestamp_from_utc("not a date", "%Y-%m-%d %H:%M:%S"), 0);
}

#[test]
fn local_timestamps_fall_back_to_tokyo() {
    let fmt = "%Y-%m-%d %H:%M:%S";
    assert_eq!(get_timestamp_from_local("2024-01-01 09:00:00", fmt, "Asia/Tokyo"), 1704067200);
    assert_eq!(get_timestamp_from_local("2024-01-01 09:00:00", fmt, "Nowhere/Else"), 1704067200);
    assert_eq!(get_timestamp_from_local("2024-01-01 00:00:00", fmt, "UTC"), 1704067200);
    assert_eq!(get_timestamp_from_local("garbage", fmt, "UTC"), 0);
}

#[test]
fn ambiguous_and_missing_local_times() {
    let fmt = "%Y-%m-%d %H:%M:%S";
    // Clocks in New York went back from 02:00 to 01:00 on 2024-11-03.
    let later = get_timestamp_from_local("2024-11-03 01:30:00", fmt, "America/New_York");
    assert_eq!(later, 1730615400);
    // ... and skipped 02:00 to 03:00 on 2024-03-10.
    assert_eq!(get_timestamp_from_local("2024-03-10 02:30:00", fmt, "America/New_York"), 0);
    assert_eq!(choose_instant(LocalTime::Ambiguous(1, 2), 9), 2);
    assert_eq!(choose_instant(LocalTime::Single(5), 9), 5);
    assert_eq!(choose_instant(LocalTime::Skipped, 9), 9);
    assert_eq!(choose_instant(LocalTime::Unparsed, 9), 9);
}

#[test]
fn formatting_in_a_zone() {
    assert_eq!(get_local_datetime_formarted(1704067200, "Asia/Tokyo"), "2024-01-01 09:00:00");
    assert_eq!(get_local_datetime_formarted(1704067200, "UTC"), "2024-01-01 00:00:00");
    assert_eq!(get_local_datetime_formarted(1704067200, "bogus"), "2024-01-01 09:00:00");
    assert_eq!(get_local_date_formarted(1704067200, "UTC"), "2024-01-01");
    assert_eq!(get_local_date_formarted(i64::MAX, "UTC"), "1970-01-01");
}

#[test]
fn start_of_day() {
    // 2024-01-01 12:00:00 UTC is 21:00 in Tokyo; that day started at 15:00 UTC the day before.
    assert_eq!(start_of_today("Asia/Tokyo", 1704110400), 1704034800);
    assert_eq!(start_of_today("UTC", 1704110400), 1704067200);
    assert_eq!(start_of_today("bogus", 1704110400), 1704034800);
}
