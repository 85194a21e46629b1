use live_reminder::model::ConvertedTimeZone;
use live_reminder::reply::{LOCATION_UNKNOWN_REPLY, SCHEDULE_FAILED_REPLY};
use live_reminder::schedule::{
    schedule_saved, schedule_start, ScheduleAction,
    reminder_schedule, convert_timezone_url, convert_times, parse_schedule_times, reminder_cron_schedule,
    reminder_times_or_default, timezone_is_available, timezone_or_utc,
};

fn strings(v: &[&str]) -> Vec<String> {
    v.iter().map(|s| s.to_string()).collect()
}

fn zone(offset: i64) -> ConvertedTimeZone {
    ConvertedTimeZone {
        status: "OK".to_string(),
        from_zone_name: "Europe/Moscow".to_string(),
        to_zone_name: "UTC".to_string(),
        from_timestamp: 1598214923,
        to_timestamp: 1598204123,
        offset,
    }
}

#[test]
fn schedule_example_from_help() {
    assert_eq!(parse_schedule_times(" 9,12,15,21,23"), Some(strings(&["9", "12", "15", "21", "23"])));
    assert_eq!(parse_schedule_times(" 23"), Some(strings(&["23"])));
    assert_eq!(parse_schedule_times("9,21"), Some(strings(&["9", "21"])));
}

#[test]
fn schedule_trims_pieces_and_keeps_their_text() {
    assert_eq!(parse_schedule_times("  9 ,\t12 "), Some(strings(&["9", "12"])));
    assert_eq!(parse_schedule_times("+5,05"), Some(strings(&["+5", "05"])));
    assert_eq!(parse_schedule_times("0,23,24,-1,22,1"), Some(strings(&["0", "23", "22", "1"])));
}

#[test]
fn schedule_refuses_pieces_that_are_not_numbers() {
    assert_eq!(parse_schedule_times("9,x"), None);
    assert_eq!(parse_schedule_times("9,,12"), None);
    assert_eq!(parse_schedule_times(""), None);
    assert_eq!(parse_schedule_times("9;12"), None);
    assert_eq!(parse_schedule_times("99999999999"), None);
}

#[test]
fn convert_adds_whole_hours_of_the_offset() {
    assert_eq!(convert_times(&strings(&["9", "12"]), &zone(10800)), Some(strings(&["12", "15"])));
    assert_eq!(convert_times(&strings(&["9", "12"]), &zone(-5 * 3600)), Some(strings(&["4", "7"])));
    // rounds toward zero
    assert_eq!(convert_times(&strings(&["9"]), &zone(-1800)), Some(strings(&["9"])));
    assert_eq!(convert_times(&strings(&["9"]), &zone(-5400)), Some(strings(&["8"])));
    assert_eq!(convert_times(&strings(&["9"]), &zone(19800)), Some(strings(&["14"])));
    assert_eq!(convert_times(&strings(&["+5", "05"]), &zone(0)), Some(strings(&["5", "5"])));
    // wraps around midnight
    assert_eq!(convert_times(&strings(&["1"]), &zone(-7200)), Some(strings(&["23"])));
    assert_eq!(convert_times(&strings(&["1"]), &zone(-10800)), Some(strings(&["22"])));
    assert_eq!(convert_times(&strings(&["23"]), &zone(7200)), Some(strings(&["1"])));
    assert_eq!(convert_times(&strings(&["0"]), &zone(0)), Some(strings(&["0"])));
    assert_eq!(convert_times(&vec![], &zone(3600)), Some(vec![]));
}

#[test]
fn convert_refuses_unreadable_hours_and_wraps_large_ones() {
    assert_eq!(convert_times(&strings(&["9", "x"]), &zone(0)), None);
    assert_eq!(convert_times(&strings(&["9223372036854775808"]), &zone(0)), None);
    assert_eq!(
        convert_times(&strings(&["9223372036854775807"]), &zone(3600)),
        Some(strings(&[&((9223372036854775807i128 + 1) % 24).to_string()]))
    );
    assert_eq!(
        convert_times(&strings(&["-9223372036854775808"]), &zone(-3600)),
        Some(strings(&[&(-9223372036854775809i128).rem_euclid(24).to_string()]))
    );
}

#[test]
fn accepted_hours_always_convert() {
    let times = parse_schedule_times("1, 22, 7").unwrap();
    for offset in [i64::MIN, -50400, 0, 3600, 50400, i64::MAX] {
        let moved = convert_times(&times, &zone(offset)).unwrap();
        assert_eq!(moved.len(), 3);
        let h = (offset / 3600) as i128;
        assert_eq!(moved[0], (1 + h).rem_euclid(24).to_string());
        assert_eq!(moved[1], (22 + h).rem_euclid(24).to_string());
        for m in &moved {
            let v: i64 = m.parse().unwrap();
            assert!((0..24).contains(&v));
        }
    }
}

#[test]
fn cron_line_fires_at_each_hour() {
    assert_eq!(reminder_cron_schedule(&strings(&["9", "12"])), "0 0 9,12 * * *");
    assert_eq!(reminder_cron_schedule(&strings(&["5"])), "0 0 5 * * *");
    assert_eq!(reminder_cron_schedule(&vec![]), "0 0  * * *");
}

#[test]
fn timezone_known_only_from_first_record() {
    assert!(!timezone_is_available(&vec![]));
    assert!(!timezone_is_available(&strings(&[""])));
    assert!(timezone_is_available(&strings(&["Europe/Moscow"])));
    assert!(!timezone_is_available(&strings(&["", "Asia/Tokyo"])));
    assert!(timezone_is_available(&strings(&["Asia/Tokyo", ""])));
}

#[test]
fn timezone_defaults_to_utc() {
    assert_eq!(timezone_or_utc(None), "UTC");
    assert_eq!(timezone_or_utc(Some("Asia/Tokyo".to_string())), "Asia/Tokyo");
}

#[test]
fn convert_url_names_the_zone() {
    assert_eq!(
        convert_timezone_url("Europe/Moscow", 1700000000),
        "http://api.timezonedb.com/v2.1/convert-time-zone?key=PRG4062PTQJU&format=json&from=Europe/Moscow&to=UTC&time=1700000000"
    );
}

#[test]
fn default_reminder_hours() {
    assert_eq!(reminder_times_or_default(None), strings(&["5", "17"]));
    assert_eq!(reminder_times_or_default(Some(strings(&["9"]))), strings(&["9"]));
    assert_eq!(reminder_times_or_default(Some(vec![])), Vec::<String>::new());
}

#[test]
fn nine_and_twenty_one_give_two_daily_reminders() {
    let times = parse_schedule_times(" 9,21").unwrap();
    let moved = convert_times(&times, &zone(0)).unwrap();
    assert_eq!(reminder_cron_schedule(&moved), "0 0 9,21 * * *");
}

#[test]
fn schedule_asks_for_location_when_zone_unknown() {
    match schedule_start(strings(&["9"]), false) {
        ScheduleAction::Reply(t) => assert_eq!(t, LOCATION_UNKNOWN_REPLY),
        _ => panic!("expected a reply"),
    }
    match schedule_start(strings(&["9", "23"]), true) {
        ScheduleAction::Save(h) => assert_eq!(h, strings(&["9", "23"])),
        _ => panic!("expected a save"),
    }
}

#[test]
fn schedule_restarts_reminders_at_the_stored_hours() {
    let times = parse_schedule_times("9, 23").unwrap();
    let stored = convert_times(&times, &zone(-3 * 3600)).unwrap();
    match schedule_saved(&times, Some(stored)) {
        ScheduleAction::Restart { hours, reply } => {
            assert_eq!(hours, strings(&["6", "20"]));
            assert_eq!(reply, format!("👍 Time for reminders changed on {:?}", times));
        }
        _ => panic!("expected a restart"),
    }
    match schedule_saved(&times, None) {
        ScheduleAction::Reply(t) => assert_eq!(t, SCHEDULE_FAILED_REPLY),
        _ => panic!("expected a reply"),
    }
}

#[test]
fn reminder_schedule_parses_the_cron_line() {
    assert!(reminder_schedule(&strings(&["9", "21"])).is_some());
    assert!(reminder_schedule(&strings(&["0", "23"])).is_some());
    assert!(reminder_schedule(&strings(&["24"])).is_none());
    assert!(reminder_schedule(&strings(&["x"])).is_none());
    // a step is never handed to the parser (a zero step would panic there)
    assert!(reminder_schedule(&strings(&["*/0"])).is_none());
    assert!(reminder_schedule(&strings(&["*/2"])).is_none());
}

#[test]
fn accepted_and_converted_hours_always_make_a_schedule() {
    let times = parse_schedule_times("0, 9, 23").unwrap();
    for offset in [-43200, -3600, 0, 19800, 50400] {
        let moved = convert_times(&times, &zone(offset)).unwrap();
        assert!(reminder_schedule(&moved).is_some());
    }
}
