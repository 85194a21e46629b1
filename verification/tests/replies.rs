use live_reminder::model::TimeZoneRawData;
use live_reminder::phrase::{Phrase, UserPhrase};
use live_reminder::reply::{
    cleared_reply, hello_notification, location_saved_reply, phrase_removed_reply,
    phrase_saved_reply, random_reply, schedule_changed_reply, unknown_command_reply,
    HELLO_HEAD, HELLO_TAIL, HELP_MESSAGE,
};
use live_reminder::schedule::parse_schedule_times;

fn list() -> UserPhrase {
    UserPhrase::new(&vec![Phrase::Text("a".to_string())])
}

#[test]
fn replies_wrap_the_rendered_list() {
    let shown = list().render();
    assert_eq!(phrase_saved_reply(&list()), format!("I save your word ☺️ \nYour new word list 📋: {} ", shown));
    assert_eq!(phrase_removed_reply(&list()), format!("Done 📗 \nYour new word list 📋: {} ", shown));
    assert_eq!(cleared_reply(&list()), format!("Done! \nYour list 📋:  {}", shown));
    assert_eq!(random_reply(&Phrase::Text("a".to_string())), shown);
}

#[test]
fn unknown_command_shows_help() {
    assert_eq!(unknown_command_reply(), format!("Please send correct command from list 📋: \n{}", HELP_MESSAGE));
    assert!(HELP_MESSAGE.starts_with("Hello my friend ✌\n"));
    assert!(HELP_MESSAGE.contains("/schedule 9,12,15,21,23"));
}

#[test]
fn location_reply_names_the_zone() {
    let data = TimeZoneRawData {
        status: "OK".to_string(),
        message: String::new(),
        country_code: "JP".to_string(),
        country_name: "Japan".to_string(),
        zone_name: "Asia/Tokyo".to_string(),
        timestamp: 0,
        formatted: String::new(),
    };
    assert_eq!(
        location_saved_reply(&data),
        "Thank you.☺️ \nWe are saved timezone data Asia/Tokyo. \nNow you can configure required schedule for reminders"
    );
}

#[test]
fn schedule_reply_lists_hours_as_debug_prints_them() {
    let times = parse_schedule_times("9, +12").unwrap();
    assert_eq!(schedule_changed_reply(&times), format!("👍 Time for reminders changed on {:?}", times));
    assert_eq!(schedule_changed_reply(&times), "👍 Time for reminders changed on [\"9\", \"+12\"]");
    assert_eq!(schedule_changed_reply(&vec![]), "👍 Time for reminders changed on []");
}

#[test]
fn hello_notification_carries_the_version() {
    let n = hello_notification("0.1.0");
    assert_eq!(n, format!("{}0.1.0{}", HELLO_HEAD, HELLO_TAIL));
    assert!(n.starts_with("Hello!!!\nWe have some updates for you ☺️\nCurrent bot version: 0.1.0\n"));
}
