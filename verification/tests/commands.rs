use live_reminder::command::{parse_command, Command, MAX_MESSAGE_LEN};
use live_reminder::text::trimmed;

#[test]
fn new_stores_the_trimmed_phrase() {
    assert_eq!(parse_command("/new   buy milk  "), Command::AddPhrase("buy milk".to_string()));
    assert_eq!(parse_command("/new \u{3000}tea\u{a0}"), Command::AddPhrase("tea".to_string()));
    assert_eq!(parse_command("/new "), Command::AddPhrase(String::new()));
}

#[test]
fn new_refuses_phrases_over_the_character_limit() {
    let at_limit = format!("/new {}", "a".repeat(300));
    assert_eq!(parse_command(&at_limit), Command::AddPhrase("a".repeat(300)));
    let over = format!("/new {}", "a".repeat(301));
    assert_eq!(parse_command(&over), Command::PhraseTooLong);
    // the limit counts characters, whatever their UTF-8 length
    let cyrillic = format!("/new {}", "ж".repeat(300));
    assert_eq!(parse_command(&cyrillic), Command::AddPhrase("ж".repeat(300)));
    let too_long = format!("/new {}", "ж".repeat(301));
    assert_eq!(parse_command(&too_long), Command::PhraseTooLong);
    let emoji = format!("/new {}", "🔸".repeat(300));
    assert_eq!(parse_command(&emoji), Command::AddPhrase("🔸".repeat(300)));
    assert_eq!(MAX_MESSAGE_LEN, 300);
}

#[test]
fn remove_takes_the_trimmed_phrase() {
    assert_eq!(parse_command("/remove  buy milk "), Command::RemovePhrase("buy milk".to_string()));
    let over = format!("/remove {}", "b".repeat(301));
    assert_eq!(parse_command(&over), Command::RemoveTooLong);
    let cyrillic = format!("/remove {}", "ж".repeat(300));
    assert_eq!(parse_command(&cyrillic), Command::RemovePhrase("ж".repeat(300)));
}

#[test]
fn schedule_keeps_the_text_after_the_command_word() {
    assert_eq!(parse_command("/schedule 9,12"), Command::Schedule(" 9,12".to_string()));
}

#[test]
fn exact_command_words() {
    assert_eq!(parse_command("/list"), Command::List);
    assert_eq!(parse_command("/help"), Command::Help);
    assert_eq!(parse_command("/random"), Command::Random);
    assert_eq!(parse_command("/new"), Command::NewUsage);
    assert_eq!(parse_command("/clear"), Command::Clear);
    assert_eq!(parse_command("/location"), Command::Location);
    assert_eq!(parse_command("/reminder_test"), Command::ReminderTest);
}

#[test]
fn anything_else_is_unknown() {
    for t in ["", "hello", "/list ", "/LIST", "/remove", "/schedule", "list", "/newx"] {
        assert_eq!(parse_command(t), Command::Unknown, "{:?}", t);
    }
}

#[test]
fn added_phrase_is_removed_by_the_same_words() {
    let added = match parse_command("/new \t call mum  ") {
        Command::AddPhrase(p) => p,
        other => panic!("unexpected {:?}", other),
    };
    assert_eq!(parse_command(&format!("/remove {}", added)), Command::RemovePhrase(added.clone()));
}

#[test]
fn trim_matches_str_trim() {
    for s in ["", "  ", " a ", "\n\ta b\r\n", "\u{2003}x\u{85}", "x\u{200b}"] {
        assert_eq!(trimmed(s), s.trim());
    }
}
