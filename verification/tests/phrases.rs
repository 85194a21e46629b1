use live_reminder::phrase::{get_phrases, get_random_phrase, reminder_message, Phrase, UserPhrase};

const ROW: &str = "🔸🔸🔸🔸🔸🔸🔸🔸🔸";

fn text(s: &str) -> Phrase {
    Phrase::Text(s.to_string())
}

#[test]
fn render_numbers_each_phrase() {
    let list = UserPhrase::new(&vec![text("a"), text("b c")]);
    assert_eq!(list.render(), format!("\n{}\n\n1) \"a\"\n\n2) \"b c\"\n\n{}", ROW, ROW));
}

#[test]
fn render_empty_list() {
    let list = UserPhrase::new(&vec![]);
    assert_eq!(list.render(), format!("\n{}\n\n{}", ROW, ROW));
}

#[test]
fn render_non_text_as_carried() {
    let list = UserPhrase::new(&vec![Phrase::Other("42".to_string())]);
    assert_eq!(list.render(), format!("\n{}\n\n1) 42\n\n{}", ROW, ROW));
}

#[test]
fn render_counts_past_nine() {
    let words: Vec<Phrase> = (0..11).map(|i| text(&i.to_string())).collect();
    let shown = UserPhrase::new(&words).render();
    assert!(shown.contains("10) \"9\"\n\n11) \"10\"\n\n"));
}

#[test]
fn from_str_is_one_text_phrase() {
    let list = UserPhrase::from_str("hi");
    assert_eq!(list.render(), format!("\n{}\n\n1) \"hi\"\n\n{}", ROW, ROW));
}

#[test]
fn random_phrase_of_empty_list() {
    assert_eq!(get_random_phrase(&vec![]), text("Empty list"));
}

#[test]
fn random_phrase_is_one_of_the_list() {
    let words = vec![text("a"), text("b"), Phrase::Other("1".to_string())];
    for _ in 0..50 {
        let p = get_random_phrase(&words);
        assert!(words.contains(&p));
    }
    assert_eq!(get_random_phrase(&vec![text("only")]), text("only"));
}

#[test]
fn reminder_message_only_for_text() {
    assert_eq!(reminder_message(&text("x")), Some(format!("\n{}\n\n1) \"x\"\n\n{}", ROW, ROW)));
    assert_eq!(reminder_message(&Phrase::Other("1".to_string())), None);
}

#[test]
fn phrases_come_from_the_last_record_with_a_list() {
    let records = vec![Some(vec![text("a")]), None, Some(vec![text("b"), text("c")]), None];
    assert_eq!(get_phrases(&records), vec![text("b"), text("c")]);
    assert_eq!(get_phrases(&vec![None, None]), vec![]);
    assert_eq!(get_phrases(&vec![]), vec![]);
    assert_eq!(get_phrases(&vec![Some(vec![text("a")]), Some(vec![])]), vec![]);
}
