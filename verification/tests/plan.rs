use live_reminder::plan::{get_user_times, schedule_reminders_for_all_users};

fn strings(v: &[&str]) -> Vec<String> {
    v.iter().map(|s| s.to_string()).collect()
}

#[test]
fn stored_hours_or_defaults_per_found_user() {
    let lookups = vec![
        ("123".to_string(), Some(Some(strings(&["9"])))),
        ("456".to_string(), Some(None)),
        ("789".to_string(), None),
    ];
    let table = get_user_times(&lookups);
    assert_eq!(table.get(&"123".to_string()), Some(&strings(&["9"])));
    assert_eq!(table.get(&"456".to_string()), Some(&strings(&["5", "17"])));
    assert_eq!(table.get(&"789".to_string()), None);
    assert_eq!(table.entries().len(), 2);
}

#[test]
fn later_lookup_wins_and_keys_are_lower_case() {
    let lookups = vec![
        ("Ab".to_string(), Some(Some(strings(&["1"])))),
        ("aB".to_string(), Some(Some(strings(&["2"])))),
    ];
    let table = get_user_times(&lookups);
    assert_eq!(table.get(&"ab".to_string()), Some(&strings(&["2"])));
    assert_eq!(table.get(&"Ab".to_string()), None);
    assert_eq!(table.entries().len(), 1);
}

#[test]
fn only_users_with_hours_are_scheduled() {
    let lookups = vec![
        ("123".to_string(), Some(Some(strings(&["9", "21"])))),
        ("456".to_string(), None),
        ("X7".to_string(), Some(None)),
    ];
    let table = get_user_times(&lookups);
    let ids = strings(&["123", "456", "X7", "123"]);
    let plan = schedule_reminders_for_all_users(&ids, &table);
    let entries = plan.entries();
    assert_eq!(entries.len(), 1);
    assert_eq!(entries[0], ("123".to_string(), strings(&["9", "21"])));
}

#[test]
fn numeric_ids_are_their_own_keys() {
    let lookups = vec![("1234567890".to_string(), Some(None))];
    let table = get_user_times(&lookups);
    let plan = schedule_reminders_for_all_users(&strings(&["1234567890"]), &table);
    assert_eq!(plan.get(&"1234567890".to_string()), Some(&strings(&["5", "17"])));
}
