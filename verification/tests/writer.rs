use loggen::entry::{Action, LogEntry, MESSAGE_TEMPLATE};
use loggen::time::Instant;
use loggen::writer::{
    log_file_name, render_log_line, render_logs, KEY_ACTION, KEY_COUNTER, KEY_MESSAGE_TEMPLATE,
    KEY_TIMESTAMP, KEY_USER_ID, LOG_FILE_SUFFIX,
};

const NEW_YEAR_2021: i64 = 1_609_459_200;

fn sample(counter: u64, action: Action) -> LogEntry {
    LogEntry {
        timestamp: Instant::from_unix_seconds(NEW_YEAR_2021 + 2 * counter as i64).unwrap(),
        message_template: String::from(MESSAGE_TEMPLATE),
        user_id: format!("123e4567-e89b-42d3-a456-42661417400{}", counter % 10),
        action,
        counter,
    }
}

#[test]
fn keys_and_suffix() {
    assert_eq!(KEY_TIMESTAMP, "@t");
    assert_eq!(KEY_MESSAGE_TEMPLATE, "@mt");
    assert_eq!(KEY_USER_ID, "UserId");
    assert_eq!(KEY_ACTION, "Action");
    assert_eq!(KEY_COUNTER, "Counter");
    assert_eq!(LOG_FILE_SUFFIX, "_logs.json");
}

#[test]
fn line_of_one_entry() {
    let line = render_log_line(&sample(1, Action::Update));
    assert_eq!(
        line,
        "{\"@t\":\"2021-01-01T00:00:02+00:00\",\
         \"@mt\":\"User {UserId} performed action {Action}, counter is {Counter}\",\
         \"UserId\":\"123e4567-e89b-42d3-a456-426614174001\",\
         \"Action\":\"Update\",\
         \"Counter\":1}"
    );
}

#[test]
fn line_of_each_action() {
    for (action, name) in [
        (Action::Login, "Login"),
        (Action::Logout, "Logout"),
        (Action::Update, "Update"),
        (Action::Delete, "Delete"),
    ] {
        let line = render_log_line(&sample(0, action));
        assert!(line.contains(&format!(",\"Action\":\"{}\",", name)), "{}", line);
    }
}

#[test]
fn line_is_one_json_object_with_five_members() {
    let entry = sample(4, Action::Delete);
    let line = render_log_line(&entry);
    let value: serde_json::Value = serde_json::from_str(&line).unwrap();
    let object = value.as_object().unwrap();
    assert_eq!(object.len(), 5);
    assert_eq!(object.get("@t").unwrap().as_str(), Some("2021-01-01T00:00:08+00:00"));
    assert_eq!(object.get("@mt").unwrap().as_str(), Some(MESSAGE_TEMPLATE));
    assert_eq!(object.get("UserId").unwrap().as_str(), Some(entry.user_id.as_str()));
    assert_eq!(object.get("Action").unwrap().as_str(), Some("Delete"));
    assert_eq!(object.get("Counter").unwrap().as_u64(), Some(4));
}

#[test]
fn line_escapes_what_the_entry_holds() {
    let entry = LogEntry {
        timestamp: Instant::from_unix_nanos(0),
        message_template: String::from("a \"quoted\"\nline"),
        user_id: String::from("back\\slash\u{01}"),
        action: Action::Login,
        counter: u64::MAX,
    };
    let line = render_log_line(&entry);
    assert_eq!(
        line,
        "{\"@t\":\"1970-01-01T00:00:00+00:00\",\
         \"@mt\":\"a \\\"quoted\\\"\\nline\",\
         \"UserId\":\"back\\\\slash\\u0001\",\
         \"Action\":\"Login\",\
         \"Counter\":18446744073709551615}"
    );
    assert!(!line.contains('\n'));
    let value: serde_json::Value = serde_json::from_str(&line).unwrap();
    assert_eq!(value.get("@mt").unwrap().as_str(), Some("a \"quoted\"\nline"));
    assert_eq!(value.get("UserId").unwrap().as_str(), Some("back\\slash\u{01}"));
    assert_eq!(value.get("Counter").unwrap().as_u64(), Some(u64::MAX));
}

#[test]
fn file_text_has_one_line_for_each_entry() {
    let logs: Vec<LogEntry> = (0..5).map(|counter| sample(counter, Action::Login)).collect();
    let text = render_logs(&logs);
    assert!(text.ends_with('\n'));
    assert_eq!(text.matches('\n').count(), 5);
    let lines: Vec<&str> = text.lines().collect();
    assert_eq!(lines.len(), 5);
    for (entry, line) in logs.iter().zip(lines) {
        assert_eq!(line, render_log_line(entry));
    }
}

#[test]
fn file_text_keeps_the_order_of_the_entries() {
    let logs = vec![sample(3, Action::Delete), sample(0, Action::Login), sample(2, Action::Update)];
    let text = render_logs(&logs);
    let expected = format!(
        "{}\n{}\n{}\n",
        render_log_line(&logs[0]),
        render_log_line(&logs[1]),
        render_log_line(&logs[2])
    );
    assert_eq!(text, expected);
    let counters: Vec<u64> = text
        .lines()
        .map(|line| {
            let value: serde_json::Value = serde_json::from_str(line).unwrap();
            value.get("Counter").unwrap().as_u64().unwrap()
        })
        .collect();
    assert_eq!(counters, vec![3, 0, 2]);
}

#[test]
fn file_text_of_no_entries_is_empty() {
    assert_eq!(render_logs(&Vec::new()), "");
}

#[test]
fn file_text_has_one_line_even_for_entries_with_line_breaks() {
    let odd = |counter: u64| LogEntry {
        timestamp: Instant::from_unix_nanos(0),
        message_template: String::from("\n"),
        user_id: String::from("\n\n\r\n"),
        action: Action::Login,
        counter,
    };
    let text = render_logs(&vec![odd(0), odd(1)]);
    assert_eq!(text.matches('\n').count(), 2);
    assert_eq!(text.lines().count(), 2);
}

#[test]
fn file_name_of_an_environment() {
    assert_eq!(log_file_name("Development"), "Development_logs.json");
    assert_eq!(log_file_name("Testing"), "Testing_logs.json");
    assert_eq!(log_file_name("Acceptance"), "Acceptance_logs.json");
    assert_eq!(log_file_name("Production"), "Production_logs.json");
    assert_eq!(log_file_name(""), "_logs.json");
}
