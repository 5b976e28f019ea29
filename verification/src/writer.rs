//! The batch writer: records as JSON Lines text, and the name of the file
//! that holds the records of an environment.
//!
//! A record becomes one line: a compact JSON object with the members `@t`,
//! `@mt`, `UserId`, `Action` and `Counter`, in this order. A file holds the
//! lines of its records in the order of the records, each ended by a line
//! feed.

use crate::entry::LogEntry;
use crate::json::{
    decimal, is_control, has_no_control, json_string, lemma_decimal_is_digits,
    lemma_json_string_has_no_control, lemma_no_control_concat, push_decimal, push_json_string,
    string_push,
};
use crate::time::rfc3339_text;
use vstd::prelude::*;

verus! {

/// The key of the instant of a record.
pub const KEY_TIMESTAMP: &'static str = "@t";

/// The key of the message template.
pub const KEY_MESSAGE_TEMPLATE: &'static str = "@mt";

/// The key of the user's identifier.
pub const KEY_USER_ID: &'static str = "UserId";

/// The key of the action.
pub const KEY_ACTION: &'static str = "Action";

/// The key of the counter.
pub const KEY_COUNTER: &'static str = "Counter";

/// What follows the name of an environment in the name of its file.
pub const LOG_FILE_SUFFIX: &'static str = "_logs.json";

/// A member of a JSON object: the key as a string, a colon, the value.
pub open spec fn json_member(key: Seq<char>, value: Seq<char>) -> Seq<char> {
    json_string(key) + seq![':'] + value
}

/// The line of a record.
pub open spec fn log_line(entry: LogEntry) -> Seq<char> {
    seq!['{'] + json_member(KEY_TIMESTAMP@, json_string(rfc3339_text(entry.timestamp@)))
        + seq![','] + json_member(KEY_MESSAGE_TEMPLATE@, json_string(entry.message_template@))
        + seq![','] + json_member(KEY_USER_ID@, json_string(entry.user_id@))
        + seq![','] + json_member(KEY_ACTION@, json_string(entry.action.name_text()))
        + seq![','] + json_member(KEY_COUNTER@, decimal(entry.counter as nat))
        + seq!['}']
}

/// The text of a file: the lines of the records, each ended by a line feed.
pub open spec fn log_file_text(entries: Seq<LogEntry>) -> Seq<char>
    decreases entries.len(),
{
    if entries.len() == 0 {
        Seq::empty()
    } else {
        log_file_text(entries.drop_last()) + log_line(entries.last()) + seq!['\n']
    }
}

/// The lines of the records, in the order of the records.
pub open spec fn log_lines(entries: Seq<LogEntry>) -> Seq<Seq<char>> {
    Seq::new(entries.len(), |i: int| log_line(entries[i]))
}

/// The unfinished line at the end of a text: what follows its last line
/// feed. It is empty where the text ends with a line feed.
pub open spec fn open_line(text: Seq<char>) -> Seq<char>
    decreases text.len(),
{
    if text.len() == 0 || text.last() == '\n' {
        Seq::empty()
    } else {
        open_line(text.drop_last()).push(text.last())
    }
}

/// The lines of a text: the pieces that a line feed ends, in their order and
/// without the line feed.
pub open spec fn lines_of(text: Seq<char>) -> Seq<Seq<char>>
    decreases text.len(),
{
    if text.len() == 0 {
        Seq::empty()
    } else if text.last() == '\n' {
        lines_of(text.drop_last()).push(open_line(text.drop_last()))
    } else {
        lines_of(text.drop_last())
    }
}

/// The name of the file of an environment.
pub open spec fn log_file_name_text(environment: Seq<char>) -> Seq<char> {
    environment + LOG_FILE_SUFFIX@
}

/// A piece without control characters at the end of a text ends no line:
/// it lengthens the unfinished one.
pub proof fn lemma_piece_stays_on_the_line(text: Seq<char>, piece: Seq<char>)
    requires
        has_no_control(piece),
    ensures
        lines_of(text + piece) == lines_of(text),
        open_line(text + piece) == open_line(text) + piece,
    decreases piece.len(),
{
    if piece.len() == 0 {
        assert(text + piece == text);
        assert(open_line(text) + piece == open_line(text));
    } else {
        let shorter = piece.drop_last();
        assert(has_no_control(shorter)) by {
            assert forall|i: int| 0 <= i < shorter.len() implies !is_control(
                #[trigger] shorter[i],
            ) by {
                assert(shorter[i] == piece[i]);
            }
        }
        assert(!is_control(piece[piece.len() - 1]));
        assert((text + piece).drop_last() == text + shorter);
        assert((text + piece).last() == piece.last());
        lemma_piece_stays_on_the_line(text, shorter);
        assert(open_line(text + piece) == (open_line(text) + shorter).push(piece.last()));
        assert((open_line(text) + shorter).push(piece.last()) == open_line(text) + piece);
    }
}

/// A member holds no control character where its value holds none.
pub proof fn lemma_member_has_no_control(key: Seq<char>, value: Seq<char>)
    requires
        has_no_control(value),
    ensures
        has_no_control(json_member(key, value)),
{
    lemma_json_string_has_no_control(key);
    lemma_no_control_concat(json_string(key), seq![':']);
    lemma_no_control_concat(json_string(key) + seq![':'], value);
}

/// The line of a record holds no control character, whatever the record
/// holds: no line feed stands inside a line.
pub proof fn lemma_log_line_has_no_control(entry: LogEntry)
    ensures
        has_no_control(log_line(entry)),
{
    let stamp = json_member(KEY_TIMESTAMP@, json_string(rfc3339_text(entry.timestamp@)));
    let template = json_member(KEY_MESSAGE_TEMPLATE@, json_string(entry.message_template@));
    let user = json_member(KEY_USER_ID@, json_string(entry.user_id@));
    let action = json_member(KEY_ACTION@, json_string(entry.action.name_text()));
    let counter = json_member(KEY_COUNTER@, decimal(entry.counter as nat));
    lemma_json_string_has_no_control(rfc3339_text(entry.timestamp@));
    lemma_json_string_has_no_control(entry.message_template@);
    lemma_json_string_has_no_control(entry.user_id@);
    lemma_json_string_has_no_control(entry.action.name_text());
    lemma_decimal_is_digits(entry.counter as nat);
    lemma_member_has_no_control(KEY_TIMESTAMP@, json_string(rfc3339_text(entry.timestamp@)));
    lemma_member_has_no_control(KEY_MESSAGE_TEMPLATE@, json_string(entry.message_template@));
    lemma_member_has_no_control(KEY_USER_ID@, json_string(entry.user_id@));
    lemma_member_has_no_control(KEY_ACTION@, json_string(entry.action.name_text()));
    lemma_member_has_no_control(KEY_COUNTER@, decimal(entry.counter as nat));
    let s1 = seq!['{'] + stamp;
    lemma_no_control_concat(seq!['{'], stamp);
    let s2 = s1 + seq![','];
    lemma_no_control_concat(s1, seq![',']);
    let s3 = s2 + template;
    lemma_no_control_concat(s2, template);
    let s4 = s3 + seq![','];
    lemma_no_control_concat(s3, seq![',']);
    let s5 = s4 + user;
    lemma_no_control_concat(s4, user);
    let s6 = s5 + seq![','];
    lemma_no_control_concat(s5, seq![',']);
    let s7 = s6 + action;
    lemma_no_control_concat(s6, action);
    let s8 = s7 + seq![','];
    lemma_no_control_concat(s7, seq![',']);
    let s9 = s8 + counter;
    lemma_no_control_concat(s8, counter);
    lemma_no_control_concat(s9, seq!['}']);
}

/// The lines of a file are the lines of its records, one for each and in
/// their order, and no unfinished line follows them.
pub proof fn lemma_file_has_the_lines_of_its_entries(entries: Seq<LogEntry>)
    ensures
        lines_of(log_file_text(entries)) == log_lines(entries),
        lines_of(log_file_text(entries)).len() == entries.len(),
        open_line(log_file_text(entries)) == Seq::<char>::empty(),
    decreases entries.len(),
{
    if entries.len() > 0 {
        let before = log_file_text(entries.drop_last());
        let line = log_line(entries.last());
        let text = log_file_text(entries);
        lemma_file_has_the_lines_of_its_entries(entries.drop_last());
        lemma_log_line_has_no_control(entries.last());
        lemma_piece_stays_on_the_line(before, line);
        assert(text.drop_last() == before + line);
        assert(text.last() == '\n');
        assert(open_line(before + line) == line);
        assert(lines_of(text) == log_lines(entries.drop_last()).push(line));
        assert(log_lines(entries.drop_last()).push(line) =~= log_lines(entries));
    } else {
        assert(lines_of(log_file_text(entries)) =~= log_lines(entries));
    }
}

/// Appends a member of a JSON object up to its value: the key and the colon.
fn push_member_key(out: &mut String, key: &str)
    ensures
        final(out)@ == old(out)@ + json_string(key@) + seq![':'],
{
    push_json_string(out, key);
    string_push(out, ':');
}

/// The line of a record, without the line feed.
pub fn render_log_line(entry: &LogEntry) -> (line: String)
    ensures
        line@ == log_line(*entry),
{
    let mut line = String::new();
    string_push(&mut line, '{');
    push_member_key(&mut line, KEY_TIMESTAMP);
    let stamp = entry.timestamp.to_rfc3339();
    push_json_string(&mut line, stamp.as_str());
    string_push(&mut line, ',');
    push_member_key(&mut line, KEY_MESSAGE_TEMPLATE);
    push_json_string(&mut line, entry.message_template.as_str());
    string_push(&mut line, ',');
    push_member_key(&mut line, KEY_USER_ID);
    push_json_string(&mut line, entry.user_id.as_str());
    string_push(&mut line, ',');
    push_member_key(&mut line, KEY_ACTION);
    push_json_string(&mut line, entry.action.name());
    string_push(&mut line, ',');
    push_member_key(&mut line, KEY_COUNTER);
    push_decimal(&mut line, entry.counter);
    string_push(&mut line, '}');
    assert(line@ =~= log_line(*entry));
    line
}

/// The text of the file that holds `logs`: one line for each record, in the
/// order of the records.
pub fn render_logs(logs: &Vec<LogEntry>) -> (text: String)
    ensures
        text@ == log_file_text(logs@),
        lines_of(text@) == log_lines(logs@),
        lines_of(text@).len() == logs@.len(),
{
    let mut text = String::new();
    let count = logs.len();
    for i in 0..count
        invariant
            count == logs@.len(),
            text@ == log_file_text(logs@.take(i as int)),
    {
        let line = render_log_line(&logs[i]);
        text.append(line.as_str());
        string_push(&mut text, '\n');
        proof {
            assert(logs@.take(i + 1).drop_last() == logs@.take(i as int));
            assert(logs@.take(i + 1).last() == logs@[i as int]);
        }
    }
    proof {
        assert(logs@.take(count as int) == logs@);
        lemma_file_has_the_lines_of_its_entries(logs@);
    }
    text
}

/// The name of the file that holds the records of `environment`.
pub fn log_file_name(environment: &str) -> (name: String)
    ensures
        name@ == log_file_name_text(environment@),
{
    let mut name = String::from_str(environment);
    name.append(LOG_FILE_SUFFIX);
    name
}

} // verus!
