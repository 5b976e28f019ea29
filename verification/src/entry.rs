//! The entry synthesizer: one log record for a counter and an instant.

use crate::time::Instant;
use rand::Rng;
use vstd::prelude::*;

verus! {

/// The number of actions a record can report.
pub const ACTION_COUNT: usize = 4;

/// The message template that every record carries. The braces mark where a
/// display tool puts the values of the record; they are not filled in here.
pub const MESSAGE_TEMPLATE: &'static str =
    "User {UserId} performed action {Action}, counter is {Counter}";

/// What the user of a record did.
#[derive(Clone, Copy, Debug, PartialEq, Eq, Structural)]
pub enum Action {
    Login,
    Logout,
    Update,
    Delete,
}

impl Action {
    /// The action at a place of the table `Login, Logout, Update, Delete`.
    pub open spec fn at(index: int) -> Action {
        if index == 0 {
            Action::Login
        } else if index == 1 {
            Action::Logout
        } else if index == 2 {
            Action::Update
        } else {
            Action::Delete
        }
    }

    /// The name under which the action is written out.
    pub open spec fn name_text(self) -> Seq<char> {
        match self {
            Action::Login => "Login"@,
            Action::Logout => "Logout"@,
            Action::Update => "Update"@,
            Action::Delete => "Delete"@,
        }
    }

    /// The action at place `index` of the table.
    pub fn from_index(index: usize) -> (action: Action)
        requires
            index < ACTION_COUNT,
        ensures
            action == Action::at(index as int),
    {
        if index == 0 {
            Action::Login
        } else if index == 1 {
            Action::Logout
        } else if index == 2 {
            Action::Update
        } else {
            Action::Delete
        }
    }

    /// The name under which the action is written out: one of the four.
    pub fn name(&self) -> (name: &'static str)
        ensures
            name@ == self.name_text(),
            is_action_name(name@),
    {
        match self {
            Action::Login => "Login",
            Action::Logout => "Logout",
            Action::Update => "Update",
            Action::Delete => "Delete",
        }
    }
}

/// The four names under which an action is written out.
pub open spec fn is_action_name(text: Seq<char>) -> bool {
    text == "Login"@ || text == "Logout"@ || text == "Update"@ || text == "Delete"@
}

/// The names of the actions are the four names, and no other text.
pub proof fn lemma_action_names_are_the_four(text: Seq<char>)
    ensures
        is_action_name(text) <==> exists|action: Action| #[trigger] action.name_text() == text,
{
    if text == "Login"@ {
        assert(Action::Login.name_text() == text);
    } else if text == "Logout"@ {
        assert(Action::Logout.name_text() == text);
    } else if text == "Update"@ {
        assert(Action::Update.name_text() == text);
    } else if text == "Delete"@ {
        assert(Action::Delete.name_text() == text);
    }
}

/// A digit of lower-case hexadecimal notation.
pub open spec fn is_lower_hex_digit(c: char) -> bool {
    ('0' <= c && c <= '9') || ('a' <= c && c <= 'f')
}

/// The four places of a canonical identifier that hold a hyphen.
pub open spec fn is_hyphen_place(i: int) -> bool {
    i == 8 || i == 13 || i == 18 || i == 23
}

/// The canonical text of a universally unique identifier: 36 characters,
/// lower-case hexadecimal digits in groups of 8, 4, 4, 4 and 12 with a hyphen
/// between two groups.
pub open spec fn is_canonical_uuid(text: Seq<char>) -> bool {
    &&& text.len() == 36
    &&& forall|i: int|
        0 <= i < 36 ==> if is_hyphen_place(i) {
            #[trigger] text[i] == '-'
        } else {
            is_lower_hex_digit(text[i])
        }
}

/// The canonical text of a random (version 4) identifier: the first digit of
/// the third group is the version, the first digit of the fourth group holds
/// the variant in its two upper bits.
pub open spec fn is_random_uuid(text: Seq<char>) -> bool {
    &&& is_canonical_uuid(text)
    &&& text[14] == '4'
    &&& (text[19] == '8' || text[19] == '9' || text[19] == 'a' || text[19] == 'b')
}

/// One synthetic event.
#[derive(Debug, PartialEq, Eq)]
pub struct LogEntry {
    /// When the event is said to have happened.
    pub timestamp: Instant,
    /// The shape of the message, the same for every record.
    pub message_template: String,
    /// The identifier of the user, in canonical text.
    pub user_id: String,
    /// What the user did.
    pub action: Action,
    /// The place of the record in the sequence of its environment, from 0.
    pub counter: u64,
}

impl LogEntry {
    /// What holds of every record that the synthesizer makes, whatever was
    /// drawn at random: it carries the one message template and a random
    /// identifier in canonical text.
    pub open spec fn well_formed(&self) -> bool {
        &&& self.message_template@ == MESSAGE_TEMPLATE@
        &&& is_random_uuid(self.user_id@)
    }
}

/// Draws a fresh random identifier with the uuid crate.
///
/// Not proved: the result is the text that `to_string` gives of what
/// `uuid::Uuid::new_v4` returns. The crate sets version 4 and the RFC variant
/// in every identifier it draws there, and writes an identifier as 32
/// lower-case hexadecimal digits with hyphens after the 8th, 12th, 16th and
/// 20th. Which digits come is left open: they are random. The call aborts
/// where the system has no random bytes to give.
#[verifier::external_body]
fn uuid_new_v4_text() -> (text: String)
    ensures
        is_random_uuid(text@),
{
    uuid::Uuid::new_v4().to_string()
}

/// Draws a number below `bound` with the rand crate.
///
/// Not proved: the result is what `gen_range(0..bound)` returns on
/// `rand::thread_rng()`, a value of the range, each with the same chance. An
/// empty range makes `gen_range` panic, so the bound is positive. The call
/// aborts where the generator of the thread cannot be seeded.
#[verifier::external_body]
fn rand_index_below(bound: usize) -> (index: usize)
    requires
        bound > 0,
    ensures
        index < bound,
{
    rand::thread_rng().gen_range(0..bound)
}

/// The record with the given counter and instant, the given identifier and
/// the action at place `action_index` of the table.
pub fn assemble_log_entry(
    counter: u64,
    timestamp: Instant,
    user_id: String,
    action_index: usize,
) -> (entry: LogEntry)
    requires
        action_index < ACTION_COUNT,
    ensures
        entry.counter == counter,
        entry.timestamp == timestamp,
        entry.message_template@ == MESSAGE_TEMPLATE@,
        entry.user_id@ == user_id@,
        entry.action == Action::at(action_index as int),
{
    LogEntry {
        timestamp,
        message_template: String::from_str(MESSAGE_TEMPLATE),
        user_id,
        action: Action::from_index(action_index),
        counter,
    }
}

/// A new record for `counter` at `timestamp`, with a fresh random identifier
/// and an action drawn at random from the table. Two calls differ in what
/// was drawn; counter, instant and template are as given.
pub fn generate_log_entry(counter: u64, timestamp: Instant) -> (entry: LogEntry)
    ensures
        entry.counter == counter,
        entry.timestamp == timestamp,
        entry.well_formed(),
{
    let user_id = uuid_new_v4_text();
    let action_index = rand_index_below(ACTION_COUNT);
    assemble_log_entry(counter, timestamp, user_id, action_index)
}

} // verus!
