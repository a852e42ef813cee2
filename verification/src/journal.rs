//! Entries for the journal.
use vstd::prelude::*;
use vstd::string::StringExecFns;

verus! {

/// An entry for the journal: its fields, each with its name.
pub struct Entry {
    pub priority: &'static str,
    pub message: String,
}

impl Entry {
    /// Whether the entry has the given priority field, and says `message`.
    pub open spec fn says(&self, priority: Seq<char>, message: Seq<char>) -> bool {
        &&& self.priority@ == priority
        &&& self.message@ == "MESSAGE="@ + message
    }

    /// Whether the journal took the entry, given what came back.
    pub fn sent(&self, res: i32) -> (r: bool)
        ensures
            r == (res >= 0),
    {
        res >= 0
    }
}

fn log(priority: &'static str, message: &str) -> (r: Entry)
    ensures
        r.says(priority@, message@),
{
    let field = "MESSAGE=".to_owned();
    Entry { priority, message: field.concat(message) }
}

pub fn log_emerg(message: &str) -> (r: Entry)
    ensures
        r.says("PRIORITY=0"@, message@),
{
    log("PRIORITY=0", message)
}

pub fn log_alert(message: &str) -> (r: Entry)
    ensures
        r.says("PRIORITY=1"@, message@),
{
    log("PRIORITY=1", message)
}

pub fn log_crit(message: &str) -> (r: Entry)
    ensures
        r.says("PRIORITY=2"@, message@),
{
    log("PRIORITY=2", message)
}

pub fn log_err(message: &str) -> (r: Entry)
    ensures
        r.says("PRIORITY=3"@, message@),
{
    log("PRIORITY=3", message)
}

pub fn log_warning(message: &str) -> (r: Entry)
    ensures
        r.says("PRIORITY=4"@, message@),
{
    log("PRIORITY=4", message)
}

pub fn log_notice(message: &str) -> (r: Entry)
    ensures
        r.says("PRIORITY=5"@, message@),
{
    log("PRIORITY=5", message)
}

pub fn log_info(message: &str) -> (r: Entry)
    ensures
        r.says("PRIORITY=6"@, message@),
{
    log("PRIORITY=6", message)
}

pub fn log_debug(message: &str) -> (r: Entry)
    ensures
        r.says("PRIORITY=7"@, message@),
{
    log("PRIORITY=7", message)
}

/// An entry says a message exactly when its message field is the name of the field with the message
/// behind it, unchanged, and its priority field is the given one.
pub proof fn law_entries_say_their_message(entry: Entry, priority: Seq<char>, message: Seq<char>)
    ensures
        entry.says(priority, message) <==> {
            let name = "MESSAGE="@;
            &&& entry.priority@ == priority
            &&& entry.message@.len() == name.len() + message.len()
            &&& forall|i: int| 0 <= i < name.len() ==> #[trigger] entry.message@[i] == name[i]
            &&& forall|i: int|
                0 <= i < message.len() ==> entry.message@[name.len() + i] == #[trigger] message[i]
        },
{
    let name = "MESSAGE="@;
    if entry.priority@ == priority && entry.message@.len() == name.len() + message.len() && (
    forall|i: int| 0 <= i < name.len() ==> #[trigger] entry.message@[i] == name[i]) && (forall|i: int|
        0 <= i < message.len() ==> entry.message@[name.len() + i] == #[trigger] message[i]) {
        let whole = name + message;
        assert forall|i: int| 0 <= i < whole.len() implies entry.message@[i] == whole[i] by {
            if i >= name.len() {
                assert(entry.message@[name.len() + (i - name.len())] == message[i - name.len()]);
            }
        }
        assert(entry.message@ =~= whole);
    }
}

/// Every entry has the priority that its function is named after, and the message that it was given.
pub proof fn law_log()
    ensures
        forall|message: &str, r: Entry| #[trigger]
            call_ensures(log_emerg, (message,), r) ==> logs(r, "PRIORITY=0"@, message@),
        forall|message: &str, r: Entry| #[trigger]
            call_ensures(log_alert, (message,), r) ==> logs(r, "PRIORITY=1"@, message@),
        forall|message: &str, r: Entry| #[trigger]
            call_ensures(log_crit, (message,), r) ==> logs(r, "PRIORITY=2"@, message@),
        forall|message: &str, r: Entry| #[trigger]
            call_ensures(log_err, (message,), r) ==> logs(r, "PRIORITY=3"@, message@),
        forall|message: &str, r: Entry| #[trigger]
            call_ensures(log_warning, (message,), r) ==> logs(r, "PRIORITY=4"@, message@),
        forall|message: &str, r: Entry| #[trigger]
            call_ensures(log_notice, (message,), r) ==> logs(r, "PRIORITY=5"@, message@),
        forall|message: &str, r: Entry| #[trigger]
            call_ensures(log_info, (message,), r) ==> logs(r, "PRIORITY=6"@, message@),
        forall|message: &str, r: Entry| #[trigger]
            call_ensures(log_debug, (message,), r) ==> logs(r, "PRIORITY=7"@, message@),
        forall|entry: &Entry, res: i32, r: bool| #[trigger]
            call_ensures(Entry::sent, (entry, res), r) ==> (r <==> res >= 0),
{
}

/// Whether an entry has a priority and a message.
pub open spec fn logs(entry: Entry, priority: Seq<char>, message: Seq<char>) -> bool {
    entry.priority@ == priority && entry.message@ == "MESSAGE="@ + message
}

} // verus!
