//! The layout of the conversation log in its store.
//!
//! The store holds the log as an ordered list of records, each a role name
//! and a content. Reading and writing the store is the caller's business;
//! this module turns a log into its records and back. A store that is
//! missing, blank or unreadable, or that holds a record of an unknown role,
//! gives the empty log: the conversation starts afresh rather than fail.

use crate::message::{lemma_role_name_parses, Message, MessageView, Role};
use crate::text::{is_blank, is_blank_str};
use vstd::prelude::*;

verus! {

/// The record that stores `m`: the name of its role, and its content.
pub open spec fn record_of(m: MessageView) -> (Seq<char>, Seq<char>) {
    (m.role.name(), m.content)
}

/// The message that `record` stores, if its role is known.
pub open spec fn message_of(record: (Seq<char>, Seq<char>)) -> Option<MessageView> {
    match Role::named(record.0) {
        Some(role) => Some(MessageView { role, content: record.1 }),
        None => None,
    }
}

/// The records that store `history`, in order.
pub open spec fn records_of(history: Seq<MessageView>) -> Seq<(Seq<char>, Seq<char>)> {
    history.map_values(|m: MessageView| record_of(m))
}

/// The log that `records` store, in order, if the role of each is known.
pub open spec fn log_of(records: Seq<(Seq<char>, Seq<char>)>) -> Option<Seq<MessageView>> {
    if forall|i: int| 0 <= i < records.len() ==> message_of(#[trigger] records[i]) is Some {
        Some(records.map_values(|r: (Seq<char>, Seq<char>)| message_of(r)->0))
    } else {
        None
    }
}

/// The log that a store gives: that of its records, or the empty log if it
/// has none or they are not those of a log.
pub open spec fn loaded(stored: Option<Seq<(Seq<char>, Seq<char>)>>) -> Seq<MessageView> {
    match stored {
        Some(records) => match log_of(records) {
            Some(history) => history,
            None => seq![],
        },
        None => seq![],
    }
}

/// A log that is stored and loaded again is the same log: the same messages
/// in the same order.
pub proof fn lemma_store_round_trip(history: Seq<MessageView>)
    ensures
        log_of(records_of(history)) == Some(history),
        loaded(Some(records_of(history))) == history,
{
    let records = records_of(history);
    assert forall|i: int| 0 <= i < records.len() implies message_of(#[trigger] records[i])
        == Some(history[i]) by {
        lemma_role_name_parses(history[i].role);
    }
    assert(records.map_values(|r: (Seq<char>, Seq<char>)| message_of(r)->0) =~= history);
}

/// Whether the contents of a store hold anything to decode.
pub fn holds_log(contents: &str) -> (r: bool)
    ensures
        r == !is_blank(contents@),
{
    !is_blank_str(contents)
}

/// The records that store `history`, in order.
pub fn save_history(history: &Vec<Message>) -> (r: Vec<(String, String)>)
    ensures
        r.deep_view() == records_of(history.deep_view()),
{
    let ghost wanted = records_of(history.deep_view());
    let mut records: Vec<(String, String)> = Vec::new();
    let n = history.len();
    let mut i: usize = 0;
    assert(records.deep_view() =~= wanted.take(0));
    while i < n
        invariant
            n == history.len(),
            i <= n,
            wanted == records_of(history.deep_view()),
            records.deep_view() == wanted.take(i as int),
        decreases n - i,
    {
        let ghost before = records.deep_view();
        let record = (history[i].role.as_str().to_owned(), history[i].content.clone());
        records.push(record);
        assert(history.deep_view()[i as int] == history[i as int]@);
        assert(records.deep_view() =~= before.push(record_of(history[i as int]@)));
        assert(before.push(record_of(history[i as int]@)) =~= wanted.take(i + 1));
        i += 1;
    }
    assert(wanted.take(n as int) =~= wanted);
    records
}

/// The log that `records` store, if the role of each is known.
pub fn history_from_records(records: Vec<(String, String)>) -> (r: Option<Vec<Message>>)
    ensures
        r.deep_view() == log_of(records.deep_view()),
{
    let ghost all = records.deep_view();
    let ghost read = |r: (Seq<char>, Seq<char>)| message_of(r)->0;
    let mut history: Vec<Message> = Vec::new();
    let n = records.len();
    let mut i: usize = 0;
    assert(history.deep_view() =~= all.take(0).map_values(read));
    while i < n
        invariant
            n == records.len(),
            i <= n,
            all == records.deep_view(),
            read == |r: (Seq<char>, Seq<char>)| message_of(r)->0,
            forall|k: int| 0 <= k < i ==> message_of(#[trigger] all[k]) is Some,
            history.deep_view() == all.take(i as int).map_values(read),
        decreases n - i,
    {
        let ghost before = history.deep_view();
        assert(all[i as int] == records[i as int].deep_view());
        match Role::parse(records[i].0.as_str()) {
            Some(role) => {
                history.push(Message { role, content: records[i].1.clone() });
                assert(history.deep_view() =~= before.push(message_of(all[i as int])->0));
                assert(before.push(message_of(all[i as int])->0) =~= all.take(i + 1).map_values(
                    read,
                ));
            },
            None => {
                assert(message_of(all[i as int]) is None);
                return None;
            },
        }
        i += 1;
    }
    assert(all.take(n as int) =~= all);
    Some(history)
}

/// The log that a store gives: that of the decoded records, or the empty log
/// if there are none or they are not those of a log.
pub fn load_history(stored: Option<Vec<(String, String)>>) -> (r: Vec<Message>)
    ensures
        r.deep_view() == loaded(stored.deep_view()),
{
    let found = match stored {
        Some(records) => history_from_records(records),
        None => None,
    };
    match found {
        Some(history) => history,
        None => {
            let empty: Vec<Message> = Vec::new();
            assert(empty.deep_view() =~= seq![]);
            empty
        },
    }
}

} // verus!
