//! Access control of the message gateways: which inbound messages reach the
//! agent.
//!
//! A gateway never answers itself. Beyond that, one gateway answers only
//! the senders on an allow-list, or everyone if it is public, or no one if
//! neither is configured; the other answers a message only if it mentions
//! the agent.

use crate::number::{parse_i64, signed_number};
use crate::text::{chars_of, find, find_in, split, split_trimmed, trim};
use vstd::prelude::*;

verus! {

/// Who may talk to the agent.
#[derive(Debug, PartialEq, Eq)]
pub enum AccessMode {
    /// Only the senders with these identifiers.
    AllowList(Vec<i64>),
    /// Everyone.
    Public,
    /// No one.
    Disabled,
}

/// An access mode as a mathematical value.
pub enum AccessModeView {
    AllowList(Seq<i64>),
    Public,
    Disabled,
}

impl View for AccessMode {
    type V = AccessModeView;

    open spec fn view(&self) -> AccessModeView {
        match self {
            AccessMode::AllowList(ids) => AccessModeView::AllowList(ids@),
            AccessMode::Public => AccessModeView::Public,
            AccessMode::Disabled => AccessModeView::Disabled,
        }
    }
}

/// Whether `s` is the word `true`, in upper or lower case letters.
pub open spec fn is_true_word(s: Seq<char>) -> bool {
    &&& s.len() == 4
    &&& (s[0] == 't' || s[0] == 'T')
    &&& (s[1] == 'r' || s[1] == 'R')
    &&& (s[2] == 'u' || s[2] == 'U')
    &&& (s[3] == 'e' || s[3] == 'E')
}

/// The number that `piece` reads as, as a list: empty if it reads as none.
pub open spec fn number_part(piece: Seq<char>) -> Seq<i64> {
    match signed_number(trim(piece), i64::MIN as int, i64::MAX as int) {
        Some(v) => seq![v as i64],
        None => seq![],
    }
}

/// The numbers among `pieces`, in order.
pub open spec fn numbers_among(pieces: Seq<Seq<char>>) -> Seq<i64>
    decreases pieces.len(),
{
    if pieces.len() == 0 {
        seq![]
    } else {
        numbers_among(pieces.drop_last()) + number_part(pieces.last())
    }
}

/// The identifiers that a comma-separated list holds: its entries that read
/// as numbers, in order.
pub open spec fn listed_ids(text: Seq<char>) -> Seq<i64> {
    numbers_among(split(text, ','))
}

/// The access mode that the configuration asks for: the allow-list if it
/// holds an identifier, whether or not the gateway is also marked public;
/// else public if it is marked so; else disabled.
pub open spec fn configured_mode(allowed_ids: Seq<char>, public: Option<Seq<char>>) -> AccessModeView {
    if listed_ids(allowed_ids).len() > 0 {
        AccessModeView::AllowList(listed_ids(allowed_ids))
    } else if public matches Some(p) && is_true_word(p) {
        AccessModeView::Public
    } else {
        AccessModeView::Disabled
    }
}

/// Whether `mode` lets the sender `sender_id` through.
pub open spec fn access_granted(mode: AccessModeView, sender_id: i64) -> bool {
    match mode {
        AccessModeView::AllowList(ids) => ids.contains(sender_id),
        AccessModeView::Public => true,
        AccessModeView::Disabled => false,
    }
}

/// Whether a message of `sender_id` reaches the agent, for a gateway that
/// speaks as `self_id`.
pub open spec fn message_admitted(mode: AccessModeView, self_id: i64, sender_id: i64) -> bool {
    sender_id != self_id && access_granted(mode, sender_id)
}

/// The text that mentions the user `id`.
pub open spec fn mention_of(id: Seq<char>) -> Seq<char> {
    "<@"@ + id + ">"@
}

/// Whether a message with the text `content` from `author_id` is one to
/// answer, for a gateway that speaks as `self_id`: it is not the gateway's
/// own, and it mentions the gateway.
pub open spec fn mentions_agent(author_id: Seq<char>, self_id: Seq<char>, content: Seq<char>) -> bool {
    author_id != self_id && find(content, mention_of(self_id)) is Some
}

/// While an allow-list is in force, a message from a sender who is not on it
/// does not reach the agent, whoever the gateway speaks as.
pub proof fn lemma_allow_list_filters(ids: Seq<i64>, self_id: i64, sender_id: i64)
    requires
        !ids.contains(sender_id),
    ensures
        !access_granted(AccessModeView::AllowList(ids), sender_id),
        !message_admitted(AccessModeView::AllowList(ids), self_id, sender_id),
{
}

/// A configured allow-list is what is in force, also for a gateway that is
/// marked public.
pub proof fn lemma_allow_list_wins(allowed_ids: Seq<char>, public: Option<Seq<char>>)
    requires
        listed_ids(allowed_ids).len() > 0,
    ensures
        configured_mode(allowed_ids, public) == AccessModeView::AllowList(listed_ids(allowed_ids)),
{
}

/// Whether `s` is the word `true`, in upper or lower case letters.
pub fn is_true(s: &str) -> (r: bool)
    ensures
        r == is_true_word(s@),
{
    let c = chars_of(s);
    c.len() == 4 && (c[0] == 't' || c[0] == 'T') && (c[1] == 'r' || c[1] == 'R') && (c[2] == 'u'
        || c[2] == 'U') && (c[3] == 'e' || c[3] == 'E')
}

/// The identifiers that the comma-separated list `text` holds.
pub fn parse_id_list(text: &str) -> (r: Vec<i64>)
    ensures
        r@ == listed_ids(text@),
{
    let pieces = split_trimmed(text, ',');
    let ghost entries = split(text@, ',');
    let mut ids: Vec<i64> = Vec::new();
    let n = pieces.len();
    let mut i: usize = 0;
    assert(pieces.deep_view().len() == entries.map_values(|piece: Seq<char>| trim(piece)).len());
    assert(ids@ =~= numbers_among(entries.take(0)));
    while i < n
        invariant
            n == pieces.len(),
            n == entries.len(),
            i <= n,
            entries == split(text@, ','),
            pieces.deep_view() == entries.map_values(|piece: Seq<char>| trim(piece)),
            ids@ == numbers_among(entries.take(i as int)),
        decreases n - i,
    {
        let ghost before = ids@;
        assert(entries.take(i + 1).drop_last() =~= entries.take(i as int));
        assert(entries.take(i + 1).last() == entries[i as int]);
        assert(pieces.deep_view()[i as int] == trim(entries[i as int]));
        assert(pieces.deep_view()[i as int] == pieces[i as int]@);
        match parse_i64(pieces[i].as_str()) {
            Some(id) => {
                ids.push(id);
                assert(ids@ =~= before + seq![id]);
            },
            None => {
                assert(ids@ =~= before + Seq::<i64>::empty());
            },
        }
        i += 1;
    }
    assert(entries.take(n as int) =~= entries);
    ids
}

/// The access mode that the configuration asks for, from the list of allowed
/// identifiers and the public mark, if it is set.
pub fn init_access_mode(allowed_ids: &str, public: Option<&str>) -> (r: AccessMode)
    ensures
        r@ == configured_mode(allowed_ids@, public.deep_view()),
{
    let ids = parse_id_list(allowed_ids);
    let is_public = match public {
        Some(p) => is_true(p),
        None => false,
    };
    if ids.len() > 0 {
        AccessMode::AllowList(ids)
    } else if is_public {
        AccessMode::Public
    } else {
        AccessMode::Disabled
    }
}

/// Whether `ids` holds `id`.
pub fn holds_id(ids: &Vec<i64>, id: i64) -> (r: bool)
    ensures
        r == ids@.contains(id),
{
    let n = ids.len();
    let mut i: usize = 0;
    while i < n
        invariant
            n == ids.len(),
            i <= n,
            forall|k: int| 0 <= k < i ==> ids@[k] != id,
        decreases n - i,
    {
        if ids[i] == id {
            assert(ids@[i as int] == id);
            return true;
        }
        i += 1;
    }
    false
}

/// Whether `mode` lets the sender `sender_id` through.
pub fn validate_access(mode: &AccessMode, sender_id: i64) -> (r: bool)
    ensures
        r == access_granted(mode@, sender_id),
        mode@ matches AccessModeView::AllowList(ids) && !ids.contains(sender_id) ==> !r,
{
    match mode {
        AccessMode::AllowList(ids) => holds_id(ids, sender_id),
        AccessMode::Public => true,
        AccessMode::Disabled => false,
    }
}

/// Whether a message of `sender_id` is to reach the agent, for a gateway
/// that speaks as `self_id`: it is not the gateway's own, and `mode` lets
/// its sender through.
pub fn admits_message(mode: &AccessMode, self_id: i64, sender_id: i64) -> (r: bool)
    ensures
        r == message_admitted(mode@, self_id, sender_id),
        mode@ matches AccessModeView::AllowList(ids) && !ids.contains(sender_id) ==> !r,
{
    sender_id != self_id && validate_access(mode, sender_id)
}

/// Whether a message with the text `content` from `author_id` is to reach
/// the agent, for a gateway that speaks as `self_id`: it is not the
/// gateway's own, and it mentions the gateway.
pub fn check_should_proceed(author_id: &str, self_id: &str, content: &str) -> (r: bool)
    ensures
        r == mentions_agent(author_id@, self_id@, content@),
{
    let author = chars_of(author_id);
    let me = chars_of(self_id);
    if crate::text::same_chars(&author, &me) {
        return false;
    }
    let mut mention: Vec<char> = Vec::new();
    mention.push('<');
    mention.push('@');
    mention.extend_from_slice(me.as_slice());
    mention.push('>');
    proof {
        reveal_strlit("<@");
        reveal_strlit(">");
        assert(mention@ =~= mention_of(self_id@));
    }
    let text = chars_of(content);
    assert(text@.subrange(0, text.len() as int) =~= content@);
    find_in(&text, 0, text.len(), &mention).is_some()
}

} // verus!
