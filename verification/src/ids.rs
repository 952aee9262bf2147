//! Matrix identifiers.
use vstd::prelude::*;

use crate::text::{
    begins_with, find, find_from, from_chars_between, lemma_find_is_first_occurrence, opt_text,
    same_text, texts, to_chars,
};

verus! {

/// What `OwnedUserId::from_str` of ruma makes of a text: the user ID, where the
/// text is one.
pub uninterp spec fn parsed_user_id(s: Seq<char>) -> Option<Seq<char>>;

/// Reads a user ID with `OwnedUserId::from_str` of ruma. The result depends on
/// the text alone, and an accepted text is the user ID as it stands.
#[verifier::external_body]
pub(crate) fn parse_user_id(s: &str) -> (r: Option<String>)
    ensures
        opt_text(r) == parsed_user_id(s@),
        r matches Some(id) ==> id@ == s@,
{
    s.parse::<matrix_sdk::ruma::OwnedUserId>().ok().map(|id| id.to_string())
}

/// What `EventId::parse` of ruma makes of a text: the event ID, or what is wrong
/// with the text.
pub uninterp spec fn parsed_event_id(s: Seq<char>) -> Result<Seq<char>, Seq<char>>;

/// The texts of a result.
pub open spec fn text_result(r: Result<String, String>) -> Result<Seq<char>, Seq<char>> {
    match r {
        Ok(s) => Ok(s@),
        Err(e) => Err(e@),
    }
}

/// Reads an event ID with `EventId::parse` of ruma; a refusal comes as the text
/// of the error. The result depends on the text alone, and an accepted text is
/// the event ID as it stands.
#[verifier::external_body]
pub(crate) fn parse_event_id(s: &str) -> (r: Result<String, String>)
    ensures
        text_result(r) == parsed_event_id(s@),
        r matches Ok(id) ==> id@ == s@,
{
    match matrix_sdk::ruma::EventId::parse(s) {
        Ok(id) => Ok(id.to_string()),
        Err(e) => Err(e.to_string()),
    }
}

/// What `RoomId::server_name` of ruma gives for a text: the server in a room ID,
/// where the text is a room ID and names a server.
pub uninterp spec fn room_server(s: Seq<char>) -> Option<Seq<char>>;

/// Reads the server in a room ID with `RoomId::server_name` of ruma. The result
/// depends on the text alone.
#[verifier::external_body]
pub(crate) fn room_server_name(s: &str) -> (r: Option<String>)
    ensures
        opt_text(r) == room_server(s@),
{
    let room_id = matrix_sdk::ruma::RoomId::parse(s).ok()?;
    room_id.server_name().map(|server| server.to_string())
}

/// What `RoomOrAliasId::parse` of ruma makes of a text: what names a room, or
/// what is wrong with the text.
pub uninterp spec fn parsed_room(s: Seq<char>) -> Result<Seq<char>, Seq<char>>;

/// Reads what names a room with `RoomOrAliasId::parse` of ruma; a refusal comes
/// as the text of the error. The result depends on the text alone, and an
/// accepted text is the name as it stands.
#[verifier::external_body]
pub(crate) fn parse_room(s: &str) -> (r: Result<String, String>)
    ensures
        text_result(r) == parsed_room(s@),
        r matches Ok(room) ==> room@ == s@,
{
    match matrix_sdk::ruma::RoomOrAliasId::parse(s) {
        Ok(room) => Ok(room.to_string()),
        Err(e) => Err(e.to_string()),
    }
}

/// The server in a user ID: what follows its first colon.
pub open spec fn server_part(user_id: Seq<char>) -> Seq<char> {
    match find(user_id, ":"@) {
        Some(i) => user_id.skip(i + 1),
        None => user_id,
    }
}

/// The server in a user ID: what follows its first colon.
pub fn user_server_name(user_id: &str) -> (r: String)
    ensures
        r@ == server_part(user_id@),
{
    let v = to_chars(user_id);
    let colon = to_chars(":");
    let n: usize = v.len();
    proof {
        reveal_strlit(":");
        assert(v@.skip(0) =~= v@);
        lemma_find_is_first_occurrence(v@, ":"@);
    }
    match find_from(&v, 0, &colon) {
        Some(i) => {
            let r = from_chars_between(&v, i + 1, n);
            assert(r@ =~= user_id@.skip(i + 1));
            r
        },
        None => user_id.to_owned(),
    }
}

/// The user IDs among `list`, in order.
pub open spec fn user_ids(list: Seq<Seq<char>>) -> Seq<Seq<char>>
    decreases list.len(),
{
    if list.len() == 0 {
        seq![]
    } else {
        let head = user_ids(list.drop_last());
        match parsed_user_id(list.last()) {
            Some(id) => head.push(id),
            None => head,
        }
    }
}

/// The user IDs among the configured texts; the others are left out.
pub fn valid_user_ids(list: &Vec<String>) -> (r: Vec<String>)
    ensures
        texts(r@) == user_ids(texts(list@)),
{
    let ghost all = texts(list@);
    let mut r: Vec<String> = Vec::new();
    let mut i: usize = 0;
    assert(texts(r@) =~= user_ids(all.take(0)));
    while i < list.len()
        invariant
            i <= list@.len(),
            all == texts(list@),
            texts(r@) == user_ids(all.take(i as int)),
        decreases list@.len() - i,
    {
        let ghost before = texts(r@);
        assert(all.take(i + 1).drop_last() =~= all.take(i as int));
        assert(all.take(i + 1).last() == list@[i as int]@);
        if let Some(id) = parse_user_id(list[i].as_str()) {
            r.push(id);
            assert(texts(r@) =~= before.push(id@));
        }
        i = i + 1;
    }
    assert(all.take(i as int) =~= all);
    r
}

/// Whether `id` is one of `list`.
pub fn is_listed(list: &Vec<String>, id: &str) -> (r: bool)
    ensures
        r == texts(list@).contains(id@),
{
    let ghost all = texts(list@);
    let mut i: usize = 0;
    while i < list.len()
        invariant
            i <= list@.len(),
            all == texts(list@),
            forall|j: int| 0 <= j < i ==> #[trigger] all[j] != id@,
        decreases list@.len() - i,
    {
        if same_text(list[i].as_str(), id) {
            assert(all[i as int] == id@);
            return true;
        }
        i = i + 1;
    }
    false
}

/// The server of a user ID is what follows its first colon.
pub proof fn law_server_part(name: Seq<char>, server: Seq<char>)
    requires
        !name.contains(':'),
    ensures
        server_part(name + seq![':'] + server) == server,
        server_part(name) == name,
{
    reveal_strlit(":");
    assert(":"@ =~= seq![':']);
    let s = name + seq![':'] + server;
    lemma_find_is_first_occurrence(s, ":"@);
    lemma_find_is_first_occurrence(name, ":"@);
    assert(s.subrange(name.len() as int, name.len() as int + 1) =~= ":"@);
    let i = find(s, ":"@).unwrap();
    assert(s.subrange(i, i + 1)[0] == s[i]);
    if i < name.len() {
        assert(name[i] == ':');
    }
    if i > name.len() {
        assert(s.skip(name.len() as int).take(1) =~= ":"@);
        assert(begins_with(s.skip(name.len() as int), ":"@));
    }
    assert(s.skip(i + 1) =~= server);
    if let Some(k) = find(name, ":"@) {
        assert(name.subrange(k, k + 1)[0] == name[k]);
    }
}

/// The user IDs of a list are what its texts are read as, without those that are
/// none, in order.
pub proof fn law_user_ids(list: Seq<Seq<char>>)
    ensures
        user_ids(list) == list.map_values(|s: Seq<char>| parsed_user_id(s)).filter(
            |r: Option<Seq<char>>| r is Some,
        ).map_values(|r: Option<Seq<char>>| r->0),
    decreases list.len(),
{
    reveal(Seq::filter);
    let read = list.map_values(|s: Seq<char>| parsed_user_id(s));
    let kept = read.filter(|r: Option<Seq<char>>| r is Some);
    if list.len() > 0 {
        let head = list.drop_last();
        law_user_ids(head);
        let read_head = head.map_values(|s: Seq<char>| parsed_user_id(s));
        let kept_head = read_head.filter(|r: Option<Seq<char>>| r is Some);
        assert(read.drop_last() =~= read_head);
        assert(read.last() == parsed_user_id(list.last()));
        if read.last() is Some {
            assert(kept == kept_head.push(read.last()));
            assert(kept.map_values(|r: Option<Seq<char>>| r->0) =~= kept_head.map_values(
                |r: Option<Seq<char>>| r->0,
            ).push(read.last()->0));
        }
    } else {
        assert(read =~= seq![]);
        assert(kept.map_values(|r: Option<Seq<char>>| r->0) =~= seq![]);
    }
}

/// What a result says is the text that it holds, on the side on which it holds
/// it.
pub proof fn law_text_result(text: String)
    ensures
        text_result(Ok(text)) == Ok::<Seq<char>, Seq<char>>(text@),
        text_result(Err(text)) == Err::<Seq<char>, Seq<char>>(text@),
{
}

} // verus!
