//! What other devices, and the user, ask for that concerns peers.

use vstd::prelude::*;

use crate::clips::{file_of, Deletion, PinChange};
use crate::http::{
    decoded, find_query_value, json, json_reply, lemma_value_is_found, plain, plain_reply,
    query_value, urlencoding_decode, Reply, ReplyView,
};
use crate::json::{json_flag_member, json_text_member};
use crate::peers::{
    add_peer, find_peer, peer_named, remove_peer, with_peer, without_peer, Peer, PeerList,
    PeerView,
};
use crate::sync::{pull_path, speaks_of, speaks_of_pin};
use crate::text::{
    chars_of, maybe, same_text, string_of, trim_end_matches, trim_start_matches,
    without_leading, without_trailing,
};

verus! {

/// The most clips that are handed to a peer at once.
pub const PULLED_CLIPS: usize = 500;

/// What a peer says that deleted a clip.
pub struct SyncDeleteBody {
    pub content_hash: String,
    pub secret: String,
}

/// What a peer says that pinned or unpinned a clip.
pub struct SyncPinBody {
    pub content_hash: String,
    pub pinned: bool,
    pub secret: String,
}

/// A peer that the user adds by hand.
pub struct AddPeerRequest {
    pub name: String,
    pub ip: String,
    pub port: u16,
    pub secret: String,
}

/// Why there is no request.
pub enum BodyError {
    /// It could not be received.
    Unreadable,
    /// It does not say what it should.
    Invalid,
}

/// The name of the peer that is to be removed at `url`.
pub open spec fn peer_in_url(url: Seq<char>) -> Seq<char> {
    decoded(without_leading(url, "/api/peers/"@))
}

/// The name of the peer that is to be exchanged clips with at `url`.
pub open spec fn synced_peer_in_url(url: Seq<char>) -> Seq<char> {
    decoded(without_trailing(without_leading(url, "/api/peers/"@), "/sync-now"@))
}

/// The secret that `url` gives, or nothing.
pub open spec fn secret_in_url(url: Seq<char>) -> Seq<char> {
    match query_value(url, "secret="@) {
        Some(secret) => secret,
        None => Seq::empty(),
    }
}

/// The hash of the clip that a peer deleted, or the answer that refuses. There
/// is no `body` where the request could not be read.
pub open spec fn asked_deletion(my_secret: Seq<char>, body: Option<SyncDeleteBody>) -> Result<
    Seq<char>,
    ReplyView,
> {
    match body {
        None => Err(plain_reply(400, "Bad request"@)),
        Some(said) => if said.secret@ == my_secret {
            Ok(said.content_hash@)
        } else {
            Err(plain_reply(401, "Unauthorized"@))
        },
    }
}

/// The hash and the pin of the clip that a peer pinned or unpinned, or the
/// answer that refuses. There is no `body` where the request could not be read.
pub open spec fn asked_pin(my_secret: Seq<char>, body: Option<SyncPinBody>) -> Result<
    (Seq<char>, bool),
    ReplyView,
> {
    match body {
        None => Err(plain_reply(400, "Bad request"@)),
        Some(said) => if said.secret@ == my_secret {
            Ok((said.content_hash@, said.pinned))
        } else {
            Err(plain_reply(401, "Unauthorized"@))
        },
    }
}

/// `body` holds what `text` says of a deletion.
pub open spec fn reads_deletion(text: Seq<char>, body: SyncDeleteBody) -> bool {
    &&& json_text_member(text, "content_hash"@) == Some(body.content_hash@)
    &&& json_text_member(text, "secret"@) == Some(body.secret@)
}

/// `body` holds what `text` says of a pin.
pub open spec fn reads_pin(text: Seq<char>, body: SyncPinBody) -> bool {
    &&& json_text_member(text, "content_hash"@) == Some(body.content_hash@)
    &&& json_flag_member(text, "pinned"@) == Some(body.pinned)
    &&& json_text_member(text, "secret"@) == Some(body.secret@)
}

/// The answer to a peer that told of something new.
pub fn handle_sync_notify() -> (reply: Reply)
    ensures
        reply@ == plain_reply(200, "{\"status\":\"triggered\"}"@),
{
    plain(200, "{\"status\":\"triggered\"}")
}

/// The hash of the clip that a peer deleted, where it knows the secret of this
/// device, else the answer that refuses. There is no `body` where the request
/// could not be read.
pub fn handle_sync_delete_request(my_secret: &str, body: Option<SyncDeleteBody>) -> (hash: Result<
    String,
    Reply,
>)
    ensures
        asked_deletion(my_secret@, body) == (match hash {
            Ok(found) => Ok(found@),
            Err(reply) => Err(reply@),
        }),
{
    match body {
        None => Err(plain(400, "Bad request")),
        Some(said) => if same_text(said.secret.as_str(), my_secret) {
            Ok(said.content_hash)
        } else {
            Err(plain(401, "Unauthorized"))
        },
    }
}

/// What a deletion by a peer leads to here, where `row` holds the content and
/// the type of the clip, if there is one. The peers are not told of it again,
/// and a clip that is not there is no error.
pub fn sync_deletion(row: Option<(String, String)>) -> (deletion: Deletion)
    ensures
        deletion.propagate is None,
        deletion.reply@ == plain_reply(200, "{\"status\":\"ok\"}"@),
        maybe(deletion.remove_file) == (match row {
            Some((content, content_type)) => file_of(content@, content_type@),
            None => None,
        }),
{
    let reply = plain(200, "{\"status\":\"ok\"}");
    let remove_file = match row {
        Some((content, content_type)) => if same_text(content_type.as_str(), "image") {
            Some(content)
        } else {
            None
        },
        None => None,
    };
    Deletion { remove_file, propagate: None, reply }
}

/// The hash and the pin of the clip that a peer pinned or unpinned, where it
/// knows the secret of this device, else the answer that refuses. There is no
/// `body` where the request could not be read.
pub fn handle_sync_pin_request(my_secret: &str, body: Option<SyncPinBody>) -> (pin: Result<
    (String, bool),
    Reply,
>)
    ensures
        asked_pin(my_secret@, body) == (match pin {
            Ok((hash, pinned)) => Ok((hash@, pinned)),
            Err(reply) => Err(reply@),
        }),
{
    match body {
        None => Err(plain(400, "Bad request")),
        Some(said) => if same_text(said.secret.as_str(), my_secret) {
            Ok((said.content_hash, said.pinned))
        } else {
            Err(plain(401, "Unauthorized"))
        },
    }
}

/// What a change of a pin by a peer leads to here. The peers are not told of it
/// again.
pub fn sync_pin_change() -> (change: PinChange)
    ensures
        change.propagate is None,
        change.reply@ == plain_reply(200, "{\"status\":\"ok\"}"@),
{
    PinChange { propagate: None, reply: plain(200, "{\"status\":\"ok\"}") }
}

/// The answer that refuses the clips of this device to one who does not know its
/// secret, else nothing.
pub fn serve_sync_pull(my_secret: &str, url: &str) -> (refusal: Option<Reply>)
    ensures
        if secret_in_url(url@) == my_secret@ {
            refusal is None
        } else {
            refusal matches Some(reply) && reply@ == plain_reply(401, "Unauthorized"@)
        },
{
    let provided = match find_query_value(url, "secret=") {
        Some(secret) => secret,
        None => String::new(),
    };
    if same_text(provided.as_str(), my_secret) {
        None
    } else {
        Some(plain(401, "Unauthorized"))
    }
}

/// Adds the peer that the user asks for. Says whether the list has to be saved.
pub fn handle_add_peer_request(
    peer_list: &mut PeerList,
    body: Result<AddPeerRequest, BodyError>,
) -> (outcome: (bool, Reply))
    ensures
        match body {
            Ok(asked) => {
                &&& final(peer_list)@ == with_peer(
                    old(peer_list)@,
                    (PeerView {
                        name: asked.name@,
                        ip: asked.ip@,
                        port: asked.port,
                        secret: asked.secret@,
                    }),
                )
                &&& outcome.0
                &&& outcome.1@ == json_reply("{\"status\":\"added\"}"@)
            },
            Err(error) => {
                &&& *final(peer_list) == *old(peer_list)
                &&& !outcome.0
                &&& outcome.1@ == plain_reply(
                    400,
                    match error {
                        BodyError::Unreadable => "Failed to read request body"@,
                        BodyError::Invalid => "Invalid request body"@,
                    },
                )
            },
        },
{
    match body {
        Ok(asked) => {
            add_peer(
                peer_list,
                asked.name.as_str(),
                asked.ip.as_str(),
                asked.port,
                asked.secret.as_str(),
            );
            (true, json("{\"status\":\"added\"}"))
        },
        Err(BodyError::Unreadable) => (false, plain(400, "Failed to read request body")),
        Err(BodyError::Invalid) => (false, plain(400, "Invalid request body")),
    }
}

/// Removes the peer that `url` names. Says whether the list has to be saved.
pub fn handle_remove_peer_request(peer_list: &mut PeerList, url: &str) -> (outcome: (bool, Reply))
    ensures
        final(peer_list)@ == without_peer(old(peer_list)@, peer_in_url(url@)),
        outcome.0 == (exists|i: int|
            0 <= i < old(peer_list)@.len() && (#[trigger] old(peer_list)@[i]).name == peer_in_url(
                url@,
            )),
        outcome.1@ == json_reply("{\"status\":\"removed\"}"@),
{
    let chars = chars_of(url);
    let start = chars_of("/api/peers/");
    let encoded = string_of(trim_start_matches(chars.as_slice(), start.as_slice()));
    let name = urlencoding_decode(encoded.as_str());
    let removed = remove_peer(peer_list, name.as_str());
    (removed, json("{\"status\":\"removed\"}"))
}

/// The peer that `url` names, to be exchanged clips with, and the answer once
/// that is done; or the answer where there is none.
pub fn handle_sync_now_request(peer_list: &PeerList, url: &str) -> (outcome: Result<
    (Peer, Reply),
    Reply,
>)
    ensures
        match peer_named(peer_list@, synced_peer_in_url(url@)) {
            Some(peer) => outcome matches Ok(found) && found.0@ == peer && found.1@ == json_reply(
                "{\"status\":\"synced\"}"@,
            ),
            None => outcome matches Err(reply) && reply@ == plain_reply(404, "Peer not found"@),
        },
{
    let chars = chars_of(url);
    let start = chars_of("/api/peers/");
    let end = chars_of("/sync-now");
    let rest = trim_start_matches(chars.as_slice(), start.as_slice());
    let encoded = string_of(trim_end_matches(rest, end.as_slice()));
    let name = urlencoding_decode(encoded.as_str());
    match find_peer(peer_list, name.as_str()) {
        Some(peer) => Ok((peer, json("{\"status\":\"synced\"}"))),
        None => Err(plain(404, "Peer not found")),
    }
}

/// A peer that asks for clips with the secret that it was given is let in,
/// where the secret can stand in an address: it holds no `?` and no `&`, and
/// does not itself start like the parameter that carries it.
pub proof fn law_peer_with_the_secret_is_let_in(secret: Seq<char>)
    requires
        forall|i: int| 0 <= i < secret.len() ==> (#[trigger] secret[i]) != '?' && secret[i] != '&',
        !"secret="@.is_prefix_of(secret),
    ensures
        secret_in_url(pull_path(secret)) == secret,
{
    let path = "/api/sync/pull"@;
    reveal_strlit("/api/sync/pull?secret=");
    reveal_strlit("/api/sync/pull");
    reveal_strlit("secret=");
    assert(pull_path(secret) =~= path.push('?') + ("secret="@ + secret));
    lemma_value_is_found(path, "secret="@, secret);
}

/// A secret that this library made can stand in an address, so a peer that has
/// it is let in.
pub proof fn law_made_secret_lets_in(secret: Seq<char>)
    requires
        crate::identity::is_secret(secret),
    ensures
        secret_in_url(pull_path(secret)) == secret,
{
    reveal_strlit("secret=");
    assert(!"secret="@.is_prefix_of(secret)) by {
        assert("secret="@[0] == 's');
        assert(crate::number::is_hex_digit(secret[0]));
        if "secret="@.is_prefix_of(secret) {
            assert(secret.subrange(0, 7)[0] == 's');
        }
    }
    assert forall|i: int| 0 <= i < secret.len() implies (#[trigger] secret[i]) != '?' && secret[i]
        != '&' by {
        assert(crate::number::is_hex_digit(secret[i]));
    }
    law_peer_with_the_secret_is_let_in(secret);
}

/// What a device tells a peer of a deletion concerns the same clip there, where
/// it has the peer's secret; with any other secret it is refused.
pub proof fn law_deletion_concerns_the_same_clip(
    text: Seq<char>,
    content_hash: Seq<char>,
    secret: Seq<char>,
    body: SyncDeleteBody,
    peer_secret: Seq<char>,
)
    requires
        speaks_of(text, content_hash, secret),
        reads_deletion(text, body),
    ensures
        asked_deletion(peer_secret, Some(body)) == (if secret == peer_secret {
            Ok(content_hash)
        } else {
            Err(plain_reply(401, "Unauthorized"@))
        }),
{
}

/// What a device tells a peer of a pin asks for the same pin of the same clip
/// there, where it has the peer's secret; with any other secret it is refused.
pub proof fn law_pin_concerns_the_same_clip(
    text: Seq<char>,
    content_hash: Seq<char>,
    pinned: bool,
    secret: Seq<char>,
    body: SyncPinBody,
    peer_secret: Seq<char>,
)
    requires
        speaks_of_pin(text, content_hash, pinned, secret),
        reads_pin(text, body),
    ensures
        asked_pin(peer_secret, Some(body)) == (if secret == peer_secret {
            Ok((content_hash, pinned))
        } else {
            Err(plain_reply(401, "Unauthorized"@))
        }),
{
}

/// Who knows the secret is let do what it asks for, and who does not is refused,
/// whatever it asks for; what could not be read is refused too.
pub proof fn law_secret_decides(
    my_secret: Seq<char>,
    deletion: SyncDeleteBody,
    pin: SyncPinBody,
)
    ensures
        deletion.secret@ == my_secret ==> asked_deletion(my_secret, Some(deletion)) == Ok::<
            Seq<char>,
            ReplyView,
        >(deletion.content_hash@),
        deletion.secret@ != my_secret ==> (asked_deletion(
            my_secret,
            Some(deletion),
        ) matches Err(reply) && reply.status == 401 && !reply.json && reply.body
            == "Unauthorized"@),
        pin.secret@ == my_secret ==> asked_pin(my_secret, Some(pin)) == Ok::<
            (Seq<char>, bool),
            ReplyView,
        >((pin.content_hash@, pin.pinned)),
        pin.secret@ != my_secret ==> (asked_pin(my_secret, Some(pin)) matches Err(reply)
            && reply.status == 401 && !reply.json && reply.body == "Unauthorized"@),
        asked_deletion(my_secret, None) matches Err(reply) && reply.status == 400 && !reply.json
            && reply.body == "Bad request"@,
        asked_pin(my_secret, None) matches Err(reply) && reply.status == 400 && !reply.json
            && reply.body == "Bad request"@,
{
}

/// The secret of a request is the value of its parameter, and nothing where there
/// is no such parameter.
pub proof fn law_secret_is_a_parameter(url: Seq<char>)
    ensures
        query_value(url, "secret="@) matches Some(secret) ==> secret_in_url(url) == secret,
        query_value(url, "secret="@) is None ==> secret_in_url(url).len() == 0,
{
}

/// At most five hundred clips are handed to a peer at once.
pub proof fn law_five_hundred_clips_are_handed_out(n: usize)
    ensures
        n <= PULLED_CLIPS <==> n <= 500,
{
}

} // verus!
