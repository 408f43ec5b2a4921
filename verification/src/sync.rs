//! What devices tell each other to keep their clips the same.

use vstd::prelude::*;

use crate::http::{outgoing, url_of, url_to, Outgoing, OutgoingView};
use crate::json::{
    is_flat, json_flag, json_flag_member, json_members, json_object_text, json_quoted,
    json_text_member, new_object, no_members, object_text, put_flag, put_text,
};
use crate::peers::{find_peer, peer_named, Peer, PeerList, PeerView};
use crate::registry::Registry;
use crate::text::{maybe, strings};

verus! {

/// How many seconds another device has to answer.
pub const HTTP_TIMEOUT_SECS: u64 = 5;

/// How the last exchange with a peer went.
pub struct PeerSyncStatus {
    pub last_synced_at: Option<String>,
    pub last_imported: usize,
    pub last_error: Option<String>,
}

/// How the last exchange with each peer went, by its name.
pub type SyncStatusMap = Registry<PeerSyncStatus>;

/// A peer, and how the last exchange with it went.
pub struct PeerWithStatus {
    pub name: String,
    pub ip: String,
    pub port: u16,
    pub last_synced_at: Option<String>,
    pub last_imported: usize,
    pub last_error: Option<String>,
}

/// What a `PeerWithStatus` holds.
pub struct PeerWithStatusView {
    pub name: Seq<char>,
    pub ip: Seq<char>,
    pub port: u16,
    pub last_synced_at: Option<Seq<char>>,
    pub last_imported: usize,
    pub last_error: Option<Seq<char>>,
}

impl View for PeerWithStatus {
    type V = PeerWithStatusView;

    open spec fn view(&self) -> PeerWithStatusView {
        PeerWithStatusView {
            name: self.name@,
            ip: self.ip@,
            port: self.port,
            last_synced_at: maybe(self.last_synced_at),
            last_imported: self.last_imported,
            last_error: maybe(self.last_error),
        }
    }
}

/// `peer`, and how the last exchange with it went, where there was one.
pub open spec fn peer_with_status(
    peer: PeerView,
    status: Map<Seq<char>, PeerSyncStatus>,
) -> PeerWithStatusView {
    if status.contains_key(peer.name) {
        let last = status[peer.name];
        PeerWithStatusView {
            name: peer.name,
            ip: peer.ip,
            port: peer.port,
            last_synced_at: maybe(last.last_synced_at),
            last_imported: last.last_imported,
            last_error: maybe(last.last_error),
        }
    } else {
        PeerWithStatusView {
            name: peer.name,
            ip: peer.ip,
            port: peer.port,
            last_synced_at: None,
            last_imported: 0,
            last_error: None,
        }
    }
}

/// A request for the clips of a peer.
pub struct PullRequest {
    pub peer: Peer,
    pub url: String,
}

/// Where the clips of `peer` are asked for.
pub open spec fn pull_url(peer: PeerView) -> Seq<char> {
    url_of(peer.ip, peer.port, pull_path(peer.secret))
}

/// Where clips are asked for on the device whose secret is `secret`.
pub open spec fn pull_path(secret: Seq<char>) -> Seq<char> {
    "/api/sync/pull?secret="@ + secret
}

/// Where `peer` is told that there is something new.
pub open spec fn notify_url(peer: PeerView) -> Seq<char> {
    url_of(peer.ip, peer.port, "/api/sync/notify"@)
}

/// The members of a message that a clip was deleted.
pub open spec fn deletion_members(content_hash: Seq<char>, secret: Seq<char>) -> Map<
    Seq<char>,
    Seq<char>,
> {
    no_members().insert("content_hash"@, json_quoted(content_hash)).insert(
        "secret"@,
        json_quoted(secret),
    )
}

/// The members of a message that a clip was pinned or unpinned.
pub open spec fn pin_members(content_hash: Seq<char>, pinned: bool, secret: Seq<char>) -> Map<
    Seq<char>,
    Seq<char>,
> {
    no_members().insert("content_hash"@, json_quoted(content_hash)).insert(
        "pinned"@,
        json_flag(pinned),
    ).insert("secret"@, json_quoted(secret))
}

/// What tells `peer` that the clip with `content_hash` was deleted.
pub open spec fn deletion_push(content_hash: Seq<char>) -> spec_fn(PeerView) -> OutgoingView {
    |peer: PeerView|
        OutgoingView {
            name: peer.name,
            url: url_of(peer.ip, peer.port, "/api/sync/delete"@),
            body: json_object_text(deletion_members(content_hash, peer.secret)),
        }
}

/// What tells `peer` that the clip with `content_hash` was pinned or unpinned.
pub open spec fn pin_push(content_hash: Seq<char>, pinned: bool) -> spec_fn(
    PeerView,
) -> OutgoingView {
    |peer: PeerView|
        OutgoingView {
            name: peer.name,
            url: url_of(peer.ip, peer.port, "/api/sync/pin"@),
            body: json_object_text(pin_members(content_hash, pinned, peer.secret)),
        }
}

/// `text` reads as a message on the clip with `content_hash`, by one who knows
/// `secret`.
pub open spec fn speaks_of(
    text: Seq<char>,
    content_hash: Seq<char>,
    secret: Seq<char>,
) -> bool {
    &&& json_text_member(text, "content_hash"@) == Some(content_hash)
    &&& json_text_member(text, "secret"@) == Some(secret)
}

/// `text` reads as a message that the clip with `content_hash` was pinned or
/// unpinned, by one who knows `secret`.
pub open spec fn speaks_of_pin(
    text: Seq<char>,
    content_hash: Seq<char>,
    pinned: bool,
    secret: Seq<char>,
) -> bool {
    &&& speaks_of(text, content_hash, secret)
    &&& json_flag_member(text, "pinned"@) == Some(pinned)
}

/// Keeps how the exchange with a peer went, in place of what was known.
pub fn update_sync_status(
    status_map: &mut SyncStatusMap,
    peer_name: &str,
    synced_at: Option<String>,
    imported: usize,
    error: Option<String>,
)
    ensures
        final(status_map)@ == old(status_map)@.insert(
            peer_name@,
            (PeerSyncStatus {
                last_synced_at: synced_at,
                last_imported: imported,
                last_error: error,
            }),
        ),
{
    status_map.insert(
        peer_name.to_string(),
        PeerSyncStatus { last_synced_at: synced_at, last_imported: imported, last_error: error },
    );
}

/// The peers, each with how the last exchange with it went.
pub fn serve_list_peers(peer_list: &PeerList, status_map: &SyncStatusMap) -> (list: Vec<
    PeerWithStatus,
>)
    ensures
        list@.map_values(|entry: PeerWithStatus| entry@) == peer_list@.map_values(
            |peer: PeerView| peer_with_status(peer, status_map@),
        ),
{
    let ghost all = peer_list@;
    let mut list: Vec<PeerWithStatus> = Vec::new();
    for i in 0..peer_list.peers.len()
        invariant
            all == peer_list@,
            list@.map_values(|entry: PeerWithStatus| entry@) =~= all.take(i as int).map_values(
                |peer: PeerView| peer_with_status(peer, status_map@),
            ),
    {
        let ghost before = list@.map_values(|entry: PeerWithStatus| entry@);
        let peer = &peer_list.peers[i];
        assert(all[i as int] == peer@);
        let entry = match status_map.get(peer.name.as_str()) {
            Some(last) => PeerWithStatus {
                name: peer.name.clone(),
                ip: peer.ip.clone(),
                port: peer.port,
                last_synced_at: last.last_synced_at.clone(),
                last_imported: last.last_imported,
                last_error: last.last_error.clone(),
            },
            None => PeerWithStatus {
                name: peer.name.clone(),
                ip: peer.ip.clone(),
                port: peer.port,
                last_synced_at: None,
                last_imported: 0,
                last_error: None,
            },
        };
        list.push(entry);
        assert(list@.map_values(|entry: PeerWithStatus| entry@) =~= before.push(
            peer_with_status(peer@, status_map@),
        ));
        assert(all.take(i + 1) =~= all.take(i as int).push(peer@));
    }
    assert(all.take(all.len() as int) =~= all);
    list
}

/// Where the clips of `peer` are asked for.
pub fn pull_url_of(peer: &Peer) -> (url: String)
    ensures
        url@ == pull_url(peer@),
{
    let mut path = "/api/sync/pull?secret=".to_string();
    path.append(peer.secret.as_str());
    url_to(peer.ip.as_str(), peer.port, path.as_str())
}

/// The requests for the clips of all peers, in order. Where there are none, no
/// store of clips need be opened.
pub fn sync_all_peers(peer_list: &PeerList) -> (requests: Vec<PullRequest>)
    ensures
        requests@.len() == peer_list@.len(),
        forall|i: int|
            0 <= i < requests@.len() ==> (#[trigger] requests@[i]).peer@ == peer_list@[i]
                && requests@[i].url@ == pull_url(peer_list@[i]),
{
    let mut requests: Vec<PullRequest> = Vec::new();
    for i in 0..peer_list.peers.len()
        invariant
            requests@.len() == i,
            forall|j: int|
                0 <= j < i ==> (#[trigger] requests@[j]).peer@ == peer_list@[j]
                    && requests@[j].url@ == pull_url(peer_list@[j]),
    {
        let peer = &peer_list.peers[i];
        assert(peer_list@[i as int] == peer@);
        requests.push(PullRequest { peer: peer.clone(), url: pull_url_of(peer) });
    }
    requests
}

/// Where `peer` is told that there is something new.
pub fn notify_peer_to_pull(peer: &Peer) -> (url: String)
    ensures
        url@ == notify_url(peer@),
{
    url_to(peer.ip.as_str(), peer.port, "/api/sync/notify")
}

/// What follows once a device called `name` was kept as a peer: its clips are
/// asked for, and then it is told, at the address given second, that there is
/// something new here. Nothing follows where there is no such peer.
pub fn catch_up(peer_list: &PeerList, name: &str) -> (next: Option<(PullRequest, String)>)
    ensures
        match peer_named(peer_list@, name@) {
            Some(peer) => next matches Some((request, url)) && request.peer@ == peer
                && request.url@ == pull_url(peer) && url@ == notify_url(peer),
            None => next is None,
        },
{
    match find_peer(peer_list, name) {
        Some(peer) => {
            let url = notify_peer_to_pull(&peer);
            let pull = pull_url_of(&peer);
            Some((PullRequest { peer, url: pull }, url))
        },
        None => None,
    }
}

/// Where all peers are told that there is something new, in order.
pub fn notify_all_peers_to_pull(peer_list: &PeerList) -> (urls: Vec<String>)
    ensures
        strings(urls@) == peer_list@.map_values(|peer: PeerView| notify_url(peer)),
{
    let ghost all = peer_list@;
    let mut urls: Vec<String> = Vec::new();
    for i in 0..peer_list.peers.len()
        invariant
            all == peer_list@,
            strings(urls@) =~= all.take(i as int).map_values(|peer: PeerView| notify_url(peer)),
    {
        let ghost before = strings(urls@);
        let peer = &peer_list.peers[i];
        assert(all[i as int] == peer@);
        urls.push(notify_peer_to_pull(peer));
        assert(strings(urls@) =~= before.push(notify_url(peer@)));
        assert(all.take(i + 1) =~= all.take(i as int).push(peer@));
    }
    assert(all.take(all.len() as int) =~= all);
    urls
}

/// What tells one peer that a clip was deleted.
fn deletion_body(content_hash: &str, secret: &str) -> (body: String)
    ensures
        body@ == json_object_text(deletion_members(content_hash@, secret@)),
        speaks_of(body@, content_hash@, secret@),
{
    let mut object = new_object();
    put_text(&mut object, "content_hash", content_hash);
    put_text(&mut object, "secret", secret);
    proof {
        crate::http::lemma_keys_differ();
    }
    let ghost members = json_members(object);
    assert(members == deletion_members(content_hash@, secret@));
    assert(is_flat(members));
    assert(members["content_hash"@] == json_quoted(content_hash@));
    assert(members["secret"@] == json_quoted(secret@));
    object_text(object)
}

/// What tells one peer that a clip was pinned or unpinned.
fn pin_body(content_hash: &str, pinned: bool, secret: &str) -> (body: String)
    ensures
        body@ == json_object_text(pin_members(content_hash@, pinned, secret@)),
        speaks_of_pin(body@, content_hash@, pinned, secret@),
{
    let mut object = new_object();
    put_text(&mut object, "content_hash", content_hash);
    put_flag(&mut object, "pinned", pinned);
    put_text(&mut object, "secret", secret);
    proof {
        crate::http::lemma_keys_differ();
    }
    let ghost members = json_members(object);
    assert(members == pin_members(content_hash@, pinned, secret@));
    assert(is_flat(members));
    assert(members["content_hash"@] == json_quoted(content_hash@));
    assert(members["pinned"@] == json_flag(pinned));
    assert(members["secret"@] == json_quoted(secret@));
    object_text(object)
}

/// What tells the peers that the clip with `content_hash` was deleted: one
/// message for each peer, in order, with the secret of that peer.
pub fn propagate_delete_to_peers(peer_list: &PeerList, content_hash: &str) -> (list: Vec<Outgoing>)
    ensures
        outgoing(list@) == peer_list@.map_values(deletion_push(content_hash@)),
        forall|i: int|
            0 <= i < list@.len() ==> speaks_of(
                (#[trigger] list@[i]).body@,
                content_hash@,
                peer_list@[i].secret,
            ),
{
    let ghost all = peer_list@;
    let ghost push = deletion_push(content_hash@);
    let mut list: Vec<Outgoing> = Vec::new();
    for i in 0..peer_list.peers.len()
        invariant
            all == peer_list@,
            push == deletion_push(content_hash@),
            outgoing(list@) =~= all.take(i as int).map_values(push),
            forall|j: int|
                0 <= j < list@.len() ==> speaks_of(
                    (#[trigger] list@[j]).body@,
                    content_hash@,
                    all[j].secret,
                ),
    {
        let ghost before = outgoing(list@);
        let peer = &peer_list.peers[i];
        assert(all[i as int] == peer@);
        list.push(
            Outgoing {
                name: peer.name.clone(),
                url: url_to(peer.ip.as_str(), peer.port, "/api/sync/delete"),
                body: deletion_body(content_hash, peer.secret.as_str()),
            },
        );
        assert(outgoing(list@) =~= before.push(push(peer@)));
        assert(all.take(i + 1) =~= all.take(i as int).push(peer@));
    }
    assert(all.take(all.len() as int) =~= all);
    list
}

/// What tells the peers that the clip with `content_hash` was pinned or
/// unpinned: one message for each peer, in order, with the secret of that peer.
pub fn propagate_pin_to_peers(peer_list: &PeerList, content_hash: &str, pinned: bool) -> (list: Vec<
    Outgoing,
>)
    ensures
        outgoing(list@) == peer_list@.map_values(pin_push(content_hash@, pinned)),
        forall|i: int|
            0 <= i < list@.len() ==> speaks_of_pin(
                (#[trigger] list@[i]).body@,
                content_hash@,
                pinned,
                peer_list@[i].secret,
            ),
{
    let ghost all = peer_list@;
    let ghost push = pin_push(content_hash@, pinned);
    let mut list: Vec<Outgoing> = Vec::new();
    for i in 0..peer_list.peers.len()
        invariant
            all == peer_list@,
            push == pin_push(content_hash@, pinned),
            outgoing(list@) =~= all.take(i as int).map_values(push),
            forall|j: int|
                0 <= j < list@.len() ==> speaks_of_pin(
                    (#[trigger] list@[j]).body@,
                    content_hash@,
                    pinned,
                    all[j].secret,
                ),
    {
        let ghost before = outgoing(list@);
        let peer = &peer_list.peers[i];
        assert(all[i as int] == peer@);
        list.push(
            Outgoing {
                name: peer.name.clone(),
                url: url_to(peer.ip.as_str(), peer.port, "/api/sync/pin"),
                body: pin_body(content_hash, pinned, peer.secret.as_str()),
            },
        );
        assert(outgoing(list@) =~= before.push(push(peer@)));
        assert(all.take(i + 1) =~= all.take(i as int).push(peer@));
    }
    assert(all.take(all.len() as int) =~= all);
    list
}

/// What is shown of a peer is how the last exchange with it went, whatever was
/// known before, and what is shown of the others stays as it was.
pub proof fn law_last_exchange_is_shown(
    peer: PeerView,
    status: Map<Seq<char>, PeerSyncStatus>,
    name: Seq<char>,
    last: PeerSyncStatus,
)
    ensures
        peer_with_status(peer, status.insert(name, last)) == (if peer.name == name {
            PeerWithStatusView {
                name: peer.name,
                ip: peer.ip,
                port: peer.port,
                last_synced_at: maybe(last.last_synced_at),
                last_imported: last.last_imported,
                last_error: maybe(last.last_error),
            }
        } else {
            peer_with_status(peer, status)
        }),
{
}

/// A peer is shown with its own name and address; where there was no exchange with
/// it, nothing is shown of one.
pub proof fn law_peer_is_shown_before_any_exchange(
    peer: PeerView,
    status: Map<Seq<char>, PeerSyncStatus>,
    shown: PeerWithStatus,
)
    ensures
        peer_with_status(peer, status).name == peer.name,
        peer_with_status(peer, status).ip == peer.ip,
        peer_with_status(peer, status).port == peer.port,
        !status.contains_key(peer.name) ==> peer_with_status(peer, status).last_synced_at is None
            && peer_with_status(peer, status).last_imported == 0 && peer_with_status(
            peer,
            status,
        ).last_error is None,
        shown@.name == shown.name@,
        shown@.ip == shown.ip@,
        shown@.port == shown.port,
        shown@.last_synced_at == maybe(shown.last_synced_at),
        shown@.last_imported == shown.last_imported,
        shown@.last_error == maybe(shown.last_error),
{
}

/// A peer is asked and told at its own address and port: asked with the secret by
/// which it lets this device in, whatever that is.
pub proof fn law_peer_is_reached_at_its_address(peer: PeerView)
    ensures
        pull_url(peer) == "http://"@ + peer.ip + ":"@ + crate::number::decimal(peer.port as nat) + (
        "/api/sync/pull?secret="@ + peer.secret),
        notify_url(peer) == "http://"@ + peer.ip + ":"@ + crate::number::decimal(peer.port as nat)
            + "/api/sync/notify"@,
{
}

/// What tells a peer of a deletion goes to that peer, and holds the hash and its
/// secret, and nothing else.
pub proof fn law_deletion_is_told_with_hash_and_secret(
    content_hash: Seq<char>,
    peer: PeerView,
    key: Seq<char>,
)
    ensures
        deletion_push(content_hash)(peer).name == peer.name,
        deletion_push(content_hash)(peer).url == "http://"@ + peer.ip + ":"@
            + crate::number::decimal(peer.port as nat) + "/api/sync/delete"@,
        deletion_push(content_hash)(peer).body == json_object_text(
            deletion_members(content_hash, peer.secret),
        ),
        deletion_members(content_hash, peer.secret)["content_hash"@] == json_quoted(content_hash),
        deletion_members(content_hash, peer.secret)["secret"@] == json_quoted(peer.secret),
        deletion_members(content_hash, peer.secret).contains_key(key) <==> key
            == "content_hash"@ || key == "secret"@,
{
    crate::http::lemma_keys_differ();
}

/// What tells a peer of a pin goes to that peer, and holds the hash, the pin and
/// its secret, and nothing else.
pub proof fn law_pin_is_told_with_hash_and_secret(
    content_hash: Seq<char>,
    pinned: bool,
    peer: PeerView,
    key: Seq<char>,
)
    ensures
        pin_push(content_hash, pinned)(peer).name == peer.name,
        pin_push(content_hash, pinned)(peer).url == "http://"@ + peer.ip + ":"@
            + crate::number::decimal(peer.port as nat) + "/api/sync/pin"@,
        pin_push(content_hash, pinned)(peer).body == json_object_text(
            pin_members(content_hash, pinned, peer.secret),
        ),
        pin_members(content_hash, pinned, peer.secret)["content_hash"@] == json_quoted(
            content_hash,
        ),
        pin_members(content_hash, true, peer.secret)["pinned"@] == "true"@,
        pin_members(content_hash, false, peer.secret)["pinned"@] == "false"@,
        pin_members(content_hash, pinned, peer.secret)["secret"@] == json_quoted(peer.secret),
        pin_members(content_hash, pinned, peer.secret).contains_key(key) <==> key
            == "content_hash"@ || key == "pinned"@ || key == "secret"@,
{
    crate::http::lemma_keys_differ();
}

/// A message reads as one on a clip exactly where the hash, the pin and the secret
/// read as they should.
pub proof fn law_message_reads_member_by_member(
    text: Seq<char>,
    content_hash: Seq<char>,
    pinned: bool,
    secret: Seq<char>,
)
    ensures
        speaks_of(text, content_hash, secret) <==> json_text_member(text, "content_hash"@) == Some(
            content_hash,
        ) && json_text_member(text, "secret"@) == Some(secret),
        speaks_of_pin(text, content_hash, pinned, secret) <==> json_text_member(
            text,
            "content_hash"@,
        ) == Some(content_hash) && json_text_member(text, "secret"@) == Some(secret)
            && json_flag_member(text, "pinned"@) == Some(pinned),
{
}

/// Another device has five seconds to answer.
pub proof fn law_five_seconds_to_answer(seconds: u64)
    ensures
        seconds < HTTP_TIMEOUT_SECS <==> seconds < 5,
{
}

} // verus!
