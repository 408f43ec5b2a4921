//! Which request is meant by an address.

use vstd::prelude::*;

use crate::clips::{clip_in_url, law_clip_is_found_by_its_id, pinned_clip_in_url};
use crate::http::{
    decoded, find_query_value, lemma_value_is_found, plain, plain_reply, query_value,
    urlencoding_decode, Reply,
};
use crate::import::image_path;
use crate::number::signed_decimal;
use crate::remote::{peer_in_url, synced_peer_in_url};
use crate::sync::pull_path;
use crate::text::{
    chars_of, ends_with, maybe, same_chars, starts_with, string_of, trim_start_matches,
    without_leading, without_trailing,
};
use crate::watcher::image_file;

verus! {

/// How a request is made.
#[derive(Clone, Copy, PartialEq, Eq, Structural)]
pub enum Method {
    Get,
    Post,
    Delete,
    Other,
}

/// What a request asks for.
#[derive(Clone, Copy, PartialEq, Eq, Structural)]
pub enum Route {
    /// The page of the user.
    Html,
    /// Whether clips are captured.
    Status,
    /// To stop capturing clips.
    Pause,
    /// To go on capturing clips.
    Resume,
    /// Who this device is.
    Device,
    /// Which devices announced themselves.
    Discovered,
    /// To announce this device.
    Scan,
    /// To ask another device to be a peer.
    SendPairingRequest,
    /// The question of another device.
    PairingRequest,
    /// Which devices wait for an answer.
    PendingRequests,
    /// The answer to another device.
    PairingRespond,
    /// The answer of another device.
    PairingComplete,
    /// Which peers there are.
    ListPeers,
    /// To add a peer.
    AddPeer,
    /// To exchange clips with a peer.
    SyncNow,
    /// To remove a peer.
    RemovePeer,
    /// A peer has something new.
    SyncNotify,
    /// A peer deleted a clip.
    SyncDelete,
    /// A peer pinned or unpinned a clip.
    SyncPin,
    /// A peer asks for clips.
    SyncPull,
    /// To pin or unpin a clip.
    TogglePin,
    /// To delete a clip.
    DeleteClip,
    /// Which clips there are.
    Clips,
    /// Which clips match a query.
    Search,
    /// The image of a clip.
    Image,
    /// Nothing that there is.
    NotFound,
}

/// What the request for `url` by `method` asks for.
pub open spec fn routed(url: Seq<char>, method: Method) -> Route {
    if url == "/"@ || url == "/index.html"@ {
        Route::Html
    } else if url == "/api/status"@ {
        Route::Status
    } else if url == "/api/pause"@ && method == Method::Post {
        Route::Pause
    } else if url == "/api/resume"@ && method == Method::Post {
        Route::Resume
    } else if url == "/api/device"@ {
        Route::Device
    } else if url == "/api/discovered"@ {
        Route::Discovered
    } else if url == "/api/discover/scan"@ && method == Method::Post {
        Route::Scan
    } else if url == "/api/pairing/send-request"@ && method == Method::Post {
        Route::SendPairingRequest
    } else if url == "/api/pairing/request"@ && method == Method::Post {
        Route::PairingRequest
    } else if url == "/api/pairing/pending"@ {
        Route::PendingRequests
    } else if "/api/pairing/respond/"@.is_prefix_of(url) && method == Method::Post {
        Route::PairingRespond
    } else if url == "/api/pairing/complete"@ && method == Method::Post {
        Route::PairingComplete
    } else if url == "/api/peers"@ && method == Method::Get {
        Route::ListPeers
    } else if url == "/api/peers"@ && method == Method::Post {
        Route::AddPeer
    } else if "/api/peers/"@.is_prefix_of(url) && "/sync-now"@.is_suffix_of(url) && method == Method::Post {
        Route::SyncNow
    } else if "/api/peers/"@.is_prefix_of(url) && method == Method::Delete {
        Route::RemovePeer
    } else if url == "/api/sync/notify"@ && method == Method::Post {
        Route::SyncNotify
    } else if url == "/api/sync/delete"@ && method == Method::Post {
        Route::SyncDelete
    } else if url == "/api/sync/pin"@ && method == Method::Post {
        Route::SyncPin
    } else if "/api/sync/pull"@.is_prefix_of(url) {
        Route::SyncPull
    } else if "/api/clips/"@.is_prefix_of(url) && "/toggle-pin"@.is_suffix_of(url) && method == Method::Post {
        Route::TogglePin
    } else if "/api/clips/"@.is_prefix_of(url) && method == Method::Delete {
        Route::DeleteClip
    } else if "/api/clips"@.is_prefix_of(url) {
        Route::Clips
    } else if "/api/search"@.is_prefix_of(url) {
        Route::Search
    } else if "/clip_images/"@.is_prefix_of(url) {
        Route::Image
    } else {
        Route::NotFound
    }
}

/// The id of the device that is answered at `url`.
pub open spec fn device_in_url(url: Seq<char>) -> Seq<char> {
    without_leading(url, "/api/pairing/respond/"@)
}

/// The query of a search at `url`.
pub open spec fn query_in_url(url: Seq<char>) -> Option<Seq<char>> {
    match query_value(url, "q="@) {
        Some(query) => Some(decoded(query)),
        None => None,
    }
}

/// The path of the image that is asked for at `url`.
pub open spec fn image_in_url(url: Seq<char>) -> Seq<char> {
    without_leading(url, "/"@)
}

/// Whether clips are not captured once a request is served.
pub open spec fn paused_after(route: Route, paused: bool) -> bool {
    match route {
        Route::Pause => true,
        Route::Resume => false,
        _ => paused,
    }
}

/// Whether `url` is `path`.
fn is_path(url: &[char], path: &str) -> (yes: bool)
    ensures
        yes == (url@ == path@),
{
    same_chars(url, chars_of(path).as_slice())
}

/// Whether `url` starts with `prefix`.
fn is_under(url: &[char], prefix: &str) -> (yes: bool)
    ensures
        yes == prefix@.is_prefix_of(url@),
{
    starts_with(url, chars_of(prefix).as_slice())
}

/// Whether `url` ends with `suffix`.
fn is_at(url: &[char], suffix: &str) -> (yes: bool)
    ensures
        yes == suffix@.is_suffix_of(url@),
{
    ends_with(url, chars_of(suffix).as_slice())
}

/// What the request for `address` by `method` asks for.
pub fn route(address: &str, method: Method) -> (asked: Route)
    ensures
        asked == routed(address@, method),
{
    let chars = chars_of(address);
    let url = chars.as_slice();
    if is_path(url, "/") || is_path(url, "/index.html") {
        Route::Html
    } else if is_path(url, "/api/status") {
        Route::Status
    } else if is_path(url, "/api/pause") && method == Method::Post {
        Route::Pause
    } else if is_path(url, "/api/resume") && method == Method::Post {
        Route::Resume
    } else if is_path(url, "/api/device") {
        Route::Device
    } else if is_path(url, "/api/discovered") {
        Route::Discovered
    } else if is_path(url, "/api/discover/scan") && method == Method::Post {
        Route::Scan
    } else if is_path(url, "/api/pairing/send-request") && method == Method::Post {
        Route::SendPairingRequest
    } else if is_path(url, "/api/pairing/request") && method == Method::Post {
        Route::PairingRequest
    } else if is_path(url, "/api/pairing/pending") {
        Route::PendingRequests
    } else if is_under(url, "/api/pairing/respond/") && method == Method::Post {
        Route::PairingRespond
    } else if is_path(url, "/api/pairing/complete") && method == Method::Post {
        Route::PairingComplete
    } else if is_path(url, "/api/peers") && method == Method::Get {
        Route::ListPeers
    } else if is_path(url, "/api/peers") && method == Method::Post {
        Route::AddPeer
    } else if is_under(url, "/api/peers/") && is_at(url, "/sync-now") && method == Method::Post {
        Route::SyncNow
    } else if is_under(url, "/api/peers/") && method == Method::Delete {
        Route::RemovePeer
    } else if is_path(url, "/api/sync/notify") && method == Method::Post {
        Route::SyncNotify
    } else if is_path(url, "/api/sync/delete") && method == Method::Post {
        Route::SyncDelete
    } else if is_path(url, "/api/sync/pin") && method == Method::Post {
        Route::SyncPin
    } else if is_under(url, "/api/sync/pull") {
        Route::SyncPull
    } else if is_under(url, "/api/clips/") && is_at(url, "/toggle-pin") && method == Method::Post {
        Route::TogglePin
    } else if is_under(url, "/api/clips/") && method == Method::Delete {
        Route::DeleteClip
    } else if is_under(url, "/api/clips") {
        Route::Clips
    } else if is_under(url, "/api/search") {
        Route::Search
    } else if is_under(url, "/clip_images/") {
        Route::Image
    } else {
        Route::NotFound
    }
}

/// Whether clips are not captured once a request is served.
pub fn pause_state(route: Route, paused: bool) -> (after: bool)
    ensures
        after == paused_after(route, paused),
{
    match route {
        Route::Pause => true,
        Route::Resume => false,
        _ => paused,
    }
}

/// The id of the device that is answered at `url`.
pub fn respond_target(url: &str) -> (device_id: String)
    ensures
        device_id@ == device_in_url(url@),
{
    let chars = chars_of(url);
    let start = chars_of("/api/pairing/respond/");
    string_of(trim_start_matches(chars.as_slice(), start.as_slice()))
}

/// The query of a search at `url`.
pub fn search_query(url: &str) -> (query: Option<String>)
    ensures
        maybe(query) == query_in_url(url@),
{
    match find_query_value(url, "q=") {
        Some(encoded) => Some(urlencoding_decode(encoded.as_str())),
        None => None,
    }
}

/// The path of the image that is asked for at `url`.
pub fn serve_image_file(url: &str) -> (path: String)
    ensures
        path@ == image_in_url(url@),
{
    let chars = chars_of(url);
    let start = chars_of("/");
    string_of(trim_start_matches(chars.as_slice(), start.as_slice()))
}

/// The answer where an image is not there.
pub fn image_not_found() -> (reply: Reply)
    ensures
        reply@ == plain_reply(404, "Image not found"@),
{
    plain(404, "Image not found")
}

/// The answer to a request to announce this device.
pub fn scanning() -> (reply: Reply)
    ensures
        reply@ == plain_reply(200, "{\"status\":\"scanning\"}"@),
{
    plain(200, "{\"status\":\"scanning\"}")
}

/// The answer to a request for what is not there.
pub fn not_found() -> (reply: Reply)
    ensures
        reply@ == plain_reply(404, "Not found"@),
{
    plain(404, "Not found")
}

/// The characters by which the addresses that are known can be told apart.
proof fn lemma_addresses()
    ensures
        "/"@.len() == 1 && "/"@[0] == '/',
        "/index.html"@.len() == 11 && "/index.html"@[1] == 'i',
        "/api/status"@.len() == 11 && "/api/status"@[1] == 'a' && "/api/status"@[5] == 's'
            && "/api/status"@[6] == 't',
        "/api/pause"@.len() == 10 && "/api/pause"@[1] == 'a' && "/api/pause"@[5] == 'p'
            && "/api/pause"@[6] == 'a' && "/api/pause"@[7] == 'u',
        "/api/resume"@.len() == 11 && "/api/resume"@[1] == 'a' && "/api/resume"@[5] == 'r',
        "/api/device"@.len() == 11 && "/api/device"@[1] == 'a' && "/api/device"@[5] == 'd',
        "/api/discovered"@.len() == 15 && "/api/discovered"@[1] == 'a' && "/api/discovered"@[5]
            == 'd',
        "/api/discover/scan"@.len() == 18 && "/api/discover/scan"@[1] == 'a'
            && "/api/discover/scan"@[5] == 'd',
        "/api/pairing/send-request"@.len() == 25 && "/api/pairing/send-request"@[1] == 'a'
            && "/api/pairing/send-request"@[5] == 'p' && "/api/pairing/send-request"@[6] == 'a'
            && "/api/pairing/send-request"@[13] == 's',
        "/api/pairing/request"@.len() == 20 && "/api/pairing/request"@[1] == 'a'
            && "/api/pairing/request"@[5] == 'p' && "/api/pairing/request"@[6] == 'a'
            && "/api/pairing/request"@[13] == 'r' && "/api/pairing/request"@[15] == 'q',
        "/api/pairing/pending"@.len() == 20 && "/api/pairing/pending"@[1] == 'a'
            && "/api/pairing/pending"@[5] == 'p' && "/api/pairing/pending"@[6] == 'a'
            && "/api/pairing/pending"@[13] == 'p',
        "/api/pairing/respond/"@.len() == 21 && "/api/pairing/respond/"@[1] == 'a'
            && "/api/pairing/respond/"@[5] == 'p' && "/api/pairing/respond/"@[6] == 'a'
            && "/api/pairing/respond/"@[7] == 'i' && "/api/pairing/respond/"@[13] == 'r'
            && "/api/pairing/respond/"@[15] == 's',
        "/api/pairing/complete"@.len() == 21 && "/api/pairing/complete"@[1] == 'a'
            && "/api/pairing/complete"@[5] == 'p' && "/api/pairing/complete"@[6] == 'a'
            && "/api/pairing/complete"@[13] == 'c',
        "/api/peers"@.len() == 10 && "/api/peers"@[1] == 'a' && "/api/peers"@[5] == 'p'
            && "/api/peers"@[6] == 'e',
        "/api/peers/"@.len() == 11 && "/api/peers/"@[1] == 'a' && "/api/peers/"@[5] == 'p'
            && "/api/peers/"@[6] == 'e',
        "/sync-now"@.len() == 9 && "/sync-now"@[0] == '/',
        "/api/sync/notify"@.len() == 16 && "/api/sync/notify"@[1] == 'a'
            && "/api/sync/notify"@[5] == 's' && "/api/sync/notify"@[6] == 'y'
            && "/api/sync/notify"@[10] == 'n',
        "/api/sync/delete"@.len() == 16 && "/api/sync/delete"@[1] == 'a'
            && "/api/sync/delete"@[5] == 's' && "/api/sync/delete"@[6] == 'y'
            && "/api/sync/delete"@[10] == 'd',
        "/api/sync/pin"@.len() == 13 && "/api/sync/pin"@[1] == 'a' && "/api/sync/pin"@[5] == 's'
            && "/api/sync/pin"@[6] == 'y' && "/api/sync/pin"@[11] == 'i',
        "/api/sync/pull"@.len() == 14 && "/api/sync/pull"@[1] == 'a' && "/api/sync/pull"@[5]
            == 's' && "/api/sync/pull"@[6] == 'y' && "/api/sync/pull"@[10] == 'p'
            && "/api/sync/pull"@[11] == 'u',
        "/api/clips/"@.len() == 11 && "/api/clips/"@[1] == 'a' && "/api/clips/"@[5] == 'c',
        "/toggle-pin"@.len() == 11 && "/toggle-pin"@[0] == '/',
        "/api/clips"@.len() == 10 && "/api/clips"@[1] == 'a' && "/api/clips"@[5] == 'c',
        "/api/search"@.len() == 11 && "/api/search"@[1] == 'a' && "/api/search"@[5] == 's'
            && "/api/search"@[6] == 'e',
        "/clip_images/"@.len() == 13 && "/clip_images/"@[1] == 'c',
{
    reveal_strlit("/");
    reveal_strlit("/index.html");
    reveal_strlit("/api/status");
    reveal_strlit("/api/pause");
    reveal_strlit("/api/resume");
    reveal_strlit("/api/device");
    reveal_strlit("/api/discovered");
    reveal_strlit("/api/discover/scan");
    reveal_strlit("/api/pairing/send-request");
    reveal_strlit("/api/pairing/request");
    reveal_strlit("/api/pairing/pending");
    reveal_strlit("/api/pairing/respond/");
    reveal_strlit("/api/pairing/complete");
    reveal_strlit("/api/peers");
    reveal_strlit("/api/peers/");
    reveal_strlit("/sync-now");
    reveal_strlit("/api/sync/notify");
    reveal_strlit("/api/sync/delete");
    reveal_strlit("/api/sync/pin");
    reveal_strlit("/api/sync/pull");
    reveal_strlit("/api/clips/");
    reveal_strlit("/toggle-pin");
    reveal_strlit("/api/clips");
    reveal_strlit("/api/search");
    reveal_strlit("/clip_images/");
}

/// `start` stands at the start of what it is put in front of, and gives its
/// characters there.
proof fn lemma_put_in_front(start: Seq<char>, rest: Seq<char>)
    ensures
        start.is_prefix_of(start + rest),
        (start + rest).skip(start.len() as int) == rest,
        forall|i: int| 0 <= i < start.len() ==> #[trigger] (start + rest)[i] == start[i],
        !start.is_prefix_of(rest) ==> without_leading(start + rest, start) == rest,
{
    assert((start + rest).subrange(0, start.len() as int) =~= start);
    assert((start + rest).skip(start.len() as int) =~= rest);
    reveal_with_fuel(without_leading, 2);
}

/// What a device asks of a peer for its clips is understood as that, whatever
/// the secret.
pub proof fn law_pull_is_understood(secret: Seq<char>, method: Method)
    ensures
        routed(pull_path(secret), method) == Route::SyncPull,
{
    reveal_strlit("/api/sync/pull?secret=");
    reveal_strlit("/api/sync/pull");
    reveal_strlit("?secret=");
    assert(pull_path(secret) =~= "/api/sync/pull"@ + ("?secret="@ + secret));
    law_any_pull_is_understood("?secret="@ + secret, method);
}

/// What is kept among the images can be asked for under its path, and that path
/// is found again.
proof fn lemma_image_is_served(path: Seq<char>, method: Method)
    requires
        "clip_images/"@.is_prefix_of(path),
    ensures
        routed("/"@ + path, method) == Route::Image,
        image_in_url("/"@ + path) == path,
{
    reveal_strlit("clip_images/");
    reveal_strlit("/clip_images/");
    reveal_strlit("/");
    let url = "/"@ + path;
    lemma_addresses();
    lemma_put_in_front("/"@, path);
    assert(path.subrange(0, 12) =~= "clip_images/"@);
    assert(path[0] == path.subrange(0, 12)[0]);
    assert(url[1] == 'c');
    assert("/clip_images/"@.is_prefix_of(url)) by {
        assert(url.subrange(0, 13) =~= "/"@ + path.subrange(0, 12));
        assert("/clip_images/"@ =~= "/"@ + "clip_images/"@);
    }
    assert(!"/"@.is_prefix_of(path)) by {
        if "/"@.is_prefix_of(path) {
            assert(path.subrange(0, 1)[0] == path[0]);
        }
    }
}

/// An image that was taken over from a peer can be asked for by others under
/// the path that is stored as its content, and that path is found again.
pub proof fn law_stored_image_is_served(
    remote_path: Seq<char>,
    safe_name: Seq<char>,
    method: Method,
)
    ensures
        routed("/"@ + image_path(remote_path, safe_name), method) == Route::Image,
        image_in_url("/"@ + image_path(remote_path, safe_name)) == image_path(
            remote_path,
            safe_name,
        ),
{
    let path = image_path(remote_path, safe_name);
    reveal_strlit("clip_images/");
    reveal_strlit("clip_images/sync_");
    assert(path.subrange(0, 12) =~= "clip_images/"@);
    lemma_image_is_served(path, method);
}

/// An image that was captured here can be asked for by others under the path
/// that is stored as its content, and that path is found again.
pub proof fn law_captured_image_is_served(stamp: Seq<char>, method: Method)
    ensures
        routed("/"@ + image_file(stamp), method) == Route::Image,
        image_in_url("/"@ + image_file(stamp)) == image_file(stamp),
{
    let path = image_file(stamp);
    reveal_strlit("clip_images/");
    assert(path.subrange(0, 12) =~= "clip_images/"@);
    lemma_image_is_served(path, method);
}

/// The user's answer to a device is understood as that, and reaches the device
/// with the id in the address, unless that id starts like the address itself.
pub proof fn law_answer_reaches_the_device(device_id: Seq<char>)
    requires
        !"/api/pairing/respond/"@.is_prefix_of(device_id),
    ensures
        routed("/api/pairing/respond/"@ + device_id, Method::Post) == Route::PairingRespond,
        device_in_url("/api/pairing/respond/"@ + device_id) == device_id,
{
    let start = "/api/pairing/respond/"@;
    let url = start + device_id;
    lemma_addresses();
    lemma_put_in_front(start, device_id);
    assert(url[1] == 'a' && url[5] == 'p' && url[6] == 'a' && url[7] == 'i' && url[13] == 'r'
        && url[15] == 's');
}

/// A request to remove a peer is understood as that, and means the peer whose
/// name is written in the address, unless what is written there starts like the
/// address itself.
pub proof fn law_removal_reaches_the_peer(written: Seq<char>)
    requires
        !"/api/peers/"@.is_prefix_of(written),
    ensures
        routed("/api/peers/"@ + written, Method::Delete) == Route::RemovePeer,
        peer_in_url("/api/peers/"@ + written) == decoded(written),
{
    let start = "/api/peers/"@;
    let url = start + written;
    lemma_addresses();
    lemma_put_in_front(start, written);
    assert(url[1] == 'a' && url[5] == 'p' && url[6] == 'e');
}

/// A request to exchange clips with a peer is understood as that, and means the
/// peer whose name is written in the address, unless what is written there
/// starts or ends like the address itself.
pub proof fn law_exchange_reaches_the_peer(written: Seq<char>)
    requires
        !"/api/peers/"@.is_prefix_of(written + "/sync-now"@),
        !"/sync-now"@.is_suffix_of(written),
    ensures
        routed("/api/peers/"@ + written + "/sync-now"@, Method::Post) == Route::SyncNow,
        synced_peer_in_url("/api/peers/"@ + written + "/sync-now"@) == decoded(written),
{
    let start = "/api/peers/"@;
    let end = "/sync-now"@;
    let rest = written + end;
    let url = start + written + end;
    lemma_addresses();
    assert(url =~= start + rest);
    lemma_put_in_front(start, rest);
    assert(url[1] == 'a' && url[5] == 'p' && url[6] == 'e');
    assert(end.is_suffix_of(url)) by {
        assert(url.subrange(url.len() - end.len(), url.len() as int) =~= end);
    }
    assert(end.is_suffix_of(rest)) by {
        assert(rest.subrange(rest.len() - end.len(), rest.len() as int) =~= end);
    }
    assert(rest.take(rest.len() - end.len()) =~= written);
    reveal_with_fuel(without_trailing, 2);
}

/// Requests to delete a clip, and to pin or unpin it, by the id under which it is
/// shown are understood as that, and mean that clip.
pub proof fn law_request_reaches_the_clip(id: i64)
    ensures
        routed("/api/clips/"@ + signed_decimal(id as int), Method::Delete) == Route::DeleteClip,
        clip_in_url("/api/clips/"@ + signed_decimal(id as int)) == Some(id),
        routed(
            "/api/clips/"@ + signed_decimal(id as int) + "/toggle-pin"@,
            Method::Post,
        ) == Route::TogglePin,
        pinned_clip_in_url("/api/clips/"@ + signed_decimal(id as int) + "/toggle-pin"@) == Some(
            id,
        ),
{
    let start = "/api/clips/"@;
    let end = "/toggle-pin"@;
    let number = signed_decimal(id as int);
    let pin_url = start + number + end;
    law_clip_is_found_by_its_id(id);
    law_any_clip_is_understood(number, Method::Delete);
    law_any_clip_is_understood(number + end, Method::Post);
    assert(pin_url =~= start + (number + end));
    assert(end.is_suffix_of(pin_url)) by {
        assert(pin_url.subrange(pin_url.len() - end.len(), pin_url.len() as int) =~= end);
    }
}

/// A search is understood as that, and seeks what is written in the address,
/// where that does not end the parameter and does not itself start like it.
pub proof fn law_search_seeks_what_is_written(written: Seq<char>, method: Method)
    requires
        !written.contains('?') && !written.contains('&'),
        !"q="@.is_prefix_of(written),
    ensures
        routed("/api/search?q="@ + written, method) == Route::Search,
        query_in_url("/api/search?q="@ + written) == Some(decoded(written)),
{
    let start = "/api/search"@;
    let url = "/api/search?q="@ + written;
    reveal_strlit("/api/search?q=");
    reveal_strlit("/api/search");
    reveal_strlit("?q=");
    reveal_strlit("q=");
    lemma_addresses();
    assert(url =~= start + ("?q="@ + written));
    lemma_put_in_front(start, "?q="@ + written);
    assert(url[1] == 'a' && url[5] == 's' && url[6] == 'e');
    assert(url =~= start.push('?') + ("q="@ + written));
    lemma_value_is_found(start, "q="@, written);
}

/// What is asked for under each fixed address, and how it has to be asked for;
/// asked for in another way, it is not there.
#[verifier::spinoff_prover]
pub proof fn law_fixed_addresses_are_understood(method: Method)
    ensures
        routed("/"@, method) == Route::Html,
        routed("/index.html"@, method) == Route::Html,
        routed("/api/status"@, method) == Route::Status,
        routed("/api/pause"@, method) == (if method == Method::Post {
            Route::Pause
        } else {
            Route::NotFound
        }),
        routed("/api/resume"@, method) == (if method == Method::Post {
            Route::Resume
        } else {
            Route::NotFound
        }),
        routed("/api/device"@, method) == Route::Device,
        routed("/api/discovered"@, method) == Route::Discovered,
        routed("/api/discover/scan"@, method) == (if method == Method::Post {
            Route::Scan
        } else {
            Route::NotFound
        }),
        routed("/api/pairing/send-request"@, method) == (if method == Method::Post {
            Route::SendPairingRequest
        } else {
            Route::NotFound
        }),
        routed("/api/pairing/request"@, method) == (if method == Method::Post {
            Route::PairingRequest
        } else {
            Route::NotFound
        }),
        routed("/api/pairing/pending"@, method) == Route::PendingRequests,
        routed("/api/pairing/complete"@, method) == (if method == Method::Post {
            Route::PairingComplete
        } else {
            Route::NotFound
        }),
        routed("/api/sync/notify"@, method) == (if method == Method::Post {
            Route::SyncNotify
        } else {
            Route::NotFound
        }),
        routed("/api/sync/delete"@, method) == (if method == Method::Post {
            Route::SyncDelete
        } else {
            Route::NotFound
        }),
        routed("/api/sync/pin"@, method) == (if method == Method::Post {
            Route::SyncPin
        } else {
            Route::NotFound
        }),
        routed("/api/peers"@, method) == (match method {
            Method::Get => Route::ListPeers,
            Method::Post => Route::AddPeer,
            _ => Route::NotFound,
        }),
{
    lemma_addresses();
}

/// What starts like the address for clips of this device is taken for it, whatever
/// stands behind it.
#[verifier::spinoff_prover]
pub proof fn law_any_pull_is_understood(rest: Seq<char>, method: Method)
    ensures
        routed("/api/sync/pull"@ + rest, method) == Route::SyncPull,
{
    let url = "/api/sync/pull"@ + rest;
    lemma_addresses();
    lemma_put_in_front("/api/sync/pull"@, rest);
    assert(url[1] == 'a' && url[5] == 's' && url[6] == 'y' && url[10] == 'p' && url[11] == 'u');
}

/// What starts like the address of a search is taken for one, whatever stands
/// behind it.
#[verifier::spinoff_prover]
pub proof fn law_any_search_is_understood(rest: Seq<char>, method: Method)
    ensures
        routed("/api/search"@ + rest, method) == Route::Search,
{
    let url = "/api/search"@ + rest;
    lemma_addresses();
    lemma_put_in_front("/api/search"@, rest);
    assert(url[1] == 'a' && url[5] == 's' && url[6] == 'e');
}

/// Whatever is kept among the images is asked for as an image.
#[verifier::spinoff_prover]
pub proof fn law_any_image_is_understood(rest: Seq<char>, method: Method)
    ensures
        routed("/clip_images/"@ + rest, method) == Route::Image,
{
    let url = "/clip_images/"@ + rest;
    lemma_addresses();
    lemma_put_in_front("/clip_images/"@, rest);
    assert(url[1] == 'c');
}

/// An answer to a device has to be posted, whatever the device.
#[verifier::spinoff_prover]
pub proof fn law_any_answer_is_understood(rest: Seq<char>, method: Method)
    ensures
        routed("/api/pairing/respond/"@ + rest, method) == (if method == Method::Post {
            Route::PairingRespond
        } else {
            Route::NotFound
        }),
{
    let url = "/api/pairing/respond/"@ + rest;
    lemma_addresses();
    lemma_put_in_front("/api/pairing/respond/"@, rest);
    assert(url[1] == 'a' && url[5] == 'p' && url[6] == 'a' && url[7] == 'i' && url[13] == 'r'
        && url[15] == 's');
}

/// Under the address of a peer an exchange is started or the peer is removed,
/// whatever its name.
#[verifier::spinoff_prover]
pub proof fn law_any_peer_is_understood(rest: Seq<char>, method: Method)
    ensures
        routed("/api/peers/"@ + rest, method) == (if method == Method::Post
            && "/sync-now"@.is_suffix_of("/api/peers/"@ + rest) {
            Route::SyncNow
        } else if method == Method::Delete {
            Route::RemovePeer
        } else {
            Route::NotFound
        }),
{
    let url = "/api/peers/"@ + rest;
    lemma_addresses();
    lemma_put_in_front("/api/peers/"@, rest);
    assert(url[1] == 'a' && url[5] == 'p' && url[6] == 'e');
}

/// Under the address of a clip it is pinned or unpinned or deleted, whatever its
/// id; all else that starts like it asks for the clips.
#[verifier::spinoff_prover]
pub proof fn law_any_clip_is_understood(rest: Seq<char>, method: Method)
    ensures
        routed("/api/clips/"@ + rest, method) == (if method == Method::Post
            && "/toggle-pin"@.is_suffix_of("/api/clips/"@ + rest) {
            Route::TogglePin
        } else if method == Method::Delete {
            Route::DeleteClip
        } else {
            Route::Clips
        }),
        rest.len() == 0 || rest[0] != '/' ==> routed("/api/clips"@ + rest, method) == Route::Clips,
{
    let clip = "/api/clips/"@ + rest;
    let clips = "/api/clips"@ + rest;
    lemma_addresses();
    lemma_put_in_front("/api/clips/"@, rest);
    lemma_put_in_front("/api/clips"@, rest);
    assert(clip[1] == 'a' && clip[5] == 'c');
    assert("/api/clips"@.is_prefix_of(clip)) by {
        reveal_strlit("/api/clips/");
        reveal_strlit("/api/clips");
        assert(clip.subrange(0, 10) =~= "/api/clips"@);
    }
    assert(clips[1] == 'a' && clips[5] == 'c');
    if rest.len() == 0 || rest[0] != '/' {
        assert(!"/api/clips/"@.is_prefix_of(clips)) by {
            reveal_strlit("/api/clips/");
            if "/api/clips/"@.is_prefix_of(clips) {
                assert(clips.subrange(0, 11)[10] == clips[10]);
                assert(clips[10] == rest[0]);
            }
        }
    }
}

/// Any other address is not there.
pub proof fn law_other_addresses_are_not_there(url: Seq<char>, method: Method)
    requires
        url != "/"@,
        url != "/index.html"@,
        url != "/api/status"@,
        url != "/api/pause"@,
        url != "/api/resume"@,
        url != "/api/device"@,
        url != "/api/discovered"@,
        url != "/api/discover/scan"@,
        url != "/api/pairing/send-request"@,
        url != "/api/pairing/request"@,
        url != "/api/pairing/pending"@,
        url != "/api/pairing/complete"@,
        url != "/api/sync/notify"@,
        url != "/api/sync/delete"@,
        url != "/api/sync/pin"@,
        url != "/api/peers"@,
        !"/api/pairing/respond/"@.is_prefix_of(url),
        !"/api/peers/"@.is_prefix_of(url),
        !"/api/sync/pull"@.is_prefix_of(url),
        !"/api/clips"@.is_prefix_of(url),
        !"/api/search"@.is_prefix_of(url),
        !"/clip_images/"@.is_prefix_of(url),
    ensures
        routed(url, method) == Route::NotFound,
{
    assert(!"/api/clips/"@.is_prefix_of(url)) by {
        reveal_strlit("/api/clips/");
        reveal_strlit("/api/clips");
        if "/api/clips/"@.is_prefix_of(url) {
            assert(url.subrange(0, 10) =~= url.subrange(0, 11).take(10));
            assert("/api/clips/"@.take(10) =~= "/api/clips"@);
        }
    }
}

/// Capturing stops when that is asked for, goes on when that is asked for, and is
/// left as it is by all else.
pub proof fn law_only_pause_and_resume_change_capturing(route: Route, paused: bool)
    ensures
        paused_after(Route::Pause, paused),
        !paused_after(Route::Resume, paused),
        route != Route::Pause && route != Route::Resume ==> paused_after(route, paused) == paused,
{
}

/// The path of an image is its address without the slashes at the start; a search
/// seeks what the parameter holds, decoded, and nothing where there is none.
pub proof fn law_address_is_taken_apart(url: Seq<char>)
    ensures
        image_in_url("/"@ + url) == image_in_url(url),
        !"/"@.is_prefix_of(url) ==> image_in_url(url) == url,
        device_in_url("/api/pairing/respond/"@ + url) == device_in_url(url),
        !"/api/pairing/respond/"@.is_prefix_of(url) ==> device_in_url(url) == url,
        query_value(url, "q="@) matches Some(query) ==> query_in_url(url) == Some(decoded(query)),
        query_value(url, "q="@) is None ==> query_in_url(url) is None,
{
    lemma_addresses();
    crate::text::law_leading_copies_are_left_out(url, "/"@);
    crate::text::law_leading_copies_are_left_out(url, "/api/pairing/respond/"@);
}

} // verus!
