//! How two devices come to share their clips: one asks, the other one's user
//! allows it, and both keep each other as peers.

use vstd::prelude::*;

use crate::discovery::{DeviceView, DiscoveryMap};
use crate::http::{
    plain, plain_reply, url_of, url_to, Outgoing, OutgoingView, Reply, PORT,
};
use crate::json::{
    is_flat, json_flag, json_flag_member, json_members, json_number_member, json_object_text, json_quoted,
    json_text_member, new_object, no_members, object_text, put_flag, put_number, put_text,
};
use crate::number::decimal;
use crate::peers::{Peer, PeerView};
use crate::registry::Registry;

verus! {

/// A device that asked to be a peer, and waits for an answer.
pub struct PendingRequest {
    pub device_id: String,
    pub device_name: String,
    pub ip: String,
    pub port: u16,
    pub secret: String,
}

/// What a `PendingRequest` holds.
pub struct PendingView {
    pub device_id: Seq<char>,
    pub device_name: Seq<char>,
    pub ip: Seq<char>,
    pub port: u16,
    pub secret: Seq<char>,
}

impl View for PendingRequest {
    type V = PendingView;

    open spec fn view(&self) -> PendingView {
        PendingView {
            device_id: self.device_id@,
            device_name: self.device_name@,
            ip: self.ip@,
            port: self.port,
            secret: self.secret@,
        }
    }
}

impl Clone for PendingRequest {
    fn clone(&self) -> (copy: Self)
        ensures
            copy == *self,
    {
        PendingRequest {
            device_id: self.device_id.clone(),
            device_name: self.device_name.clone(),
            ip: self.ip.clone(),
            port: self.port,
            secret: self.secret.clone(),
        }
    }
}

/// The devices that wait for an answer, by their id.
pub type PendingRequestsMap = Registry<PendingRequest>;

/// What the user asks for: to be a peer of the device with this id.
pub struct SendRequestBody {
    pub device_id: String,
}

/// What a device says that asks to be a peer.
pub struct PairingRequestBody {
    pub device_id: String,
    pub device_name: String,
    pub port: u16,
    pub secret: String,
}

/// What the user decides.
pub struct PairingResponseBody {
    pub accept: bool,
}

/// What a device says that was asked.
pub struct PairingCompleteBody {
    pub device_name: String,
    pub port: u16,
    pub secret: String,
    pub accepted: bool,
}

/// The members of the question whether a device may be a peer.
pub open spec fn question_members(
    device_id: Seq<char>,
    device_name: Seq<char>,
    secret: Seq<char>,
) -> Map<Seq<char>, Seq<char>> {
    no_members().insert("device_id"@, json_quoted(device_id)).insert(
        "device_name"@,
        json_quoted(device_name),
    ).insert("port"@, decimal(PORT as nat)).insert("secret"@, json_quoted(secret))
}

/// The members of the answer that a device may be a peer.
pub open spec fn consent_members(
    device_id: Seq<char>,
    device_name: Seq<char>,
    secret: Seq<char>,
) -> Map<Seq<char>, Seq<char>> {
    question_members(device_id, device_name, secret).insert("accepted"@, json_flag(true))
}

/// `text` tells who a device is, and by which secret it lets others in.
pub open spec fn introduces(
    text: Seq<char>,
    device_id: Seq<char>,
    device_name: Seq<char>,
    secret: Seq<char>,
) -> bool {
    &&& json_text_member(text, "device_id"@) == Some(device_id)
    &&& json_text_member(text, "device_name"@) == Some(device_name)
    &&& json_number_member(text, "port"@) == Some(PORT as u64)
    &&& json_text_member(text, "secret"@) == Some(secret)
}

/// `text` tells who a device is, by which secret it lets others in, and that it
/// gives its consent.
pub open spec fn gives_consent(
    text: Seq<char>,
    device_id: Seq<char>,
    device_name: Seq<char>,
    secret: Seq<char>,
) -> bool {
    &&& introduces(text, device_id, device_name, secret)
    &&& json_flag_member(text, "accepted"@) == Some(true)
}

/// What is kept of a device that asked from the address `remote_ip`.
pub open spec fn pending_of(body: PairingRequestBody, remote_ip: Seq<char>) -> PendingView {
    PendingView {
        device_id: body.device_id@,
        device_name: body.device_name@,
        ip: remote_ip,
        port: body.port,
        secret: body.secret@,
    }
}

/// The peer that a device becomes whose question is answered with yes.
pub open spec fn peer_of_request(request: PendingView) -> PeerView {
    PeerView {
        name: request.device_name,
        ip: request.ip,
        port: request.port,
        secret: request.secret,
    }
}

/// The peer that a device becomes that answered with yes from the address
/// `remote_ip`.
pub open spec fn peer_of_consent(body: PairingCompleteBody, remote_ip: Seq<char>) -> PeerView {
    PeerView { name: body.device_name@, ip: remote_ip, port: body.port, secret: body.secret@ }
}

/// What becomes of a question.
pub enum PairingOutcome {
    /// There was none.
    NotFound { reply: Reply },
    /// The user said no.
    Declined { reply: Reply },
    /// The user said yes: `peer` is to be kept and exchanged clips with, and
    /// `consent` to be sent.
    Accepted { peer: Peer, consent: Outgoing, reply: Reply },
}

/// The question whether this device may be a peer.
fn question(device_id: &str, device_name: &str, secret: &str) -> (text: String)
    ensures
        text@ == json_object_text(question_members(device_id@, device_name@, secret@)),
        introduces(text@, device_id@, device_name@, secret@),
{
    let mut object = new_object();
    put_text(&mut object, "device_id", device_id);
    put_text(&mut object, "device_name", device_name);
    put_number(&mut object, "port", PORT as u64);
    put_text(&mut object, "secret", secret);
    proof {
        crate::http::lemma_keys_differ();
    }
    let ghost members = json_members(object);
    assert(members == question_members(device_id@, device_name@, secret@));
    assert(is_flat(members));
    assert(members["device_id"@] == json_quoted(device_id@));
    assert(members["device_name"@] == json_quoted(device_name@));
    assert(members["port"@] == decimal(PORT as u64 as nat));
    assert(members["secret"@] == json_quoted(secret@));
    object_text(object)
}

/// The answer that a device may be a peer of this one.
fn consent(device_id: &str, device_name: &str, secret: &str) -> (text: String)
    ensures
        text@ == json_object_text(consent_members(device_id@, device_name@, secret@)),
        gives_consent(text@, device_id@, device_name@, secret@),
{
    let mut object = new_object();
    put_text(&mut object, "device_id", device_id);
    put_text(&mut object, "device_name", device_name);
    put_number(&mut object, "port", PORT as u64);
    put_text(&mut object, "secret", secret);
    put_flag(&mut object, "accepted", true);
    proof {
        crate::http::lemma_keys_differ();
    }
    let ghost members = json_members(object);
    assert(members == consent_members(device_id@, device_name@, secret@));
    assert(is_flat(members));
    assert(members["accepted"@] == json_flag(true));
    assert(members["device_id"@] == json_quoted(device_id@));
    assert(members["device_name"@] == json_quoted(device_name@));
    assert(members["port"@] == decimal(PORT as u64 as nat));
    assert(members["secret"@] == json_quoted(secret@));
    object_text(object)
}

/// The question to the device that `body` names, where it was discovered. There
/// is no `body` where the request could not be read.
pub fn handle_send_pairing_request(
    body: Option<SendRequestBody>,
    discovered: &DiscoveryMap,
    my_device_id: &str,
    my_device_name: &str,
    my_secret: &str,
) -> (outcome: Result<Outgoing, Reply>)
    ensures
        match body {
            None => outcome matches Err(reply) && reply@ == plain_reply(400, "Bad request"@),
            Some(asked) => if discovered@.contains_key(asked.device_id@) {
                let target = discovered@[asked.device_id@];
                outcome matches Ok(message) && message@ == (OutgoingView {
                    name: target.device_name@,
                    url: url_of(target.ip@, target.port, "/api/pairing/request"@),
                    body: json_object_text(
                        question_members(my_device_id@, my_device_name@, my_secret@),
                    ),
                }) && introduces(message.body@, my_device_id@, my_device_name@, my_secret@)
            } else {
                outcome matches Err(reply) && reply@ == plain_reply(404, "Device not found"@)
            },
        },
{
    match body {
        None => Err(plain(400, "Bad request")),
        Some(asked) => match discovered.get(asked.device_id.as_str()) {
            None => Err(plain(404, "Device not found")),
            Some(target) => Ok(
                Outgoing {
                    name: target.device_name.clone(),
                    url: url_to(target.ip.as_str(), target.port, "/api/pairing/request"),
                    body: question(my_device_id, my_device_name, my_secret),
                },
            ),
        },
    }
}

/// The answer to the user once the question was sent, or could not be.
pub fn pairing_request_sent(sent: bool) -> (reply: Reply)
    ensures
        reply@ == (if sent {
            plain_reply(200, "{\"status\":\"sent\"}"@)
        } else {
            plain_reply(500, "Failed to send request"@)
        }),
{
    if sent {
        plain(200, "{\"status\":\"sent\"}")
    } else {
        plain(500, "Failed to send request")
    }
}

/// Keeps the question of another device until the user decides, with the
/// address from which it really came. There is no `body` where it could not be
/// read.
pub fn handle_pairing_request(
    pending: &mut PendingRequestsMap,
    body: Option<PairingRequestBody>,
    remote_ip: String,
) -> (reply: Reply)
    ensures
        match body {
            None => *final(pending) == *old(pending) && reply@ == plain_reply(
                400,
                "Bad request"@,
            ),
            Some(asked) => {
                &&& final(pending)@.contains_key(asked.device_id@)
                &&& final(pending)@[asked.device_id@]@ == pending_of(asked, remote_ip@)
                &&& final(pending)@.remove(asked.device_id@) == old(pending)@.remove(
                    asked.device_id@,
                )
                &&& reply@ == plain_reply(200, "{\"status\":\"received\"}"@)
            },
        },
{
    match body {
        None => plain(400, "Bad request"),
        Some(asked) => {
            let key = asked.device_id.clone();
            let ghost before = pending@;
            pending.insert(
                key,
                PendingRequest {
                    device_id: asked.device_id,
                    device_name: asked.device_name,
                    ip: remote_ip,
                    port: asked.port,
                    secret: asked.secret,
                },
            );
            assert(pending@.remove(key@) =~= before.remove(key@));
            plain(200, "{\"status\":\"received\"}")
        },
    }
}

/// The devices that wait for an answer, each once.
pub fn serve_pending_requests(pending: &PendingRequestsMap) -> (list: Vec<PendingRequest>)
    ensures
        list@ == pending.keys().map_values(|key: Seq<char>| pending@[key]),
        pending.keys().no_duplicates(),
        forall|key: Seq<char>| #[trigger]
            pending@.contains_key(key) == pending.keys().contains(key),
{
    let ghost keys = pending.keys();
    let mut list: Vec<PendingRequest> = Vec::new();
    let n = pending.len();
    for i in 0..n
        invariant
            keys == pending.keys(),
            n == keys.len(),
            list@ =~= keys.take(i as int).map_values(|key: Seq<char>| pending@[key]),
    {
        let (key, request) = pending.at(i);
        list.push(request.clone());
        assert(keys.take(i + 1) =~= keys.take(i as int).push(key@));
    }
    assert(keys.take(keys.len() as int) =~= keys);
    list
}

/// Takes the user's decision on the question of the device with `device_id`,
/// which is then no longer pending. There is no `body` where the decision could
/// not be read: that is a no.
pub fn handle_pairing_respond(
    pending: &mut PendingRequestsMap,
    device_id: &str,
    body: Option<PairingResponseBody>,
    my_device_id: &str,
    my_device_name: &str,
    my_secret: &str,
) -> (outcome: PairingOutcome)
    ensures
        final(pending)@ == old(pending)@.remove(device_id@),
        if !old(pending)@.contains_key(device_id@) {
            outcome matches PairingOutcome::NotFound { reply } && reply@ == plain_reply(
                404,
                "Request not found"@,
            )
        } else if body matches Some(decision) && decision.accept {
            let request = old(pending)@[device_id@]@;
            outcome matches PairingOutcome::Accepted { peer, consent, reply } && {
                &&& peer@ == peer_of_request(request)
                &&& consent@ == (OutgoingView {
                    name: request.device_name,
                    url: url_of(request.ip, request.port, "/api/pairing/complete"@),
                    body: json_object_text(
                        consent_members(my_device_id@, my_device_name@, my_secret@),
                    ),
                })
                &&& gives_consent(consent.body@, my_device_id@, my_device_name@, my_secret@)
                &&& reply@ == plain_reply(200, "{\"status\":\"ok\"}"@)
            }
        } else {
            outcome matches PairingOutcome::Declined { reply } && reply@ == plain_reply(
                200,
                "{\"status\":\"ok\"}"@,
            )
        },
{
    let accept = match body {
        Some(decision) => decision.accept,
        None => false,
    };
    match pending.remove(device_id) {
        None => PairingOutcome::NotFound { reply: plain(404, "Request not found") },
        Some(request) => {
            let reply = plain(200, "{\"status\":\"ok\"}");
            if accept {
                let message = Outgoing {
                    name: request.device_name.clone(),
                    url: url_to(request.ip.as_str(), request.port, "/api/pairing/complete"),
                    body: consent(my_device_id, my_device_name, my_secret),
                };
                let peer = Peer {
                    name: request.device_name,
                    ip: request.ip,
                    port: request.port,
                    secret: request.secret,
                };
                PairingOutcome::Accepted { peer, consent: message, reply }
            } else {
                PairingOutcome::Declined { reply }
            }
        },
    }
}

/// Takes the answer of a device that was asked. Where it is yes, that device is
/// to be kept as a peer and exchanged clips with, at the address from which the
/// answer really came. There is no `body` where it could not be read.
pub fn handle_pairing_complete(body: Option<PairingCompleteBody>, remote_ip: String) -> (outcome: (
    Option<Peer>,
    Reply,
))
    ensures
        match body {
            None => outcome.0 is None && outcome.1@ == plain_reply(400, "Bad request"@),
            Some(answer) => {
                &&& outcome.1@ == plain_reply(200, "{\"status\":\"ok\"}"@)
                &&& if answer.accepted {
                    outcome.0 matches Some(peer) && peer@ == peer_of_consent(answer, remote_ip@)
                } else {
                    outcome.0 is None
                }
            },
        },
{
    match body {
        None => (None, plain(400, "Bad request")),
        Some(answer) => {
            let reply = plain(200, "{\"status\":\"ok\"}");
            if answer.accepted {
                let peer = Peer {
                    name: answer.device_name,
                    ip: remote_ip,
                    port: answer.port,
                    secret: answer.secret,
                };
                (Some(peer), reply)
            } else {
                (None, reply)
            }
        },
    }
}

/// `body` holds what `text` says.
pub open spec fn reads_question(text: Seq<char>, body: PairingRequestBody) -> bool {
    &&& json_text_member(text, "device_id"@) == Some(body.device_id@)
    &&& json_text_member(text, "device_name"@) == Some(body.device_name@)
    &&& json_number_member(text, "port"@) == Some(body.port as u64)
    &&& json_text_member(text, "secret"@) == Some(body.secret@)
}

/// `body` holds what `text` says.
pub open spec fn reads_consent(text: Seq<char>, body: PairingCompleteBody) -> bool {
    &&& json_text_member(text, "device_name"@) == Some(body.device_name@)
    &&& json_number_member(text, "port"@) == Some(body.port as u64)
    &&& json_text_member(text, "secret"@) == Some(body.secret@)
    &&& json_flag_member(text, "accepted"@) == Some(body.accepted)
}

/// Where one device asks by `question_text` and the other one answers with yes
/// by `consent_text`, the answer reads as a yes, and each keeps the other one as a
/// peer: under its name, at the address from which it was heard, with the secret
/// by which it lets others in.
pub proof fn law_pairing_makes_peers_of_both(
    asking: DeviceView,
    asking_secret: Seq<char>,
    question_text: Seq<char>,
    question_body: PairingRequestBody,
    asked: DeviceView,
    asked_secret: Seq<char>,
    consent_text: Seq<char>,
    consent_body: PairingCompleteBody,
)
    requires
        introduces(question_text, asking.device_id, asking.device_name, asking_secret),
        reads_question(question_text, question_body),
        gives_consent(consent_text, asked.device_id, asked.device_name, asked_secret),
        reads_consent(consent_text, consent_body),
    ensures
        peer_of_request(pending_of(question_body, asking.ip)) == (PeerView {
            name: asking.device_name,
            ip: asking.ip,
            port: PORT,
            secret: asking_secret,
        }),
        consent_body.accepted,
        peer_of_consent(consent_body, asked.ip) == (PeerView {
            name: asked.device_name,
            ip: asked.ip,
            port: PORT,
            secret: asked_secret,
        }),
{
}

/// The address of a device that asks or answers is the one from which it was
/// heard, whatever it says of itself.
pub proof fn law_address_is_the_one_heard_from(
    question_body: PairingRequestBody,
    consent_body: PairingCompleteBody,
    remote_ip: Seq<char>,
)
    ensures
        peer_of_request(pending_of(question_body, remote_ip)).ip == remote_ip,
        peer_of_consent(consent_body, remote_ip).ip == remote_ip,
{
}

/// A question tells the id, the name, the port 8080 and the secret of this device,
/// and nothing else; a consent tells the same, and that it is one.
pub proof fn law_question_tells_who_asks(
    device_id: Seq<char>,
    device_name: Seq<char>,
    secret: Seq<char>,
    key: Seq<char>,
)
    ensures
        question_members(device_id, device_name, secret)["device_id"@] == json_quoted(device_id),
        question_members(device_id, device_name, secret)["device_name"@] == json_quoted(
            device_name,
        ),
        question_members(device_id, device_name, secret)["port"@] == decimal(8080),
        question_members(device_id, device_name, secret)["secret"@] == json_quoted(secret),
        question_members(device_id, device_name, secret).contains_key(key) <==> key
            == "device_id"@ || key == "device_name"@ || key == "port"@ || key == "secret"@,
        consent_members(device_id, device_name, secret)["device_id"@] == json_quoted(device_id),
        consent_members(device_id, device_name, secret)["device_name"@] == json_quoted(
            device_name,
        ),
        consent_members(device_id, device_name, secret)["port"@] == decimal(8080),
        consent_members(device_id, device_name, secret)["secret"@] == json_quoted(secret),
        consent_members(device_id, device_name, secret)["accepted"@] == "true"@,
        consent_members(device_id, device_name, secret).contains_key(key) <==> key
            == "device_id"@ || key == "device_name"@ || key == "port"@ || key == "secret"@ || key
            == "accepted"@,
{
    crate::http::lemma_keys_differ();
}

/// A device that asks waits as it introduced itself, and becomes a peer as it
/// waited; one that consents becomes a peer as it introduced itself.
pub proof fn law_device_becomes_a_peer_as_it_introduced_itself(
    body: PairingRequestBody,
    answer: PairingCompleteBody,
    remote_ip: Seq<char>,
    request: PendingView,
    waiting: PendingRequest,
)
    ensures
        pending_of(body, remote_ip).device_id == body.device_id@,
        pending_of(body, remote_ip).device_name == body.device_name@,
        pending_of(body, remote_ip).ip == remote_ip,
        pending_of(body, remote_ip).port == body.port,
        pending_of(body, remote_ip).secret == body.secret@,
        peer_of_request(request).name == request.device_name,
        peer_of_request(request).ip == request.ip,
        peer_of_request(request).port == request.port,
        peer_of_request(request).secret == request.secret,
        peer_of_consent(answer, remote_ip).name == answer.device_name@,
        peer_of_consent(answer, remote_ip).ip == remote_ip,
        peer_of_consent(answer, remote_ip).port == answer.port,
        peer_of_consent(answer, remote_ip).secret == answer.secret@,
        waiting@.device_id == waiting.device_id@,
        waiting@.device_name == waiting.device_name@,
        waiting@.ip == waiting.ip@,
        waiting@.port == waiting.port,
        waiting@.secret == waiting.secret@,
{
}

/// A text introduces a device exactly where its id, its name, the port 8080 and
/// its secret read as they should, and consents where that reads as a yes.
pub proof fn law_introduction_reads_member_by_member(
    text: Seq<char>,
    device_id: Seq<char>,
    device_name: Seq<char>,
    secret: Seq<char>,
)
    ensures
        introduces(text, device_id, device_name, secret) <==> json_text_member(text, "device_id"@)
            == Some(device_id) && json_text_member(text, "device_name"@) == Some(device_name)
            && json_number_member(text, "port"@) == Some(8080u64) && json_text_member(
            text,
            "secret"@,
        ) == Some(secret),
        gives_consent(text, device_id, device_name, secret) <==> introduces(
            text,
            device_id,
            device_name,
            secret,
        ) && json_flag_member(text, "accepted"@) == Some(true),
{
}

} // verus!
