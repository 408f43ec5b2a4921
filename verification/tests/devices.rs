use clipboard_daemon::discovery::{
    announced_device, announcement, broadcast_target, hear_packet, hear_text, next_pulse,
    serve_discovered,
    DiscoveryMap,
};
use clipboard_daemon::http::{find_query_value, json, plain, url_to, urlencoding_decode};
use clipboard_daemon::pairing::{
    handle_pairing_complete, handle_pairing_request, handle_pairing_respond,
    handle_send_pairing_request, pairing_request_sent, serve_pending_requests,
    PairingCompleteBody, PairingOutcome, PairingRequestBody, PairingResponseBody,
    PendingRequestsMap, SendRequestBody,
};
use clipboard_daemon::peers::{add_peer, find_peer, list_peers_cli, remove_peer, PeerList};
use clipboard_daemon::registry::Registry;

fn names(list: &PeerList) -> Vec<&str> {
    list.peers.iter().map(|peer| peer.name.as_str()).collect()
}

fn ask(id: &str, secret: &str) -> PairingRequestBody {
    PairingRequestBody {
        device_id: id.to_string(),
        device_name: format!("{}-name", id),
        port: 9,
        secret: secret.to_string(),
    }
}

#[test]
fn a_registry_keeps_one_value_for_each_key() {
    let mut registry: Registry<u32> = Registry::new();
    assert_eq!(registry.len(), 0);
    assert!(registry.get("a").is_none());
    registry.insert("a".to_string(), 1);
    registry.insert("b".to_string(), 2);
    registry.insert("c".to_string(), 3);
    registry.insert("a".to_string(), 4);
    assert_eq!(registry.len(), 3);
    assert_eq!(registry.get("a"), Some(&4));
    let (key, value) = registry.at(1);
    assert_eq!((key.as_str(), *value), ("b", 2));
    assert_eq!(registry.remove("a"), Some(4));
    assert_eq!(registry.remove("a"), None);
    assert_eq!(registry.len(), 2);
    assert_eq!(registry.at(0).0, "b");
    assert_eq!(registry.get("c"), Some(&3));
}

#[test]
fn peers_are_added_in_place_of_their_namesakes() {
    let mut list = PeerList::default();
    assert_eq!(list.peers.len(), 0);
    add_peer(&mut list, "a", "1.1.1.1", 1, "x");
    add_peer(&mut list, "b", "2.2.2.2", 2, "y");
    add_peer(&mut list, "a", "3.3.3.3", 3, "z");
    assert_eq!(names(&list), vec!["b", "a"]);
    let found = find_peer(&list, "a").unwrap();
    assert_eq!((found.ip.as_str(), found.port, found.secret.as_str()), ("3.3.3.3", 3, "z"));
    assert!(find_peer(&list, "c").is_none());
}

#[test]
fn peers_are_removed() {
    let mut list = PeerList::default();
    add_peer(&mut list, "a", "1.1.1.1", 1, "x");
    add_peer(&mut list, "b", "2.2.2.2", 2, "y");
    assert!(!remove_peer(&mut list, "c"));
    assert_eq!(names(&list), vec!["a", "b"]);
    assert!(remove_peer(&mut list, "a"));
    assert!(!remove_peer(&mut list, "a"));
    assert_eq!(names(&list), vec!["b"]);
    assert!(find_peer(&list, "a").is_none());
    assert_eq!(find_peer(&list, "b").unwrap().ip, "2.2.2.2");
}

#[test]
fn peers_are_listed() {
    let mut list = PeerList::default();
    assert_eq!(
        list_peers_cli(&list),
        vec!["No peers configured yet. Use 'add-peer' to add one."]
    );
    add_peer(&mut list, "desk", "10.0.0.2", 8080, "x");
    assert_eq!(
        list_peers_cli(&list),
        vec!["Configured peers:", "  desk \u{2014} 10.0.0.2:8080"]
    );
}

#[test]
fn answers_are_marked() {
    let reply = plain(404, "x");
    assert_eq!((reply.status, reply.json, reply.body.as_str()), (404, false, "x"));
    let reply = json("{}");
    assert_eq!((reply.status, reply.json, reply.body.as_str()), (200, true, "{}"));
    assert_eq!(url_to("1.2.3.4", 80, "/a"), "http://1.2.3.4:80/a");
}

#[test]
fn parameters_are_found_in_addresses() {
    assert_eq!(find_query_value("/a?q=x&r=y", "q=").as_deref(), Some("x"));
    assert_eq!(find_query_value("/a?q=x&r=y", "r=").as_deref(), Some("y"));
    assert_eq!(find_query_value("/a?r=y&r=z", "r=").as_deref(), Some("y"));
    assert_eq!(find_query_value("/a?r=y", "q="), None);
    assert_eq!(find_query_value("/a", "q="), None);
    assert_eq!(find_query_value("/a?q=q=x", "q=").as_deref(), Some("x"));
    assert_eq!(find_query_value("/a?q=x?y", "q=").as_deref(), Some("x"));
    assert_eq!(find_query_value("/a?q=", "q=").as_deref(), Some(""));
    assert_eq!(find_query_value("/a?b?q=x", "q="), None);
}

#[test]
fn blanks_are_decoded() {
    assert_eq!(urlencoding_decode("a+b%20c"), "a b c");
    assert_eq!(urlencoding_decode("%2B%20"), "%2B ");
    assert_eq!(urlencoding_decode("plain"), "plain");
    assert_eq!(urlencoding_decode("%2%20%%20"), "%2 % ");
    let name = "my old desk";
    assert_eq!(urlencoding_decode(&name.replace(' ', "+")), name);
    assert_eq!(urlencoding_decode(&name.replace(' ', "%20")), name);
}

#[test]
fn announcements_are_written_as_json() {
    assert_eq!(
        announcement("id-1", "D\"esk"),
        "{\"device_id\":\"id-1\",\"device_name\":\"D\\\"esk\",\"port\":8080}"
    );
    assert_eq!(broadcast_target(), "255.255.255.255:45679");
    assert!(next_pulse(0) && next_pulse(2) && !next_pulse(3));
}

#[test]
fn an_announced_device_is_heard() {
    let mut map = DiscoveryMap::new();
    let text = announcement("id-1", "Desk \u{e9}\n");
    hear_packet(&mut map, "me", text.as_bytes(), "10.0.0.7".to_string(), 100);
    let device = map.get("id-1").unwrap();
    assert_eq!(device.device_id, "id-1");
    assert_eq!(device.device_name, "Desk \u{e9}\n");
    assert_eq!(device.ip, "10.0.0.7");
    assert_eq!(device.port, 8080);
    assert_eq!(device.last_seen, 100);
    hear_packet(&mut map, "me", text.as_bytes(), "10.0.0.8".to_string(), 110);
    assert_eq!(map.len(), 1);
    assert_eq!(map.get("id-1").unwrap().ip, "10.0.0.8");
}

#[test]
fn what_announces_nothing_is_ignored() {
    let mut map = DiscoveryMap::new();
    for packet in [
        "".as_bytes(),
        b"no json",
        b"[1]",
        b"{}",
        b"{\"device_id\":\"\"}",
        b"{\"device_id\":7}",
        b"\xff\xfe",
    ] {
        hear_packet(&mut map, "me", packet, "ip".to_string(), 1);
    }
    hear_packet(&mut map, "me", announcement("me", "x").as_bytes(), "ip".to_string(), 1);
    assert_eq!(map.len(), 0);
}

#[test]
fn gaps_in_an_announcement_are_filled() {
    let device = hear_text("me", "{\"device_id\":\"a\"}", "ip".to_string(), 5).unwrap();
    assert_eq!((device.device_name.as_str(), device.port), ("Unknown", 8080));
    let device = hear_text(
        "me",
        "{\"device_id\":\"a\",\"device_name\":1,\"port\":-1}",
        "ip".to_string(),
        5,
    )
    .unwrap();
    assert_eq!((device.device_name.as_str(), device.port), ("Unknown", 8080));
    // Of a larger number the low sixteen bits count.
    let device = hear_text("me", "{\"device_id\":\"a\",\"port\":65617}", "ip".to_string(), 5);
    assert_eq!(device.unwrap().port, 81);
}

#[test]
fn a_device_is_made_of_what_it_announced() {
    assert!(announced_device("me", None, None, None, "ip".to_string(), 1).is_none());
    assert!(announced_device("me", Some("me".to_string()), None, None, "ip".to_string(), 1)
        .is_none());
    let device = announced_device(
        "me",
        Some("a".to_string()),
        Some("n".to_string()),
        Some(70000),
        "ip".to_string(),
        1,
    )
    .unwrap();
    assert_eq!((device.device_name.as_str(), device.port), ("n", 4464));
}

#[test]
fn devices_are_shown_as_long_as_they_are_present() {
    let mut map = DiscoveryMap::new();
    hear_packet(&mut map, "me", announcement("a", "A").as_bytes(), "1".to_string(), 100);
    hear_packet(&mut map, "me", announcement("b", "B").as_bytes(), "2".to_string(), 110);
    let shown = |now: i64| -> Vec<String> {
        serve_discovered(&map, now).iter().map(|device| device.device_id.clone()).collect()
    };
    assert_eq!(shown(115), vec!["a", "b"]);
    assert_eq!(shown(116), vec!["b"]);
    assert_eq!(shown(126).len(), 0);
    assert_eq!(shown(i64::MIN), vec!["a", "b"]);
}

#[test]
fn a_question_is_sent_to_a_discovered_device() {
    let mut map = DiscoveryMap::new();
    hear_packet(&mut map, "me", announcement("a", "Desk").as_bytes(), "10.0.0.7".to_string(), 1);
    let body = Some(SendRequestBody { device_id: "a".to_string() });
    let message = handle_send_pairing_request(body, &map, "me", "My name", "s").ok().unwrap();
    assert_eq!(message.name, "Desk");
    assert_eq!(message.url, "http://10.0.0.7:8080/api/pairing/request");
    assert_eq!(
        message.body,
        "{\"device_id\":\"me\",\"device_name\":\"My name\",\"port\":8080,\"secret\":\"s\"}"
    );
    assert_eq!(pairing_request_sent(true).body, "{\"status\":\"sent\"}");
    assert_eq!(pairing_request_sent(true).status, 200);
    assert_eq!(pairing_request_sent(false).body, "Failed to send request");
    assert_eq!(pairing_request_sent(false).status, 500);
}

#[test]
fn a_question_to_an_unknown_device_is_refused() {
    let map = DiscoveryMap::new();
    let body = Some(SendRequestBody { device_id: "a".to_string() });
    let reply = handle_send_pairing_request(body, &map, "me", "n", "s").err().unwrap();
    assert_eq!((reply.status, reply.body.as_str()), (404, "Device not found"));
    let reply = handle_send_pairing_request(None, &map, "me", "n", "s").err().unwrap();
    assert_eq!((reply.status, reply.body.as_str()), (400, "Bad request"));
}

#[test]
fn questions_wait_for_the_user() {
    let mut pending = PendingRequestsMap::new();
    let reply = handle_pairing_request(&mut pending, Some(ask("a", "s")), "10.0.0.7".to_string());
    assert_eq!((reply.status, reply.body.as_str()), (200, "{\"status\":\"received\"}"));
    let reply = handle_pairing_request(&mut pending, None, "10.0.0.8".to_string());
    assert_eq!((reply.status, reply.body.as_str()), (400, "Bad request"));
    handle_pairing_request(&mut pending, Some(ask("b", "t")), "10.0.0.9".to_string());
    handle_pairing_request(&mut pending, Some(ask("a", "u")), "10.0.0.7".to_string());
    let list = serve_pending_requests(&pending);
    assert_eq!(list.len(), 2);
    assert_eq!((list[0].device_id.as_str(), list[0].secret.as_str()), ("a", "u"));
    assert_eq!(list[0].ip, "10.0.0.7");
    assert_eq!(list[1].device_name, "b-name");
}

#[test]
fn an_accepted_question_makes_a_peer() {
    let mut pending = PendingRequestsMap::new();
    handle_pairing_request(&mut pending, Some(ask("a", "s")), "10.0.0.7".to_string());
    let yes = Some(PairingResponseBody { accept: true });
    match handle_pairing_respond(&mut pending, "a", yes, "me", "My name", "mine") {
        PairingOutcome::Accepted { peer, consent, reply } => {
            assert_eq!(peer.name, "a-name");
            assert_eq!(peer.ip, "10.0.0.7");
            assert_eq!(peer.port, 9);
            assert_eq!(peer.secret, "s");
            assert_eq!(consent.name, "a-name");
            assert_eq!(consent.url, "http://10.0.0.7:9/api/pairing/complete");
            assert_eq!(
                consent.body,
                "{\"accepted\":true,\"device_id\":\"me\",\"device_name\":\"My name\",\
                 \"port\":8080,\"secret\":\"mine\"}"
            );
            assert_eq!((reply.status, reply.body.as_str()), (200, "{\"status\":\"ok\"}"));
        }
        _ => panic!("not accepted"),
    }
    assert_eq!(pending.len(), 0);
}

#[test]
fn a_declined_question_is_forgotten() {
    for body in [None, Some(PairingResponseBody { accept: false })] {
        let mut pending = PendingRequestsMap::new();
        handle_pairing_request(&mut pending, Some(ask("a", "s")), "ip".to_string());
        match handle_pairing_respond(&mut pending, "a", body, "me", "n", "s") {
            PairingOutcome::Declined { reply } => assert_eq!(reply.body, "{\"status\":\"ok\"}"),
            _ => panic!("not declined"),
        }
        assert_eq!(pending.len(), 0);
    }
}

#[test]
fn an_answer_needs_a_question() {
    let mut pending = PendingRequestsMap::new();
    handle_pairing_request(&mut pending, Some(ask("a", "s")), "ip".to_string());
    let yes = Some(PairingResponseBody { accept: true });
    match handle_pairing_respond(&mut pending, "b", yes, "me", "n", "s") {
        PairingOutcome::NotFound { reply } => {
            assert_eq!((reply.status, reply.body.as_str()), (404, "Request not found"))
        }
        _ => panic!("found"),
    }
    assert_eq!(pending.len(), 1);
}

#[test]
fn consent_makes_a_peer_at_the_address_it_came_from() {
    let body = |accepted: bool| {
        Some(PairingCompleteBody {
            device_name: "Desk".to_string(),
            port: 7,
            secret: "s".to_string(),
            accepted,
        })
    };
    let (peer, reply) = handle_pairing_complete(body(true), "10.0.0.3".to_string());
    let peer = peer.unwrap();
    assert_eq!((peer.name.as_str(), peer.ip.as_str()), ("Desk", "10.0.0.3"));
    assert_eq!((peer.port, peer.secret.as_str()), (7, "s"));
    assert_eq!((reply.status, reply.body.as_str()), (200, "{\"status\":\"ok\"}"));
    let (peer, reply) = handle_pairing_complete(body(false), "10.0.0.3".to_string());
    assert!(peer.is_none());
    assert_eq!(reply.body, "{\"status\":\"ok\"}");
    let (peer, reply) = handle_pairing_complete(None, "10.0.0.3".to_string());
    assert!(peer.is_none());
    assert_eq!((reply.status, reply.body.as_str()), (400, "Bad request"));
}

#[test]
fn a_sent_consent_reads_as_a_yes() {
    let mut pending = PendingRequestsMap::new();
    handle_pairing_request(&mut pending, Some(ask("a", "s")), "10.0.0.7".to_string());
    let yes = Some(PairingResponseBody { accept: true });
    let text = match handle_pairing_respond(&mut pending, "a", yes, "me", "My \"name\"", "mine") {
        PairingOutcome::Accepted { consent, .. } => consent.body,
        _ => panic!("not accepted"),
    };
    let value: serde_json::Value = serde_json::from_str(&text).unwrap();
    let body = PairingCompleteBody {
        device_name: value["device_name"].as_str().unwrap().to_string(),
        port: value["port"].as_u64().unwrap() as u16,
        secret: value["secret"].as_str().unwrap().to_string(),
        accepted: value["accepted"].as_bool().unwrap(),
    };
    let peer = handle_pairing_complete(Some(body), "10.0.0.3".to_string()).0.unwrap();
    assert_eq!((peer.name.as_str(), peer.ip.as_str()), ("My \"name\"", "10.0.0.3"));
    assert_eq!((peer.port, peer.secret.as_str()), (8080, "mine"));
}
