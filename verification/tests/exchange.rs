use clipboard_daemon::import::{
    image_path_for, image_url, local_image_path, record_exchange, Import, ImportStep, SyncClip,
};
use clipboard_daemon::peers::{add_peer, Peer, PeerList};
use clipboard_daemon::remote::{
    handle_add_peer_request, handle_remove_peer_request, handle_sync_delete_request,
    handle_sync_notify, handle_sync_now_request, handle_sync_pin_request, serve_sync_pull,
    sync_deletion, sync_pin_change, AddPeerRequest, BodyError, SyncDeleteBody, SyncPinBody,
};
use clipboard_daemon::sync::{
    catch_up, notify_all_peers_to_pull, notify_peer_to_pull, propagate_delete_to_peers,
    propagate_pin_to_peers, pull_url_of, serve_list_peers, sync_all_peers, update_sync_status,
    SyncStatusMap,
};

fn peer(name: &str) -> Peer {
    Peer { name: name.to_string(), ip: "10.0.0.2".to_string(), port: 81, secret: "s".to_string() }
}

fn two_peers() -> PeerList {
    let mut list = PeerList::default();
    add_peer(&mut list, "my desk", "10.0.0.2", 81, "s");
    add_peer(&mut list, "b", "10.0.0.3", 82, "t");
    list
}

fn clip(content: &str, content_type: &str, hash: &str) -> SyncClip {
    SyncClip {
        content: content.to_string(),
        content_type: content_type.to_string(),
        device_id: "other".to_string(),
        created_at: "2024-01-01 00:00:00".to_string(),
        ocr_text: Some("o".to_string()),
        content_hash: hash.to_string(),
        language: None,
        is_sensitive: true,
        digest: Some("d".to_string()),
    }
}

/// Runs an exchange, and gives back what was done and how many were stored.
fn run(clips: Vec<SyncClip>, known: &mut Vec<String>, fetches: bool, refused: &str) -> (Vec<String>, usize) {
    let mut done = Vec::new();
    let mut import = Import::start(peer("p"), clips);
    loop {
        let yes = match import.step() {
            ImportStep::LookUp { content_hash } => {
                done.push(format!("look {}", content_hash));
                known.contains(&content_hash)
            }
            ImportStep::Fetch { content, url, path } => {
                assert!(url.ends_with(&content));
                done.push(format!("fetch {} {}", url, path));
                fetches
            }
            ImportStep::Insert { row } => {
                assert!(!row.pinned);
                done.push(format!("insert {}", row.clip.content));
                let works = row.clip.content_hash != refused;
                if works {
                    known.push(row.clip.content_hash);
                }
                works
            }
            ImportStep::Done { imported } => return (done, imported),
        };
        import = import.answer(yes);
    }
}

#[test]
fn peers_are_told_where_to_look() {
    assert_eq!(pull_url_of(&peer("p")), "http://10.0.0.2:81/api/sync/pull?secret=s");
    assert_eq!(notify_peer_to_pull(&peer("p")), "http://10.0.0.2:81/api/sync/notify");
    assert_eq!(
        notify_all_peers_to_pull(&two_peers()),
        vec!["http://10.0.0.2:81/api/sync/notify", "http://10.0.0.3:82/api/sync/notify"]
    );
    assert_eq!(notify_all_peers_to_pull(&PeerList::default()).len(), 0);
}

#[test]
fn all_peers_are_asked_for_their_clips() {
    let requests = sync_all_peers(&two_peers());
    assert_eq!(requests.len(), 2);
    assert_eq!(requests[0].peer.name, "my desk");
    assert_eq!(requests[1].url, "http://10.0.0.3:82/api/sync/pull?secret=t");
    assert_eq!(sync_all_peers(&PeerList::default()).len(), 0);
}

#[test]
fn a_new_peer_is_asked_and_told() {
    let (request, url) = catch_up(&two_peers(), "b").unwrap();
    assert_eq!(request.peer.name, "b");
    assert_eq!(request.url, "http://10.0.0.3:82/api/sync/pull?secret=t");
    assert_eq!(url, "http://10.0.0.3:82/api/sync/notify");
    assert!(catch_up(&two_peers(), "c").is_none());
}

#[test]
fn a_pushed_pin_is_taken_by_the_peer_with_that_secret() {
    let message = &propagate_pin_to_peers(&two_peers(), "h", true)[0];
    let value: serde_json::Value = serde_json::from_str(&message.body).unwrap();
    let body = || {
        Some(SyncPinBody {
            content_hash: value["content_hash"].as_str().unwrap().to_string(),
            pinned: value["pinned"].as_bool().unwrap(),
            secret: value["secret"].as_str().unwrap().to_string(),
        })
    };
    assert_eq!(handle_sync_pin_request("s", body()).ok(), Some(("h".to_string(), true)));
    assert_eq!(handle_sync_pin_request("t", body()).err().unwrap().status, 401);
}

#[test]
fn rows_are_stored_in_order() {
    let list = vec![
        clip("a", "text", "1"),
        clip("x/y.png", "image", "2"),
        clip("c", "text", "3"),
        clip("d", "text", "4"),
    ];
    let (done, imported) = run(list, &mut vec!["4".to_string()], true, "");
    let rows: Vec<&String> = done.iter().filter(|step| step.starts_with("insert")).collect();
    assert_eq!(rows, vec!["insert a", "insert clip_images/sync_p_y.png", "insert c"]);
    assert_eq!(imported, 3);
}

#[test]
fn the_last_exchange_with_each_peer_is_shown() {
    let mut status = SyncStatusMap::new();
    update_sync_status(&mut status, "b", None, 0, Some("gone".to_string()));
    let list = serve_list_peers(&two_peers(), &status);
    assert_eq!((list[0].name.as_str(), list[0].ip.as_str(), list[0].port), ("my desk", "10.0.0.2", 81));
    assert_eq!((list[0].last_imported, &list[0].last_error), (0, &None));
    assert_eq!(list[1].last_error.as_deref(), Some("gone"));
    record_exchange(&mut status, "b", Ok(3), "now".to_string());
    record_exchange(&mut status, "my desk", Err("away".to_string()), "now".to_string());
    let list = serve_list_peers(&two_peers(), &status);
    assert_eq!(list[1].last_imported, 3);
    assert_eq!(list[1].last_synced_at.as_deref(), Some("now"));
    assert_eq!(list[1].last_error, None);
    assert_eq!(list[0].last_synced_at, None);
    assert_eq!(list[0].last_error.as_deref(), Some("away"));
}

#[test]
fn deletions_are_told_to_all_peers() {
    let list = propagate_delete_to_peers(&two_peers(), "h");
    assert_eq!(list.len(), 2);
    assert_eq!(list[0].name, "my desk");
    assert_eq!(list[0].url, "http://10.0.0.2:81/api/sync/delete");
    assert_eq!(list[0].body, "{\"content_hash\":\"h\",\"secret\":\"s\"}");
    assert_eq!(list[1].body, "{\"content_hash\":\"h\",\"secret\":\"t\"}");
}

#[test]
fn pins_are_told_to_all_peers() {
    let list = propagate_pin_to_peers(&two_peers(), "h", true);
    assert_eq!(list[1].url, "http://10.0.0.3:82/api/sync/pin");
    assert_eq!(list[1].body, "{\"content_hash\":\"h\",\"pinned\":true,\"secret\":\"t\"}");
    let list = propagate_pin_to_peers(&two_peers(), "h\\", false);
    assert_eq!(list[0].body, "{\"content_hash\":\"h\\\\\",\"pinned\":false,\"secret\":\"s\"}");
}

#[test]
fn images_get_a_place_of_their_own() {
    assert_eq!(
        image_path_for("clip_images/20240101.png", "desk"),
        "clip_images/sync_desk_20240101.png"
    );
    assert_eq!(image_path_for("bare.png", "d"), "clip_images/sync_d_bare.png");
    assert_eq!(image_path_for("a/", "d"), "clip_images/sync_d_");
    assert_eq!(
        local_image_path("clip_images/x.png", "my d\u{e9}sk/../1"),
        "clip_images/sync_my_d\u{e9}sk____1_x.png"
    );
    assert_eq!(
        image_url(&peer("p"), "clip_images/x.png"),
        "http://10.0.0.2:81/clip_images/x.png"
    );
}

#[test]
fn clips_are_taken_over_up_to_a_known_one() {
    let list = vec![clip("a", "text", "1"), clip("b", "text", "2"), clip("c", "text", "3")];
    let mut known = vec!["2".to_string()];
    let (done, imported) = run(list, &mut known, true, "");
    assert_eq!(done, vec!["look 1", "insert a", "look 2"]);
    assert_eq!(imported, 1);
}

#[test]
fn images_are_fetched_first() {
    let list = vec![clip("clip_images/x.png", "image", "1"), clip("b", "text", "2")];
    let (done, imported) = run(list.clone(), &mut Vec::new(), true, "");
    assert_eq!(
        done,
        vec![
            "look 1",
            "fetch http://10.0.0.2:81/clip_images/x.png clip_images/sync_p_x.png",
            "insert clip_images/sync_p_x.png",
            "look 2",
            "insert b",
        ]
    );
    assert_eq!(imported, 2);
    let (done, imported) = run(list, &mut Vec::new(), false, "");
    assert_eq!(done.last().unwrap(), "insert b");
    assert_eq!(done.len(), 4);
    assert_eq!(imported, 1);
}

#[test]
fn a_clip_that_cannot_be_stored_is_passed_over() {
    let list = vec![clip("a", "text", "1"), clip("b", "text", "2")];
    let (done, imported) = run(list, &mut Vec::new(), true, "1");
    assert_eq!(done, vec!["look 1", "insert a", "look 2", "insert b"]);
    assert_eq!(imported, 1);
}

#[test]
fn a_second_exchange_takes_nothing_over() {
    let list = vec![clip("a", "text", "1"), clip("b", "text", "2"), clip("c", "text", "3")];
    let mut known = Vec::new();
    assert_eq!(run(list.clone(), &mut known, true, "1").1, 2);
    assert_eq!(run(list, &mut known, true, "1").1, 0);
    let (done, imported) = run(Vec::new(), &mut known, true, "");
    assert_eq!((done.len(), imported), (0, 0));
}

#[test]
fn a_clip_keeps_what_it_holds() {
    let import = Import::start(peer("p"), vec![clip("a", "text", "1")]).answer(false);
    match import.step() {
        ImportStep::Insert { row } => {
            assert_eq!(row.clip.device_id, "other");
            assert_eq!(row.clip.created_at, "2024-01-01 00:00:00");
            assert_eq!(row.clip.ocr_text.as_deref(), Some("o"));
            assert_eq!(row.clip.language, None);
            assert!(row.clip.is_sensitive);
            assert_eq!(row.clip.digest.as_deref(), Some("d"));
        }
        _ => panic!("not stored"),
    }
}

#[test]
fn a_notification_is_confirmed() {
    let reply = handle_sync_notify();
    assert_eq!((reply.status, reply.body.as_str()), (200, "{\"status\":\"triggered\"}"));
}

#[test]
fn deletions_need_the_secret() {
    let body = |secret: &str| {
        Some(SyncDeleteBody { content_hash: "h".to_string(), secret: secret.to_string() })
    };
    assert_eq!(handle_sync_delete_request("s", body("s")).ok().as_deref(), Some("h"));
    let reply = handle_sync_delete_request("s", body("t")).err().unwrap();
    assert_eq!((reply.status, reply.body.as_str()), (401, "Unauthorized"));
    let reply = handle_sync_delete_request("s", None).err().unwrap();
    assert_eq!((reply.status, reply.body.as_str()), (400, "Bad request"));
}

#[test]
fn deletions_by_peers_are_not_passed_on() {
    let deletion = sync_deletion(Some(("f.png".to_string(), "image".to_string())));
    assert_eq!(deletion.remove_file.as_deref(), Some("f.png"));
    assert!(deletion.propagate.is_none());
    assert_eq!(deletion.reply.body, "{\"status\":\"ok\"}");
    let deletion = sync_deletion(Some(("words".to_string(), "text".to_string())));
    assert!(deletion.remove_file.is_none());
    let deletion = sync_deletion(None);
    assert!(deletion.remove_file.is_none());
    assert_eq!(deletion.reply.status, 200);
}

#[test]
fn pins_need_the_secret() {
    let body = |secret: &str| {
        Some(SyncPinBody {
            content_hash: "h".to_string(),
            pinned: true,
            secret: secret.to_string(),
        })
    };
    assert_eq!(handle_sync_pin_request("s", body("s")).ok(), Some(("h".to_string(), true)));
    assert_eq!(handle_sync_pin_request("s", body("")).err().unwrap().status, 401);
    assert_eq!(handle_sync_pin_request("s", None).err().unwrap().status, 400);
    let change = sync_pin_change();
    assert!(change.propagate.is_none());
    assert_eq!(change.reply.body, "{\"status\":\"ok\"}");
}

#[test]
fn clips_are_handed_out_to_those_with_the_secret() {
    assert!(serve_sync_pull("s", "/api/sync/pull?secret=s").is_none());
    assert!(serve_sync_pull("s", "/api/sync/pull?a=b&secret=s").is_none());
    let reply = serve_sync_pull("s", "/api/sync/pull?secret=t").unwrap();
    assert_eq!((reply.status, reply.body.as_str()), (401, "Unauthorized"));
    assert!(serve_sync_pull("s", "/api/sync/pull").is_some());
    assert!(serve_sync_pull("", "/api/sync/pull").is_none());
    // A secret that cannot stand in an address does not let in.
    assert!(serve_sync_pull("a&b", "/api/sync/pull?secret=a&b").is_some());
}

#[test]
fn the_user_adds_a_peer() {
    let mut list = PeerList::default();
    let body = AddPeerRequest {
        name: "n".to_string(),
        ip: "ip".to_string(),
        port: 5,
        secret: "s".to_string(),
    };
    let (save, reply) = handle_add_peer_request(&mut list, Ok(body));
    assert!(save && reply.json);
    assert_eq!(reply.body, "{\"status\":\"added\"}");
    assert_eq!(list.peers[0].port, 5);
    let (save, reply) = handle_add_peer_request(&mut list, Err(BodyError::Unreadable));
    assert!(!save);
    assert_eq!((reply.status, reply.body.as_str()), (400, "Failed to read request body"));
    let (save, reply) = handle_add_peer_request(&mut list, Err(BodyError::Invalid));
    assert!(!save);
    assert_eq!((reply.status, reply.body.as_str()), (400, "Invalid request body"));
    assert_eq!(list.peers.len(), 1);
}

#[test]
fn the_user_removes_a_peer() {
    let mut list = two_peers();
    let (save, reply) = handle_remove_peer_request(&mut list, "/api/peers/nobody");
    assert!(!save && reply.json);
    assert_eq!(reply.body, "{\"status\":\"removed\"}");
    let (save, _) = handle_remove_peer_request(&mut list, "/api/peers/my%20desk");
    assert!(save);
    assert_eq!(list.peers.len(), 1);
    assert_eq!(list.peers[0].name, "b");
}

#[test]
fn the_user_starts_an_exchange() {
    let list = two_peers();
    let (found, reply) =
        handle_sync_now_request(&list, "/api/peers/my+desk/sync-now").ok().unwrap();
    assert_eq!(found.ip, "10.0.0.2");
    assert_eq!((reply.status, reply.body.as_str()), (200, "{\"status\":\"synced\"}"));
    let reply = handle_sync_now_request(&list, "/api/peers/c/sync-now").err().unwrap();
    assert_eq!((reply.status, reply.body.as_str()), (404, "Peer not found"));
}

#[test]
fn a_pushed_deletion_is_taken_by_the_peer_with_that_secret() {
    let message = &propagate_delete_to_peers(&two_peers(), "h\"1")[1];
    let value: serde_json::Value = serde_json::from_str(&message.body).unwrap();
    let body = || {
        Some(SyncDeleteBody {
            content_hash: value["content_hash"].as_str().unwrap().to_string(),
            secret: value["secret"].as_str().unwrap().to_string(),
        })
    };
    assert_eq!(handle_sync_delete_request("t", body()).ok().as_deref(), Some("h\"1"));
    assert_eq!(handle_sync_delete_request("s", body()).err().unwrap().status, 401);
}

#[test]
fn a_made_secret_lets_a_peer_in() {
    let secret = clipboard_daemon::identity::generate_secret();
    let mut asked = peer("p");
    asked.secret = secret.clone();
    let url = pull_url_of(&asked);
    assert!(serve_sync_pull(&secret, url.trim_start_matches("http://10.0.0.2:81")).is_none());
}
