use clipboard_daemon::clips::{
    clip_to_delete, clip_to_pin, clips_failed, delete_clip, deletion_target, fetch_clips, new_pin, pin_target,
    run_search, search_pattern, serve_clips_json, serve_status, toggle_pin, ClipJson, ClipQuery,
    PinState, StoredClip,
};
use clipboard_daemon::server::{
    image_not_found, not_found, pause_state, respond_target, route, scanning, search_query,
    serve_image_file, Method, Route,
};

fn clip(id: i64, content: &str, content_type: &str) -> ClipJson {
    ClipJson {
        id,
        content: content.to_string(),
        content_type: content_type.to_string(),
        created_at: "then".to_string(),
        ocr_text: None,
        language: None,
        pinned: false,
        is_sensitive: false,
        digest: None,
    }
}

#[test]
fn clips_are_named_by_their_id() {
    assert_eq!(deletion_target("/api/clips/12").ok(), Some(12));
    assert_eq!(deletion_target("/api/clips/-3").ok(), Some(-3));
    let reply = deletion_target("/api/clips/12x").err().unwrap();
    assert_eq!((reply.status, reply.body.as_str()), (400, "Invalid clip id"));
    assert_eq!(pin_target("/api/clips/12/toggle-pin").ok(), Some(12));
    assert_eq!(pin_target("/api/clips//toggle-pin").err().unwrap().status, 400);
    for id in [i64::MIN, -1, 0, 7, i64::MAX] {
        assert_eq!(deletion_target(&format!("/api/clips/{}", id)).ok(), Some(id));
        assert_eq!(pin_target(&format!("/api/clips/{}/toggle-pin", id)).ok(), Some(id));
    }
    assert!(route("/api/clips/-3", Method::Delete) == Route::DeleteClip);
    assert!(route("/api/clips/-3/toggle-pin", Method::Post) == Route::TogglePin);
}

#[test]
fn a_missing_clip_is_answered() {
    let stored = StoredClip {
        content: "c".to_string(),
        content_type: "text".to_string(),
        content_hash: "h".to_string(),
    };
    assert_eq!(clip_to_delete(Some(stored)).ok().unwrap().content_hash, "h");
    let reply = clip_to_delete(None).err().unwrap();
    assert_eq!((reply.status, reply.body.as_str()), (404, "Clip not found"));
    let state = PinState { pinned: true, content_hash: "h".to_string() };
    assert!(clip_to_pin(Some(state)).ok().unwrap().pinned);
    let reply = clip_to_pin(None).err().unwrap();
    assert_eq!((reply.status, reply.body.as_str()), (404, "Clip not found"));
}

#[test]
fn a_deleted_clip_takes_its_image_along() {
    let stored = |content_type: &str| StoredClip {
        content: "f.png".to_string(),
        content_type: content_type.to_string(),
        content_hash: "h".to_string(),
    };
    let deletion = delete_clip(stored("image"), true);
    assert_eq!(deletion.remove_file.as_deref(), Some("f.png"));
    assert_eq!(deletion.propagate.as_deref(), Some("h"));
    assert!(deletion.reply.json);
    assert_eq!(deletion.reply.body, "{\"status\":\"deleted\"}");
    let deletion = delete_clip(stored("text"), true);
    assert!(deletion.remove_file.is_none());
    assert_eq!(deletion.propagate.as_deref(), Some("h"));
    let deletion = delete_clip(stored("image"), false);
    assert!(deletion.remove_file.is_none() && deletion.propagate.is_none());
    assert_eq!((deletion.reply.status, deletion.reply.body.as_str()), (500, "Failed to delete"));
}

#[test]
fn a_pin_is_toggled() {
    let state = |pinned: bool| PinState { pinned, content_hash: "h".to_string() };
    let change = toggle_pin(state(false), true);
    assert_eq!(change.propagate, Some(("h".to_string(), true)));
    assert_eq!(change.reply.body, "{\"pinned\":true}");
    let change = toggle_pin(state(true), true);
    assert_eq!(change.reply.body, "{\"pinned\":false}");
    let change = toggle_pin(state(true), false);
    assert!(change.propagate.is_none());
    assert_eq!((change.reply.status, change.reply.body.as_str()), (500, "Failed to update"));
    assert!(new_pin(false) && !new_pin(true) && new_pin(new_pin(true)));
}

#[test]
fn the_status_is_told() {
    assert_eq!(serve_status(true).body, "{\"paused\":true}");
    assert_eq!(serve_status(false).body, "{\"paused\":false}");
    assert!(serve_status(false).json);
}

#[test]
fn a_blank_query_is_none() {
    assert_eq!(serve_clips_json(Some(" a ".to_string())).as_deref(), Some(" a "));
    assert_eq!(serve_clips_json(Some(" \t".to_string())), None);
    assert_eq!(serve_clips_json(Some(String::new())), None);
    assert_eq!(serve_clips_json(None), None);
    assert_eq!((clips_failed().status, clips_failed().body.as_str()), (500, "[]"));
}

#[test]
fn a_query_becomes_a_pattern() {
    assert_eq!(search_pattern("a b"), "%a b%");
    assert!(matches!(fetch_clips(None), ClipQuery::All));
    assert!(matches!(
        fetch_clips(Some("x".to_string())),
        ClipQuery::Matching { pattern } if pattern == "%x%"
    ));
}

#[test]
fn a_search_shows_what_it_found() {
    let mut text = clip(4, &"w".repeat(101), "text");
    text.language = Some("rust".to_string());
    text.pinned = true;
    text.is_sensitive = true;
    text.digest = Some("in short".to_string());
    let mut image = clip(-5, "f.png", "image");
    image.ocr_text = Some("read".to_string());
    let bare = clip(6, "g.png", "image");
    let rows = vec![Ok(text), Err("odd".to_string()), Ok(image), Ok(bare)];
    let preview = format!("  {}", "w".repeat(100));
    assert_eq!(
        run_search("q", &rows),
        vec![
            "Search results for \"q\":",
            "",
            "[4] (text / rust) [pinned] [sensitive] then",
            "  TL;DR: in short",
            preview.as_str(),
            "",
            "Warning: skipping a row that failed to read (odd)",
            "[-5] (image / text) then",
            "  file: f.png",
            "  ocr:  read",
            "",
            "[6] (image / text) then",
            "  file: g.png",
            "",
            "3 match(es) found.",
        ]
    );
}

#[test]
fn a_search_may_find_nothing() {
    assert_eq!(
        run_search("q", &vec![]),
        vec!["Search results for \"q\":", "", "No matches found."]
    );
    assert_eq!(
        run_search("q", &vec![Err("odd".to_string())]).last().unwrap(),
        "No matches found."
    );
}

#[test]
fn requests_are_routed() {
    let expected = [
        ("/", Method::Get, Route::Html),
        ("/", Method::Delete, Route::Html),
        ("/index.html", Method::Get, Route::Html),
        ("/api/status", Method::Get, Route::Status),
        ("/api/pause", Method::Post, Route::Pause),
        ("/api/pause", Method::Get, Route::NotFound),
        ("/api/resume", Method::Post, Route::Resume),
        ("/api/resume", Method::Other, Route::NotFound),
        ("/api/device", Method::Get, Route::Device),
        ("/api/discovered", Method::Get, Route::Discovered),
        ("/api/discover/scan", Method::Post, Route::Scan),
        ("/api/discover/scan", Method::Get, Route::NotFound),
        ("/api/pairing/send-request", Method::Post, Route::SendPairingRequest),
        ("/api/pairing/request", Method::Post, Route::PairingRequest),
        ("/api/pairing/pending", Method::Get, Route::PendingRequests),
        ("/api/pairing/respond/x", Method::Post, Route::PairingRespond),
        ("/api/pairing/respond/x", Method::Get, Route::NotFound),
        ("/api/pairing/complete", Method::Post, Route::PairingComplete),
        ("/api/peers", Method::Get, Route::ListPeers),
        ("/api/peers", Method::Post, Route::AddPeer),
        ("/api/peers", Method::Delete, Route::NotFound),
        ("/api/peers/a/sync-now", Method::Post, Route::SyncNow),
        ("/api/peers/a/sync-now", Method::Delete, Route::RemovePeer),
        ("/api/peers/a", Method::Delete, Route::RemovePeer),
        ("/api/peers/a", Method::Get, Route::NotFound),
        ("/api/sync/notify", Method::Post, Route::SyncNotify),
        ("/api/sync/delete", Method::Post, Route::SyncDelete),
        ("/api/sync/pin", Method::Post, Route::SyncPin),
        ("/api/sync/pin", Method::Get, Route::NotFound),
        ("/api/sync/pull?secret=x", Method::Get, Route::SyncPull),
        ("/api/sync/pullover", Method::Post, Route::SyncPull),
        ("/api/clips/1/toggle-pin", Method::Post, Route::TogglePin),
        ("/api/clips/1", Method::Delete, Route::DeleteClip),
        ("/api/clips/1", Method::Get, Route::Clips),
        ("/api/clips", Method::Get, Route::Clips),
        ("/api/search?q=x", Method::Get, Route::Search),
        ("/clip_images/a.png", Method::Get, Route::Image),
        ("/clip_images", Method::Get, Route::NotFound),
        ("", Method::Get, Route::NotFound),
        ("/favicon.ico", Method::Get, Route::NotFound),
    ];
    for (url, method, asked) in expected {
        assert!(route(url, method) == asked, "{}", url);
    }
}

#[test]
fn capturing_is_paused_and_resumed() {
    assert!(pause_state(Route::Pause, false));
    assert!(!pause_state(Route::Resume, true));
    assert!(pause_state(Route::Status, true));
    assert!(!pause_state(Route::Clips, false));
}

#[test]
fn addresses_are_taken_apart() {
    assert_eq!(respond_target("/api/pairing/respond/id-1"), "id-1");
    assert_eq!(search_query("/api/search?q=a+b%20c").as_deref(), Some("a b c"));
    assert_eq!(search_query("/api/search"), None);
    assert_eq!(serve_image_file("/clip_images/a.png"), "clip_images/a.png");
    assert_eq!(serve_image_file("//clip_images/a.png"), "clip_images/a.png");
}

#[test]
fn an_answer_reaches_the_device() {
    let url = "/api/pairing/respond/0c1f-2";
    assert!(route(url, Method::Post) == Route::PairingRespond);
    assert_eq!(respond_target(url), "0c1f-2");
}

#[test]
fn stored_images_are_served() {
    for path in ["clip_images/sync_desk_a.png", "clip_images/20240101_120000.png"] {
        let url = format!("/{}", path);
        assert!(route(&url, Method::Get) == Route::Image);
        assert_eq!(serve_image_file(&url), path);
    }
}

#[test]
fn fixed_answers_are_given() {
    assert_eq!((image_not_found().status, image_not_found().body.as_str()), (404, "Image not found"));
    assert_eq!((not_found().status, not_found().body.as_str()), (404, "Not found"));
    assert_eq!((scanning().status, scanning().body.as_str()), (200, "{\"status\":\"scanning\"}"));
}
