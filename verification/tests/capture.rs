use clipboard_daemon::hash::hash_bytes;
use clipboard_daemon::watcher::{
    image_clip, image_file_name, next_attempt, recognised_text, AfterStoring, CapturedClip, ImageDecision,
    LookStart, TextDecision, Watcher,
};

fn weigh(raw: u128, words: usize) -> u64 {
    (raw as f64 / (words as f64).sqrt()).to_bits()
}

fn stored(decision: TextDecision) -> Option<CapturedClip> {
    match decision {
        TextDecision::Store(clip) => Some(clip),
        TextDecision::LookForImage => None,
    }
}

#[test]
fn nothing_is_captured_while_paused() {
    let watcher = Watcher::new();
    assert!(matches!(watcher.start(true), LookStart::Rest));
    assert!(matches!(watcher.start(false), LookStart::LookForText));
    assert!(next_attempt(0) && next_attempt(2) && !next_attempt(3));
}

#[test]
fn new_text_is_captured() {
    let watcher = Watcher::new();
    let clip = stored(watcher.consider_text(Some("my password: \u{e9}"), weigh)).unwrap();
    assert_eq!(clip.content, "my password: \u{e9}");
    assert_eq!(clip.content_type, "text");
    assert_eq!(clip.ocr_text, None);
    assert_eq!(clip.content_hash, hash_bytes("my password: \u{e9}".as_bytes()));
    assert_eq!(clip.language, "text");
    assert!(clip.is_sensitive);
    assert_eq!(clip.digest, None);
    let code = "fn main() { let mut x = 1; }\n".repeat(8);
    let clip = stored(watcher.consider_text(Some(&code), weigh)).unwrap();
    assert_eq!(clip.language, "rust");
    assert!(!clip.is_sensitive);
    assert_eq!(clip.digest.as_deref(), Some("8 lines of rust code"));
}

#[test]
fn no_text_and_empty_text_lead_to_the_image() {
    let watcher = Watcher::new();
    assert!(stored(watcher.consider_text(None, weigh)).is_none());
    assert!(stored(watcher.consider_text(Some(""), weigh)).is_none());
}

#[test]
fn the_same_text_is_captured_once() {
    let mut watcher = Watcher::new();
    let clip = stored(watcher.consider_text(Some("a"), weigh)).unwrap();
    assert!(matches!(
        watcher.text_stored(clip.content_hash, true),
        AfterStoring::Rest { notify: true }
    ));
    assert!(stored(watcher.consider_text(Some("a"), weigh)).is_none());
    assert!(stored(watcher.consider_text(Some("b"), weigh)).is_some());
}

#[test]
fn text_that_could_not_be_stored_is_tried_again() {
    let mut watcher = Watcher::new();
    let clip = stored(watcher.consider_text(Some("a"), weigh)).unwrap();
    assert!(matches!(
        watcher.text_stored(clip.content_hash, false),
        AfterStoring::LookForImage
    ));
    assert!(stored(watcher.consider_text(Some("a"), weigh)).is_some());
}

#[test]
fn an_image_needs_bytes_for_its_size() {
    let watcher = Watcher::new();
    assert!(matches!(watcher.consider_image(1, 1, &[]), ImageDecision::Skip));
    assert!(matches!(watcher.consider_image(2, 1, &[0; 7]), ImageDecision::Mismatch));
    assert!(matches!(
        watcher.consider_image(2, 1, &[0; 8]),
        ImageDecision::Save { width: 2, height: 1, content_hash } if content_hash == hash_bytes(&[0; 8])
    ));
    // More bytes than needed are enough.
    assert!(matches!(watcher.consider_image(1, 1, &[0; 8]), ImageDecision::Save { .. }));
    assert!(matches!(
        watcher.consider_image(u32::MAX as usize, u32::MAX as usize, &[0; 8]),
        ImageDecision::Mismatch
    ));
    // Of a size the low thirty-two bits count.
    assert!(matches!(
        watcher.consider_image(0x1_0000_0002, 1, &[0; 8]),
        ImageDecision::Save { width: 2, height: 1, .. }
    ));
}

#[test]
fn the_same_image_is_captured_once() {
    let mut watcher = Watcher::new();
    let hash = hash_bytes(&[1; 4]);
    assert!(!watcher.image_stored(hash.clone(), false));
    assert!(matches!(watcher.consider_image(1, 1, &[1; 4]), ImageDecision::Save { .. }));
    assert!(watcher.image_stored(hash.clone(), true));
    assert!(matches!(watcher.consider_image(1, 1, &[1; 4]), ImageDecision::Skip));
    assert!(matches!(watcher.consider_image(1, 1, &[2; 4]), ImageDecision::Save { .. }));
}

#[test]
fn an_image_whose_file_failed_is_not_tried_again() {
    let mut watcher = Watcher::new();
    watcher.image_file_failed(hash_bytes(&[1; 4]));
    assert!(matches!(watcher.consider_image(1, 1, &[1; 4]), ImageDecision::Skip));
}

#[test]
fn an_image_is_stored_with_its_text() {
    let clip = image_clip("f.png".to_string(), Some("Secret".to_string()), "h".to_string(), weigh);
    assert_eq!(clip.content, "f.png");
    assert_eq!(clip.content_type, "image");
    assert_eq!(clip.ocr_text.as_deref(), Some("Secret"));
    assert_eq!(clip.content_hash, "h");
    assert_eq!(clip.language, "n/a");
    assert!(clip.is_sensitive);
    assert_eq!(clip.digest, None);
    let long = "w".repeat(200);
    let clip = image_clip("f.png".to_string(), Some(long), "h".to_string(), weigh);
    assert_eq!(clip.digest, Some(format!("{}...", "w".repeat(140))));
    let clip = image_clip("f.png".to_string(), None, "h".to_string(), weigh);
    assert!(!clip.is_sensitive && clip.digest.is_none() && clip.ocr_text.is_none());
}

#[test]
fn recognised_text_is_trimmed() {
    assert_eq!(recognised_text(" a b \n\u{c}").as_deref(), Some("a b"));
    assert_eq!(recognised_text(" \n"), None);
    assert_eq!(recognised_text(""), None);
    assert_eq!(image_file_name("20240101_120000"), "clip_images/20240101_120000.png");
}
