//! What is captured from the clipboard.

use vstd::prelude::*;
use vstd::utf8::encode_utf8;

use crate::digest::{digest_by, generate_digest, is_digest, is_function};
use crate::hash::{hash_bytes, hex, sha256};
use crate::language::{detect_language, language_of};
use crate::sensitive::{detect_sensitive, gives_secret_away};
use crate::text::{chars_of, maybe, same_text, string_of, trim, trimmed};
use crate::unicode::lowercase;

verus! {

/// How often the clipboard is tried before the watcher gives up.
pub const ATTEMPTS: usize = 3;

/// How many milliseconds pass between two looks at the clipboard.
pub const WATCH_GAP_MS: u64 = 500;

/// A clip that is to be stored.
pub struct CapturedClip {
    pub content: String,
    pub content_type: String,
    pub ocr_text: Option<String>,
    pub content_hash: String,
    pub language: String,
    pub is_sensitive: bool,
    pub digest: Option<String>,
}

/// What a look at the clipboard starts with.
pub enum LookStart {
    /// Nothing: capturing is paused.
    Rest,
    /// To look for text.
    LookForText,
}

/// What is to be done after the look for text.
pub enum TextDecision {
    /// To store a clip.
    Store(CapturedClip),
    /// To look for an image: there is no text, or it is the last clip.
    LookForImage,
}

/// What is to be done with an image from the clipboard.
pub enum ImageDecision {
    /// Nothing: it is empty, or the last clip.
    Skip,
    /// Nothing: there are too few bytes for its size.
    Mismatch,
    /// It is to be saved, as an image of this size.
    Save { width: u32, height: u32, content_hash: String },
}

/// What is to be done after an attempt to store text.
pub enum AfterStoring {
    /// To look for an image.
    LookForImage,
    /// To rest, and before that to tell the peers, where there is something new.
    Rest { notify: bool },
}

/// The hash of the text `text`.
pub open spec fn text_hash(text: Seq<char>) -> Seq<char> {
    hex(sha256(encode_utf8(text)))
}

/// `text` is there, and is not the last clip.
pub open spec fn is_new_text(last_hash: Seq<char>, text: Seq<char>) -> bool {
    text.len() > 0 && text_hash(text) != last_hash
}

/// There is an image, and it is not the last clip.
pub open spec fn is_new_image(last_hash: Seq<char>, bytes: Seq<u8>) -> bool {
    bytes.len() > 0 && hex(sha256(bytes)) != last_hash
}

/// The last hash, after an attempt to store the clip with the hash `hash`.
pub open spec fn after_storing(last_hash: Seq<char>, hash: Seq<char>, stored: bool) -> Seq<char> {
    if stored {
        hash
    } else {
        last_hash
    }
}

/// The low 32 bits of `n`.
pub open spec fn low_bits(n: usize) -> u32 {
    (n as int % 0x1_0000_0000) as u32
}

/// `len` bytes are enough for an image of `width` times `height` pixels.
pub open spec fn is_enough(width: u32, height: u32, len: int) -> bool {
    4 * width <= usize::MAX && 4 * width * height <= len
}

/// The file in which an image is saved that was captured at the time `stamp`.
pub open spec fn image_file(stamp: Seq<char>) -> Seq<char> {
    "clip_images/"@ + stamp + ".png"@
}

/// `image::ImageBuffer::from_raw` takes bytes for an image in RGBA where they
/// are enough for its size.
#[verifier::external_body]
fn fits_image(width: u32, height: u32, bytes: &[u8]) -> (fits: bool)
    ensures
        fits == is_enough(width, height, bytes@.len() as int),
{
    image::ImageBuffer::<image::Rgba<u8>, &[u8]>::from_raw(width, height, bytes).is_some()
}

/// Whether the clipboard is tried again that could not be reached `tried` times.
pub fn next_attempt(tried: usize) -> (again: bool)
    ensures
        again == (tried < ATTEMPTS),
{
    tried < ATTEMPTS
}

/// The text that was recognised in an image, without the white space round it,
/// where there is some.
pub fn recognised_text(text: &str) -> (found: Option<String>)
    ensures
        maybe(found) == (if trimmed(text@).len() > 0 {
            Some(trimmed(text@))
        } else {
            None
        }),
{
    let chars = chars_of(text);
    let inner = trim(chars.as_slice());
    if inner.len() > 0 {
        Some(string_of(inner))
    } else {
        None
    }
}

/// The file in which an image is saved that was captured at the time `stamp`.
pub fn image_file_name(stamp: &str) -> (name: String)
    ensures
        name@ == image_file(stamp@),
{
    let mut name = "clip_images/".to_string();
    name.append(stamp);
    name.append(".png");
    name
}

/// The clip that an image is stored as, which was saved as `filename` and in
/// which `ocr_text` was recognised.
pub fn image_clip<F: Fn(u128, usize) -> u64>(
    filename: String,
    ocr_text: Option<String>,
    content_hash: String,
    weigh: F,
) -> (clip: CapturedClip)
    requires
        forall|raw: u128, n: usize| n > 0 ==> #[trigger] weigh.requires((raw, n)),
    ensures
        clip.content == filename,
        clip.content_type@ == "image"@,
        clip.ocr_text == ocr_text,
        clip.content_hash == content_hash,
        clip.language@ == "n/a"@,
        match ocr_text {
            Some(text) => {
                &&& clip.is_sensitive == gives_secret_away(lowercase(text@))
                &&& is_digest(weigh, text@, "text"@, maybe(clip.digest))
                &&& is_function(weigh) ==> maybe(clip.digest) == digest_by(
                    weigh,
                    text@,
                    "text"@,
                )
            },
            None => !clip.is_sensitive && clip.digest is None,
        },
{
    let (is_sensitive, digest) = match &ocr_text {
        Some(text) => (
            detect_sensitive(text.as_str()),
            generate_digest(text.as_str(), "text", weigh),
        ),
        None => (false, None),
    };
    CapturedClip {
        content: filename,
        content_type: "image".to_string(),
        ocr_text,
        content_hash,
        language: "n/a".to_string(),
        is_sensitive,
        digest,
    }
}

/// Captures clips. A clip that equals the last one is not captured again.
pub struct Watcher {
    /// The hash of the last clip.
    pub last_hash: String,
}

impl Watcher {
    /// A watcher that has captured nothing yet.
    pub fn new() -> (watcher: Self)
        ensures
            watcher.last_hash@ == Seq::<char>::empty(),
    {
        Watcher { last_hash: String::new() }
    }

    /// What a look at the clipboard starts with.
    pub fn start(&self, paused: bool) -> (start: LookStart)
        ensures
            start is Rest <==> paused,
    {
        if paused {
            LookStart::Rest
        } else {
            LookStart::LookForText
        }
    }

    /// What is to be done with the text that the clipboard holds, if any: it is
    /// stored where it is new.
    pub fn consider_text<F: Fn(u128, usize) -> u64>(&self, text: Option<&str>, weigh: F) -> (decision:
        TextDecision)
        requires
            forall|raw: u128, n: usize| n > 0 ==> #[trigger] weigh.requires((raw, n)),
        ensures
            decision is Store <==> (text matches Some(held) && is_new_text(self.last_hash@, held@)),
            decision matches TextDecision::Store(found) ==> text matches Some(text) && {
                &&& found.content@ == text@
                &&& found.content_type@ == "text"@
                &&& found.ocr_text is None
                &&& found.content_hash@ == text_hash(text@)
                &&& found.language@ == language_of(text@)
                &&& found.is_sensitive == gives_secret_away(lowercase(text@))
                &&& is_digest(weigh, text@, language_of(text@), maybe(found.digest))
                &&& is_function(weigh) ==> maybe(found.digest) == digest_by(
                    weigh,
                    text@,
                    language_of(text@),
                )
            },
    {
        let text = match text {
            Some(held) => held,
            None => {
                return TextDecision::LookForImage;
            },
        };
        if text.is_empty() {
            return TextDecision::LookForImage;
        }
        let content_hash = hash_bytes(text.as_bytes());
        if same_text(content_hash.as_str(), self.last_hash.as_str()) {
            return TextDecision::LookForImage;
        }
        let language = detect_language(text);
        let is_sensitive = detect_sensitive(text);
        let digest = generate_digest(text, language.as_str(), weigh);
        TextDecision::Store(
            CapturedClip {
                content: text.to_string(),
                content_type: "text".to_string(),
                ocr_text: None,
                content_hash,
                language,
                is_sensitive,
                digest,
            },
        )
    }

    /// Takes note that the text with `content_hash` was stored, or could not
    /// be; only then an image is looked for.
    pub fn text_stored(&mut self, content_hash: String, stored: bool) -> (next: AfterStoring)
        ensures
            final(self).last_hash@ == after_storing(old(self).last_hash@, content_hash@, stored),
            next == (if stored {
                AfterStoring::Rest { notify: true }
            } else {
                AfterStoring::LookForImage
            }),
    {
        if stored {
            self.last_hash = content_hash;
            AfterStoring::Rest { notify: true }
        } else {
            AfterStoring::LookForImage
        }
    }

    /// What is to be done with an image of `width` times `height` pixels.
    pub fn consider_image(&self, width: usize, height: usize, bytes: &[u8]) -> (decision:
        ImageDecision)
        ensures
            if !is_new_image(self.last_hash@, bytes@) {
                decision is Skip
            } else if !is_enough(low_bits(width), low_bits(height), bytes@.len() as int) {
                decision is Mismatch
            } else {
                decision matches ImageDecision::Save { width: w, height: h, content_hash } && w
                    == low_bits(width) && h == low_bits(height) && content_hash@ == hex(
                    sha256(bytes@),
                )
            },
    {
        if bytes.len() == 0 {
            return ImageDecision::Skip;
        }
        let content_hash = hash_bytes(bytes);
        if same_text(content_hash.as_str(), self.last_hash.as_str()) {
            return ImageDecision::Skip;
        }
        let w: u32 = (width as u64 % 0x1_0000_0000u64) as u32;
        let h: u32 = (height as u64 % 0x1_0000_0000u64) as u32;
        if fits_image(w, h, bytes) {
            ImageDecision::Save { width: w, height: h, content_hash }
        } else {
            ImageDecision::Mismatch
        }
    }

    /// Takes note that the file of the image with `content_hash` could not be
    /// saved: it is not tried again.
    pub fn image_file_failed(&mut self, content_hash: String)
        ensures
            final(self).last_hash@ == content_hash@,
    {
        self.last_hash = content_hash;
    }

    /// Takes note that the image with `content_hash` was stored, or could not
    /// be. Says whether the peers are to be told.
    pub fn image_stored(&mut self, content_hash: String, stored: bool) -> (notify: bool)
        ensures
            notify == stored,
            final(self).last_hash@ == after_storing(old(self).last_hash@, content_hash@, stored),
    {
        if stored {
            self.last_hash = content_hash;
        }
        stored
    }
}

/// A text that was stored is not captured again as long as nothing else is
/// captured, and one that could not be stored is tried again.
pub proof fn law_text_is_captured_once(last_hash: Seq<char>, text: Seq<char>, stored: bool)
    requires
        is_new_text(last_hash, text),
    ensures
        is_new_text(after_storing(last_hash, text_hash(text), stored), text) <==> !stored,
{
}

/// An image that was stored is not captured again as long as nothing else is
/// captured, and one that could not be stored is tried again.
pub proof fn law_image_is_captured_once(last_hash: Seq<char>, bytes: Seq<u8>, stored: bool)
    requires
        is_new_image(last_hash, bytes),
    ensures
        is_new_image(after_storing(last_hash, hex(sha256(bytes)), stored), bytes) <==> !stored,
{
}

/// A text of any length but none, and an image of any number of bytes but none,
/// is new exactly where its hash is not the last one.
pub proof fn law_whatever_is_not_the_last_clip_is_new(
    last_hash: Seq<char>,
    text: Seq<char>,
    bytes: Seq<u8>,
)
    ensures
        text.len() > 0 && hex(sha256(encode_utf8(text))) != last_hash ==> is_new_text(
            last_hash,
            text,
        ),
        is_new_text(last_hash, text) ==> text.len() > 0 && hex(sha256(encode_utf8(text)))
            != last_hash,
        bytes.len() > 0 && hex(sha256(bytes)) != last_hash ==> is_new_image(last_hash, bytes),
        is_new_image(last_hash, bytes) ==> bytes.len() > 0 && hex(sha256(bytes)) != last_hash,
{
}

/// Texts that hash alike are the same clip, and only these are.
pub proof fn law_clips_are_told_apart_by_their_hash(text: Seq<char>, other: Seq<char>)
    requires
        text.len() > 0,
    ensures
        is_new_text(text_hash(other), text) <==> sha256(encode_utf8(text)) != sha256(
            encode_utf8(other),
        ),
        after_storing(text_hash(text), text_hash(other), true) == hex(sha256(encode_utf8(other))),
        after_storing(text_hash(text), text_hash(other), false) == hex(sha256(encode_utf8(text))),
{
    if hex(sha256(encode_utf8(text))) == hex(sha256(encode_utf8(other))) {
        crate::hash::law_different_bytes_look_different(
            sha256(encode_utf8(text)),
            sha256(encode_utf8(other)),
        );
    }
}

/// Four bytes are needed for each pixel, and more do no harm; a size that fits in
/// 32 bits is taken as it is.
pub proof fn law_four_bytes_for_each_pixel(width: u32, height: u32, len: int, more: nat, n: usize)
    ensures
        0 < height ==> (is_enough(width, height, len) <==> width * height * 4 <= len && width * 4
            <= usize::MAX),
        is_enough(width, 0, len) <==> 0 <= len && width * 4 <= usize::MAX,
        is_enough(width, height, len) ==> is_enough(width, height, len + more),
        n < 0x1_0000_0000 ==> low_bits(n) == n,
        (n - low_bits(n)) % 0x1_0000_0000 == 0,
{
    assert(4 * width * height == width * height * 4) by (nonlinear_arith);
    assert(4 * width * 0 == 0) by (nonlinear_arith);
}

/// An image is kept among the images under the time at which it was captured, so
/// that two of different times are kept apart.
pub proof fn law_images_of_different_times_are_kept_apart(stamp: Seq<char>, other: Seq<char>)
    ensures
        image_file(stamp) == "clip_images/"@ + stamp + ".png"@,
        image_file(stamp) == image_file(other) ==> stamp == other,
{
    reveal_strlit("clip_images/");
    reveal_strlit(".png");
    let a = image_file(stamp);
    let b = image_file(other);
    assert(a.subrange(12, a.len() - 4) =~= stamp);
    assert(b.subrange(12, b.len() - 4) =~= other);
}

/// The clipboard is tried three times, and looked at twice in a second.
pub proof fn law_three_attempts(tried: usize)
    ensures
        tried < ATTEMPTS <==> tried == 0 || tried == 1 || tried == 2,
        WATCH_GAP_MS * 2 == 1000,
{
}

} // verus!
