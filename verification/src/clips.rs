//! The clips of this device: how they are deleted, pinned, searched and shown.

use vstd::prelude::*;
use vstd::slice::slice_subrange;

use crate::http::{json, json_reply, plain, plain_reply, Reply};
use crate::json::json_flag;
use crate::number::{
    decimal, decimal_text, parse_i64, parsed_i64, signed_decimal, signed_decimal_text,
};
use crate::text::{
    chars_of, maybe, same_text, string_of, strings, trim, trim_end_matches, trim_start_matches,
    trimmed, without_leading, without_trailing,
};

verus! {

/// The most clips that are shown at once.
pub const SHOWN_CLIPS: usize = 100;

/// The most characters of a clip that a search shows.
pub const PREVIEW: usize = 100;

/// A clip, as it is shown.
pub struct ClipJson {
    pub id: i64,
    pub content: String,
    pub content_type: String,
    pub created_at: String,
    pub ocr_text: Option<String>,
    pub language: Option<String>,
    pub pinned: bool,
    pub is_sensitive: bool,
    pub digest: Option<String>,
}

/// What a `ClipJson` holds.
pub struct ClipView {
    pub id: i64,
    pub content: Seq<char>,
    pub content_type: Seq<char>,
    pub created_at: Seq<char>,
    pub ocr_text: Option<Seq<char>>,
    pub language: Option<Seq<char>>,
    pub pinned: bool,
    pub is_sensitive: bool,
    pub digest: Option<Seq<char>>,
}

impl View for ClipJson {
    type V = ClipView;

    open spec fn view(&self) -> ClipView {
        ClipView {
            id: self.id,
            content: self.content@,
            content_type: self.content_type@,
            created_at: self.created_at@,
            ocr_text: maybe(self.ocr_text),
            language: maybe(self.language),
            pinned: self.pinned,
            is_sensitive: self.is_sensitive,
            digest: maybe(self.digest),
        }
    }
}

/// What is stored of a clip, as far as its deletion needs it.
pub struct StoredClip {
    pub content: String,
    pub content_type: String,
    pub content_hash: String,
}

/// What is stored of a clip, as far as pinning it needs it.
pub struct PinState {
    pub pinned: bool,
    pub content_hash: String,
}

/// What a deletion leads to.
pub struct Deletion {
    /// The image file that is to be removed.
    pub remove_file: Option<String>,
    /// The hash of the clip that the peers are to be told of.
    pub propagate: Option<String>,
    pub reply: Reply,
}

/// What a change of a pin leads to.
pub struct PinChange {
    /// The hash and the pin of the clip that the peers are to be told of.
    pub propagate: Option<(String, bool)>,
    pub reply: Reply,
}

/// The id of the clip that is to be deleted at `url`.
pub open spec fn clip_in_url(url: Seq<char>) -> Option<i64> {
    parsed_i64(without_leading(url, "/api/clips/"@))
}

/// The id of the clip that is to be pinned or unpinned at `url`.
pub open spec fn pinned_clip_in_url(url: Seq<char>) -> Option<i64> {
    parsed_i64(without_trailing(without_leading(url, "/api/clips/"@), "/toggle-pin"@))
}

/// The file that goes with a clip: an image has one.
pub open spec fn file_of(content: Seq<char>, content_type: Seq<char>) -> Option<Seq<char>> {
    if content_type == "image"@ {
        Some(content)
    } else {
        None
    }
}

/// The pin of a clip after it is toggled.
pub open spec fn toggled(pinned: bool) -> bool {
    !pinned
}

/// Which clips are asked for.
pub enum ClipQuery {
    /// All of them.
    All,
    /// Those that match this pattern.
    Matching { pattern: String },
}

/// The pattern that matches whatever holds `query`.
pub open spec fn pattern_of(query: Seq<char>) -> Seq<char> {
    "%"@ + query + "%"@
}

/// The first characters of `text`.
pub open spec fn preview(text: Seq<char>) -> Seq<char> {
    if text.len() <= PREVIEW {
        text
    } else {
        text.take(PREVIEW as int)
    }
}

/// The line that tells what a clip is.
pub open spec fn title_line(clip: ClipView) -> Seq<char> {
    "["@ + signed_decimal(clip.id as int) + "] ("@ + clip.content_type + " / "@ + (
    match clip.language {
        Some(language) => language,
        None => "text"@,
    }) + ")"@ + (if clip.pinned {
        " [pinned]"@
    } else {
        ""@
    }) + (if clip.is_sensitive {
        " [sensitive]"@
    } else {
        ""@
    }) + " "@ + clip.created_at
}

/// The line with the summary of a clip, where it has one.
pub open spec fn digest_lines(clip: ClipView) -> Seq<Seq<char>> {
    match clip.digest {
        Some(digest) => seq!["  TL;DR: "@ + digest],
        None => Seq::empty(),
    }
}

/// The lines with what a clip holds.
pub open spec fn content_lines(clip: ClipView) -> Seq<Seq<char>> {
    if clip.content_type == "text"@ {
        seq!["  "@ + preview(clip.content)]
    } else {
        match clip.ocr_text {
            Some(text) => seq!["  file: "@ + clip.content, "  ocr:  "@ + preview(text)],
            None => seq!["  file: "@ + clip.content],
        }
    }
}

/// The lines that a search shows of a clip.
pub open spec fn clip_lines(clip: ClipView) -> Seq<Seq<char>> {
    seq![title_line(clip)] + digest_lines(clip) + content_lines(clip) + seq![""@]
}

/// A clip that was found, or why it could not be read.
pub open spec fn row_view(row: Result<ClipJson, String>) -> Result<ClipView, Seq<char>> {
    match row {
        Ok(clip) => Ok(clip@),
        Err(error) => Err(error@),
    }
}

/// What each of `rows` holds.
pub open spec fn row_views(rows: Seq<Result<ClipJson, String>>) -> Seq<
    Result<ClipView, Seq<char>>,
> {
    rows.map_values(|row: Result<ClipJson, String>| row_view(row))
}

/// The lines that a search shows of a row.
pub open spec fn row_lines(row: Result<ClipView, Seq<char>>) -> Seq<Seq<char>> {
    match row {
        Ok(clip) => clip_lines(clip),
        Err(error) => seq!["Warning: skipping a row that failed to read ("@ + error + ")"@],
    }
}

/// How many of `rows` could be read.
pub open spec fn readable(rows: Seq<Result<ClipView, Seq<char>>>) -> nat {
    rows.filter(|row: Result<ClipView, Seq<char>>| row is Ok).len()
}

/// The lines that a search for `query` shows, where it found `rows`.
pub open spec fn search_lines(query: Seq<char>, rows: Seq<Result<ClipView, Seq<char>>>) -> Seq<
    Seq<char>,
> {
    seq!["Search results for \""@ + query + "\":"@, ""@] + rows.map_values(
        |row: Result<ClipView, Seq<char>>| row_lines(row),
    ).flatten_alt() + (if readable(rows) == 0 {
        seq!["No matches found."@]
    } else {
        seq![decimal(readable(rows)) + " match(es) found."@]
    })
}

/// The id of the clip that is to be deleted at `url`.
pub fn deletion_target(url: &str) -> (id: Result<i64, Reply>)
    ensures
        match clip_in_url(url@) {
            Some(n) => id == Ok::<i64, Reply>(n),
            None => id matches Err(reply) && reply@ == plain_reply(400, "Invalid clip id"@),
        },
{
    let chars = chars_of(url);
    let start = chars_of("/api/clips/");
    match parse_i64(trim_start_matches(chars.as_slice(), start.as_slice())) {
        Some(n) => Ok(n),
        None => Err(plain(400, "Invalid clip id")),
    }
}

/// The id of the clip that is to be pinned or unpinned at `url`.
pub fn pin_target(url: &str) -> (id: Result<i64, Reply>)
    ensures
        match pinned_clip_in_url(url@) {
            Some(n) => id == Ok::<i64, Reply>(n),
            None => id matches Err(reply) && reply@ == plain_reply(400, "Invalid clip id"@),
        },
{
    let chars = chars_of(url);
    let start = chars_of("/api/clips/");
    let end = chars_of("/toggle-pin");
    let rest = trim_start_matches(chars.as_slice(), start.as_slice());
    match parse_i64(trim_end_matches(rest, end.as_slice())) {
        Some(n) => Ok(n),
        None => Err(plain(400, "Invalid clip id")),
    }
}

/// The clip that is to be deleted, where there is one with the id that was
/// asked for, else the answer that there is none.
pub fn clip_to_delete(row: Option<StoredClip>) -> (found: Result<StoredClip, Reply>)
    ensures
        match row {
            Some(clip) => found == Ok::<StoredClip, Reply>(clip),
            None => found matches Err(reply) && reply@ == plain_reply(404, "Clip not found"@),
        },
{
    match row {
        Some(clip) => Ok(clip),
        None => Err(plain(404, "Clip not found")),
    }
}

/// The clip that is to be pinned or unpinned, where there is one with the id
/// that was asked for, else the answer that there is none.
pub fn clip_to_pin(row: Option<PinState>) -> (found: Result<PinState, Reply>)
    ensures
        match row {
            Some(state) => found == Ok::<PinState, Reply>(state),
            None => found matches Err(reply) && reply@ == plain_reply(404, "Clip not found"@),
        },
{
    match row {
        Some(state) => Ok(state),
        None => Err(plain(404, "Clip not found")),
    }
}

/// What the deletion of `clip` leads to, where it worked or where it failed.
pub fn delete_clip(clip: StoredClip, deleted: bool) -> (deletion: Deletion)
    ensures
        deleted ==> {
            &&& maybe(deletion.remove_file) == file_of(clip.content@, clip.content_type@)
            &&& deletion.propagate == Some(clip.content_hash)
            &&& deletion.reply@ == json_reply("{\"status\":\"deleted\"}"@)
        },
        !deleted ==> {
            &&& deletion.remove_file is None
            &&& deletion.propagate is None
            &&& deletion.reply@ == plain_reply(500, "Failed to delete"@)
        },
{
    if deleted {
        let remove_file = if same_text(clip.content_type.as_str(), "image") {
            Some(clip.content)
        } else {
            None
        };
        Deletion {
            remove_file,
            propagate: Some(clip.content_hash),
            reply: json("{\"status\":\"deleted\"}"),
        }
    } else {
        Deletion { remove_file: None, propagate: None, reply: plain(500, "Failed to delete") }
    }
}

/// The pin of a clip after it is toggled.
pub fn new_pin(pinned: bool) -> (pin: bool)
    ensures
        pin == toggled(pinned),
{
    !pinned
}

/// The name of `flag` in JSON.
fn flag_text(flag: bool) -> (text: String)
    ensures
        text@ == json_flag(flag),
{
    if flag {
        "true".to_string()
    } else {
        "false".to_string()
    }
}

/// What toggling the pin of a clip leads to, where it worked or where it failed.
pub fn toggle_pin(before: PinState, updated: bool) -> (change: PinChange)
    ensures
        updated ==> {
            &&& change.propagate == Some((before.content_hash, toggled(before.pinned)))
            &&& change.reply@ == json_reply(
                "{\"pinned\":"@ + json_flag(toggled(before.pinned)) + "}"@,
            )
        },
        !updated ==> {
            &&& change.propagate is None
            &&& change.reply@ == plain_reply(500, "Failed to update"@)
        },
{
    if updated {
        let pin = new_pin(before.pinned);
        let mut body = "{\"pinned\":".to_string();
        body.append(flag_text(pin).as_str());
        body.append("}");
        PinChange { propagate: Some((before.content_hash, pin)), reply: json(body.as_str()) }
    } else {
        PinChange { propagate: None, reply: plain(500, "Failed to update") }
    }
}

/// Whether clips are being captured, as an answer.
pub fn serve_status(paused: bool) -> (reply: Reply)
    ensures
        reply@ == json_reply("{\"paused\":"@ + json_flag(paused) + "}"@),
{
    let mut body = "{\"paused\":".to_string();
    body.append(flag_text(paused).as_str());
    body.append("}");
    json(body.as_str())
}

/// The query that counts: one that is blank is none.
pub fn serve_clips_json(search_query: Option<String>) -> (query: Option<String>)
    ensures
        query == (match search_query {
            Some(text) => if trimmed(text@).len() > 0 {
                Some(text)
            } else {
                None
            },
            None => None,
        }),
{
    match search_query {
        Some(text) => {
            let chars = chars_of(text.as_str());
            if trim(chars.as_slice()).len() > 0 {
                Some(text)
            } else {
                None
            }
        },
        None => None,
    }
}

/// The answer where the clips could not be turned into text.
pub fn clips_failed() -> (reply: Reply)
    ensures
        reply@ == plain_reply(500, "[]"@),
{
    plain(500, "[]")
}

/// The pattern that matches whatever holds `query`.
pub fn search_pattern(query: &str) -> (pattern: String)
    ensures
        pattern@ == pattern_of(query@),
{
    let mut pattern = "%".to_string();
    pattern.append(query);
    pattern.append("%");
    pattern
}

/// Which clips are asked for by `search_query`.
pub fn fetch_clips(search_query: Option<String>) -> (query: ClipQuery)
    ensures
        match search_query {
            Some(text) => query matches ClipQuery::Matching { pattern } && pattern@ == pattern_of(
                text@,
            ),
            None => query is All,
        },
{
    match search_query {
        Some(text) => ClipQuery::Matching { pattern: search_pattern(text.as_str()) },
        None => ClipQuery::All,
    }
}

/// The first characters of `text`.
fn preview_of(text: &str) -> (start: String)
    ensures
        start@ == preview(text@),
{
    let chars = chars_of(text);
    if chars.len() <= PREVIEW {
        string_of(chars.as_slice())
    } else {
        let start = slice_subrange(chars.as_slice(), 0, PREVIEW);
        assert(start@ =~= text@.take(PREVIEW as int));
        string_of(start)
    }
}

/// The line that tells what a clip is.
fn title_of(clip: &ClipJson) -> (line: String)
    ensures
        line@ == title_line(clip@),
{
    let mut line = "[".to_string();
    line.append(signed_decimal_text(clip.id).as_str());
    line.append("] (");
    line.append(clip.content_type.as_str());
    line.append(" / ");
    match &clip.language {
        Some(language) => line.append(language.as_str()),
        None => line.append("text"),
    }
    line.append(")");
    line.append(
        if clip.pinned {
            " [pinned]"
        } else {
            ""
        },
    );
    line.append(
        if clip.is_sensitive {
            " [sensitive]"
        } else {
            ""
        },
    );
    line.append(" ");
    line.append(clip.created_at.as_str());
    line
}

/// `label` with `text` behind it.
fn labelled(label: &str, text: &str) -> (line: String)
    ensures
        line@ == label@ + text@,
{
    let mut line = label.to_string();
    line.append(text);
    line
}

/// Appends the line `line` to `lines`.
fn push_line(lines: &mut Vec<String>, line: String)
    ensures
        strings(final(lines)@) == strings(old(lines)@).push(line@),
{
    let ghost before = strings(lines@);
    lines.push(line);
    assert(strings(lines@) =~= before.push(line@));
}

/// Appends the lines that a search shows of a clip.
fn push_clip(lines: &mut Vec<String>, clip: &ClipJson)
    ensures
        strings(final(lines)@) == strings(old(lines)@) + clip_lines(clip@),
{
    let ghost before = strings(lines@);
    push_line(lines, title_of(clip));
    match &clip.digest {
        Some(digest) => push_line(lines, labelled("  TL;DR: ", digest.as_str())),
        None => {},
    }
    assert(strings(lines@) =~= before + seq![title_line(clip@)] + digest_lines(clip@));
    let ghost middle = strings(lines@);
    if same_text(clip.content_type.as_str(), "text") {
        push_line(lines, labelled("  ", preview_of(clip.content.as_str()).as_str()));
    } else {
        push_line(lines, labelled("  file: ", clip.content.as_str()));
        match &clip.ocr_text {
            Some(text) => push_line(
                lines,
                labelled("  ocr:  ", preview_of(text.as_str()).as_str()),
            ),
            None => {},
        }
    }
    assert(strings(lines@) =~= middle + content_lines(clip@));
    push_line(lines, "".to_string());
    assert(strings(lines@) =~= before + clip_lines(clip@));
}

/// The lines that a search for `query` shows, where it found `rows`.
pub fn run_search(query: &str, rows: &Vec<Result<ClipJson, String>>) -> (lines: Vec<String>)
    ensures
        strings(lines@) == search_lines(query@, row_views(rows@)),
{
    let ghost all = row_views(rows@);
    let ghost shown = all.map_values(|row: Result<ClipView, Seq<char>>| row_lines(row));
    let ghost is_read = |row: Result<ClipView, Seq<char>>| row is Ok;
    let mut lines: Vec<String> = Vec::new();
    let mut title = "Search results for \"".to_string();
    title.append(query);
    title.append("\":");
    push_line(&mut lines, title);
    push_line(&mut lines, "".to_string());
    let ghost head = seq!["Search results for \""@ + query@ + "\":"@, ""@];
    let mut count: usize = 0;
    proof {
        assert(strings(lines@) =~= head);
        assert(all.take(0).filter(is_read) =~= Seq::empty()) by {
            reveal(Seq::filter);
        }
        assert(head + shown.take(0).flatten_alt() =~= head);
    }
    for i in 0..rows.len()
        invariant
            all == row_views(rows@),
            shown == all.map_values(|row: Result<ClipView, Seq<char>>| row_lines(row)),
            is_read == (|row: Result<ClipView, Seq<char>>| row is Ok),
            count <= i,
            count == all.take(i as int).filter(is_read).len(),
            strings(lines@) == head + shown.take(i as int).flatten_alt(),
    {
        let row = &rows[i];
        let ghost before = strings(lines@);
        proof {
            assert(all[i as int] == row_view(*row));
            assert(all.take(i + 1) =~= all.take(i as int).push(all[i as int]));
            all.take(i as int).lemma_filter_push(all[i as int], is_read);
            assert(shown.take(i + 1).drop_last() =~= shown.take(i as int));
            assert(shown.take(i + 1).last() == row_lines(all[i as int]));
        }
        match row {
            Ok(clip) => {
                count += 1;
                push_clip(&mut lines, clip);
            },
            Err(error) => {
                let mut line = "Warning: skipping a row that failed to read (".to_string();
                line.append(error.as_str());
                line.append(")");
                push_line(&mut lines, line);
            },
        }
        assert(strings(lines@) =~= before + row_lines(all[i as int]));
        assert(head + shown.take(i as int).flatten_alt() + row_lines(all[i as int]) =~= head + (
        shown.take(i as int).flatten_alt() + row_lines(all[i as int])));
    }
    proof {
        assert(all.take(all.len() as int) =~= all);
        assert(shown.take(shown.len() as int) =~= shown);
    }
    let ghost before = strings(lines@);
    if count == 0 {
        push_line(&mut lines, "No matches found.".to_string());
        assert(strings(lines@) =~= before + seq!["No matches found."@]);
    } else {
        let mut line = decimal_text(count as u64);
        line.append(" match(es) found.");
        push_line(&mut lines, line);
        assert(strings(lines@) =~= before + seq![line@]);
    }
    lines
}

/// Toggling a pin twice leaves it as it was.
pub proof fn law_toggling_twice_restores(pinned: bool)
    ensures
        toggled(toggled(pinned)) == pinned,
{
}

/// A clip is deleted, and pinned or unpinned, by the id under which it is
/// shown.
pub proof fn law_clip_is_found_by_its_id(id: i64)
    ensures
        clip_in_url("/api/clips/"@ + signed_decimal(id as int)) == Some(id),
        pinned_clip_in_url("/api/clips/"@ + signed_decimal(id as int) + "/toggle-pin"@) == Some(
            id,
        ),
{
    let number = signed_decimal(id as int);
    let start = "/api/clips/"@;
    let end = "/toggle-pin"@;
    reveal_strlit("/api/clips/");
    reveal_strlit("/toggle-pin");
    crate::number::law_number_reads_back(id, 0);
    crate::number::law_natural_reads_back(
        if id < 0 {
            (-id) as nat
        } else {
            id as nat
        },
    );
    assert(number[0] != '/' && number[number.len() - 1] != 'n');
    reveal_with_fuel(without_leading, 2);
    reveal_with_fuel(without_trailing, 2);
    let url = start + number;
    assert(start.is_prefix_of(url));
    assert(url.skip(11) =~= number);
    assert(start.is_prefix_of(number) ==> number[0] == start[0]);
    let pin_url = start + number + end;
    let rest = number + end;
    assert(start.is_prefix_of(pin_url));
    assert(pin_url.skip(11) =~= rest);
    assert(start.is_prefix_of(rest) ==> rest[0] == start[0]);
    assert(end.is_suffix_of(rest)) by {
        assert(rest.subrange(rest.len() - 11, rest.len() as int) =~= end);
    }
    assert(rest.take(rest.len() - 11) =~= number);
    assert(end.is_suffix_of(number) ==> number[number.len() - 1] == end[10]);
}

/// What a search shows of a text is its start: the first hundred characters, or
/// all of it where it has no more.
pub proof fn law_search_shows_the_start(text: Seq<char>)
    ensures
        preview(text).is_prefix_of(text),
        preview(text).len() == (if text.len() < 100 {
            text.len() as int
        } else {
            100
        }),
{
}

/// A search tells first what it sought, then of each row in order, and last how
/// many clips it found.
pub proof fn law_search_tells_of_each_row_in_order(
    query: Seq<char>,
    rows: Seq<Result<ClipView, Seq<char>>>,
    row: Result<ClipView, Seq<char>>,
)
    ensures
        search_lines(query, Seq::empty()) == seq![
            "Search results for \""@ + query + "\":"@,
            ""@,
            "No matches found."@,
        ],
        search_lines(query, rows.push(row)).drop_last() == search_lines(query, rows).drop_last()
            + row_lines(row),
        readable(Seq::empty()) == 0,
        readable(rows.push(row)) == readable(rows) + (if row is Ok {
            1nat
        } else {
            0nat
        }),
        readable(rows) == 0 ==> search_lines(query, rows).last() == "No matches found."@,
        readable(rows) > 0 ==> search_lines(query, rows).last() == decimal(readable(rows))
            + " match(es) found."@,
{
    let is_read = |row: Result<ClipView, Seq<char>>| row is Ok;
    let none = Seq::<Result<ClipView, Seq<char>>>::empty();
    let show = |row: Result<ClipView, Seq<char>>| row_lines(row);
    let head = seq!["Search results for \""@ + query + "\":"@, ""@];
    rows.lemma_filter_push(row, is_read);
    assert(none.filter(is_read) =~= none) by {
        reveal(Seq::filter);
    }
    assert(none.map_values(show) =~= Seq::empty());
    assert(search_lines(query, none) =~= head + seq!["No matches found."@]);
    let shown = rows.map_values(show);
    let longer = rows.push(row).map_values(show);
    assert(longer.drop_last() =~= shown);
    assert(search_lines(query, rows).drop_last() =~= head + shown.flatten_alt());
    assert(search_lines(query, rows.push(row)).drop_last() =~= head + longer.flatten_alt());
    assert(head + (shown.flatten_alt() + row_lines(row)) =~= head + shown.flatten_alt()
        + row_lines(row));
}

/// A row that could not be read is told of with the reason; of a clip there are
/// its title, its summary where it has one, what it holds, and an empty line.
pub proof fn law_clip_is_told_of_line_by_line(clip: ClipView, error: Seq<char>)
    ensures
        row_lines(Err::<ClipView, Seq<char>>(error)) == seq![
            "Warning: skipping a row that failed to read ("@ + error + ")"@,
        ],
        row_lines(Ok::<ClipView, Seq<char>>(clip)).len() == 3 + (if clip.digest is Some {
            1int
        } else {
            0
        }) + (if clip.content_type != "text"@ && clip.ocr_text is Some {
            1int
        } else {
            0
        }),
        row_lines(Ok::<ClipView, Seq<char>>(clip))[0] == title_line(clip),
        row_lines(Ok::<ClipView, Seq<char>>(clip)).last() == ""@,
        clip.digest matches Some(digest) ==> row_lines(Ok::<ClipView, Seq<char>>(clip))[1]
            == "  TL;DR: "@ + digest,
        clip.content_type == "text"@ ==> row_lines(
            Ok::<ClipView, Seq<char>>(clip),
        )[if clip.digest is Some {
            2
        } else {
            1
        }] == "  "@ + preview(clip.content),
        clip.content_type != "text"@ ==> row_lines(
            Ok::<ClipView, Seq<char>>(clip),
        )[if clip.digest is Some {
            2
        } else {
            1
        }] == "  file: "@ + clip.content,
        clip.content_type != "text"@ ==> (clip.ocr_text matches Some(text) ==> row_lines(
            Ok::<ClipView, Seq<char>>(clip),
        )[if clip.digest is Some {
            3
        } else {
            2
        }] == "  ocr:  "@ + preview(text)),
{
}

/// The title of a clip gives its id, its type, its language or else plain text,
/// whether it is pinned or sensitive, and when it was stored.
pub proof fn law_title_tells_what_a_clip_is(clip: ClipView, language: Seq<char>)
    requires
        clip.language == Some(language) || (clip.language is None && language == "text"@),
    ensures
        clip.pinned && clip.is_sensitive ==> title_line(clip) == "["@ + signed_decimal(
            clip.id as int,
        ) + "] ("@ + clip.content_type + " / "@ + language + ")"@ + " [pinned]"@
            + " [sensitive]"@ + " "@ + clip.created_at,
        clip.pinned && !clip.is_sensitive ==> title_line(clip) == "["@ + signed_decimal(
            clip.id as int,
        ) + "] ("@ + clip.content_type + " / "@ + language + ")"@ + " [pinned]"@ + " "@
            + clip.created_at,
        !clip.pinned && clip.is_sensitive ==> title_line(clip) == "["@ + signed_decimal(
            clip.id as int,
        ) + "] ("@ + clip.content_type + " / "@ + language + ")"@ + " [sensitive]"@ + " "@
            + clip.created_at,
        !clip.pinned && !clip.is_sensitive ==> title_line(clip) == "["@ + signed_decimal(
            clip.id as int,
        ) + "] ("@ + clip.content_type + " / "@ + language + ")"@ + " "@ + clip.created_at,
{
    reveal_strlit("");
    assert(""@ =~= Seq::empty());
    let start = "["@ + signed_decimal(clip.id as int) + "] ("@ + clip.content_type + " / "@
        + language + ")"@;
    assert(start + ""@ =~= start);
    assert(start + " [pinned]"@ + ""@ =~= start + " [pinned]"@);
    assert(start + ""@ + " [sensitive]"@ =~= start + " [sensitive]"@);
    assert(start + ""@ + ""@ =~= start);
}

/// A clip is seen with all that it holds, and a list of rows with all of them.
pub proof fn law_clip_is_seen_whole(
    clip: ClipJson,
    rows: Seq<Result<ClipJson, String>>,
    i: int,
)
    ensures
        clip@.id == clip.id,
        clip@.content == clip.content@,
        clip@.content_type == clip.content_type@,
        clip@.created_at == clip.created_at@,
        clip@.ocr_text == maybe(clip.ocr_text),
        clip@.language == maybe(clip.language),
        clip@.pinned == clip.pinned,
        clip@.is_sensitive == clip.is_sensitive,
        clip@.digest == maybe(clip.digest),
        row_views(rows).len() == rows.len(),
        0 <= i < rows.len() ==> (rows[i] matches Ok(found) ==> row_views(rows)[i] == Ok::<
            ClipView,
            Seq<char>,
        >(found@)),
        0 <= i < rows.len() ==> (rows[i] matches Err(error) ==> row_views(rows)[i] == Err::<
            ClipView,
            Seq<char>,
        >(error@)),
{
}

/// A search matches the query wherever it stands in a clip.
pub proof fn law_query_is_sought_anywhere(query: Seq<char>)
    ensures
        pattern_of(query).len() == query.len() + 2,
        pattern_of(query).first() == '%',
        pattern_of(query).last() == '%',
        pattern_of(query).subrange(1, 1 + query.len() as int) == query,
{
    reveal_strlit("%");
    assert(pattern_of(query).subrange(1, 1 + query.len() as int) =~= query);
}

/// An image has a file, which is its content, and nothing else has one; a pin is
/// always changed.
pub proof fn law_only_images_have_files(
    content: Seq<char>,
    content_type: Seq<char>,
    pinned: bool,
)
    ensures
        file_of(content, "image"@) == Some(content),
        content_type != "image"@ ==> file_of(content, content_type) is None,
        toggled(pinned) != pinned,
{
}

/// The clip that a request means is the one whose id is written in the address;
/// what is written there and is no number means none.
pub proof fn law_address_gives_the_id(written: Seq<char>)
    requires
        !"/api/clips/"@.is_prefix_of(written),
    ensures
        clip_in_url("/api/clips/"@ + written) == parsed_i64(written),
        !"/toggle-pin"@.is_suffix_of(written) && !"/api/clips/"@.is_prefix_of(
            written + "/toggle-pin"@,
        ) ==> pinned_clip_in_url("/api/clips/"@ + written + "/toggle-pin"@) == parsed_i64(written),
{
    reveal_strlit("/api/clips/");
    reveal_strlit("/toggle-pin");
    crate::text::law_leading_copies_are_left_out(written, "/api/clips/"@);
    crate::text::law_leading_copies_are_left_out(written + "/toggle-pin"@, "/api/clips/"@);
    crate::text::law_trailing_copies_are_left_out(written, "/toggle-pin"@);
    assert("/api/clips/"@ + written + "/toggle-pin"@ =~= "/api/clips/"@ + (written
        + "/toggle-pin"@));
}

/// At most a hundred clips are shown at once.
pub proof fn law_hundred_clips_are_shown(n: usize)
    ensures
        n <= SHOWN_CLIPS <==> n <= 100,
{
}

} // verus!
