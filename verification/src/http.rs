//! What is said over HTTP: the answers to requests, and the requests to others.

use vstd::prelude::*;

use crate::number::{decimal, decimal_text};
use crate::text::{
    chars_of, contains, lemma_nothing_replaced, lemma_one_piece, lemma_two_pieces, occurs_at, pieces, replace, replaced, split_on, starts_with, string_of,
    trim_start_matches, views, without_leading,
};

verus! {

/// The port on which a device listens.
pub const PORT: u16 = 8080;

/// The answer to a request.
pub struct Reply {
    /// The HTTP status.
    pub status: u16,
    /// Whether the answer is marked as JSON.
    pub json: bool,
    /// The text of the answer.
    pub body: String,
}

/// What a `Reply` holds.
pub struct ReplyView {
    pub status: u16,
    pub json: bool,
    pub body: Seq<char>,
}

impl View for Reply {
    type V = ReplyView;

    open spec fn view(&self) -> ReplyView {
        ReplyView { status: self.status, json: self.json, body: self.body@ }
    }
}

/// An answer in plain text.
pub open spec fn plain_reply(status: u16, body: Seq<char>) -> ReplyView {
    ReplyView { status, json: false, body }
}

/// A successful answer that is marked as JSON.
pub open spec fn json_reply(body: Seq<char>) -> ReplyView {
    ReplyView { status: 200, json: true, body }
}

/// The address of `path` on the device at `ip` and `port`.
pub open spec fn url_of(ip: Seq<char>, port: u16, path: Seq<char>) -> Seq<char> {
    "http://"@ + ip + ":"@ + decimal(port as nat) + path
}

/// A JSON text to be sent to another device.
pub struct Outgoing {
    /// The name of the device.
    pub name: String,
    /// Where the text goes.
    pub url: String,
    /// The text.
    pub body: String,
}

/// What an `Outgoing` holds.
pub struct OutgoingView {
    pub name: Seq<char>,
    pub url: Seq<char>,
    pub body: Seq<char>,
}

impl View for Outgoing {
    type V = OutgoingView;

    open spec fn view(&self) -> OutgoingView {
        OutgoingView { name: self.name@, url: self.url@, body: self.body@ }
    }
}

/// What each of `list` holds.
pub open spec fn outgoing(list: Seq<Outgoing>) -> Seq<OutgoingView> {
    list.map_values(|message: Outgoing| message@)
}

/// Whether a text starts with `prefix`.
pub open spec fn begins_with(prefix: Seq<char>) -> spec_fn(Seq<char>) -> bool {
    |text: Seq<char>| prefix.is_prefix_of(text)
}

/// The parameters of `url`: what stands between its first question mark and
/// the next one, parted at each `&`.
pub open spec fn query_parts(url: Seq<char>) -> Seq<Seq<char>> {
    let parts = pieces(url, |c: char| c == '?');
    if parts.len() > 1 {
        pieces(parts[1], |c: char| c == '&')
    } else {
        Seq::empty()
    }
}

/// What stands behind `prefix` in the first parameter of `url` that starts with
/// it.
pub open spec fn query_value(url: Seq<char>, prefix: Seq<char>) -> Option<Seq<char>> {
    let found = query_parts(url).filter(begins_with(prefix));
    if found.len() > 0 {
        Some(without_leading(found[0], prefix))
    } else {
        None
    }
}

/// `text` with each plus sign and each `%20` read as a blank.
pub open spec fn decoded(text: Seq<char>) -> Seq<char> {
    replaced(replaced(text, "+"@, " "@), "%20"@, " "@)
}

/// An answer in plain text.
pub fn plain(status: u16, body: &str) -> (reply: Reply)
    ensures
        reply@ == plain_reply(status, body@),
{
    Reply { status, json: false, body: body.to_string() }
}

/// A successful answer that is marked as JSON.
pub fn json(body: &str) -> (reply: Reply)
    ensures
        reply@ == json_reply(body@),
{
    Reply { status: 200, json: true, body: body.to_string() }
}

/// The address of `path` on the device at `ip` and `port`.
pub fn url_to(ip: &str, port: u16, path: &str) -> (url: String)
    ensures
        url@ == url_of(ip@, port, path@),
{
    let mut url = "http://".to_string();
    url.append(ip);
    url.append(":");
    url.append(decimal_text(port as u64).as_str());
    url.append(path);
    url
}

/// The pieces of `text` between the copies of `mark`.
fn split_at_mark(text: &[char], mark: char) -> (parts: Vec<Vec<char>>)
    ensures
        views(parts@) == pieces(text@, |c: char| c == mark),
{
    let marks = vec![mark];
    proof {
        assert forall|c: char| marks@.contains(c) == (c == mark) by {
            assert(marks@[0] == mark);
        }
        assert((|c: char| marks@.contains(c)) =~= (|c: char| c == mark));
    }
    split_on(text, marks.as_slice())
}

/// What stands behind `prefix` in the first parameter of `url` that starts with
/// it.
pub fn find_query_value(url: &str, prefix: &str) -> (value: Option<String>)
    ensures
        crate::text::maybe(value) == query_value(url@, prefix@),
{
    let chars = chars_of(url);
    let start = chars_of(prefix);
    let parts = split_at_mark(chars.as_slice(), '?');
    let ghost kept = begins_with(prefix@);
    let ghost all = query_parts(url@);
    if parts.len() <= 1 {
        assert(all.filter(kept) =~= Seq::empty()) by {
            reveal(Seq::filter);
        }
        return None;
    }
    assert(parts@[1]@ == views(parts@)[1]);
    let params = split_at_mark(parts[1].as_slice(), '&');
    assert(views(params@) == all);
    assert(all.take(0).filter(kept) =~= Seq::empty()) by {
        reveal(Seq::filter);
    }
    let mut first: Option<String> = None;
    for i in 0..params.len()
        invariant
            start@ == prefix@,
            kept == begins_with(prefix@),
            views(params@) == all,
            match first {
                Some(value) => {
                    &&& all.take(i as int).filter(kept).len() > 0
                    &&& value@ == without_leading(all.take(i as int).filter(kept)[0], prefix@)
                },
                None => all.take(i as int).filter(kept).len() == 0,
            },
    {
        let param = &params[i];
        proof {
            assert(param@ == all[i as int]);
            assert(all.take(i + 1) =~= all.take(i as int).push(param@));
            all.take(i as int).lemma_filter_push(param@, kept);
        }
        if starts_with(param.as_slice(), start.as_slice()) {
            if first.is_none() {
                first = Some(
                    string_of(trim_start_matches(param.as_slice(), start.as_slice())),
                );
            }
        }
    }
    assert(all.take(all.len() as int) =~= all);
    first
}

/// `text` with each plus sign and each `%20` read as a blank.
pub fn urlencoding_decode(text: &str) -> (plain: String)
    ensures
        plain@ == decoded(text@),
{
    proof {
        reveal_strlit("+");
        reveal_strlit("%20");
        assert("+"@.len() == 1 && "%20"@.len() == 3);
    }
    let plus = chars_of("+");
    let escape = chars_of("%20");
    let blank = chars_of(" ");
    let once = replace(chars_of(text).as_slice(), plus.as_slice(), blank.as_slice());
    let twice = replace(once.as_slice(), escape.as_slice(), blank.as_slice());
    string_of(twice.as_slice())
}

/// The keys of the members that devices send each other are all different.
pub proof fn lemma_keys_differ()
    ensures
        "device_id"@ != "device_name"@,
        "device_id"@ != "port"@,
        "device_id"@ != "secret"@,
        "device_id"@ != "accepted"@,
        "device_id"@ != "content_hash"@,
        "device_id"@ != "pinned"@,
        "device_name"@ != "port"@,
        "device_name"@ != "secret"@,
        "device_name"@ != "accepted"@,
        "device_name"@ != "content_hash"@,
        "device_name"@ != "pinned"@,
        "port"@ != "secret"@,
        "port"@ != "accepted"@,
        "port"@ != "content_hash"@,
        "port"@ != "pinned"@,
        "secret"@ != "accepted"@,
        "secret"@ != "content_hash"@,
        "secret"@ != "pinned"@,
        "accepted"@ != "content_hash"@,
        "accepted"@ != "pinned"@,
        "content_hash"@ != "pinned"@,
{
    reveal_strlit("device_id");
    reveal_strlit("device_name");
    reveal_strlit("port");
    reveal_strlit("secret");
    reveal_strlit("accepted");
    reveal_strlit("content_hash");
    reveal_strlit("pinned");
    assert("device_id"@.len() == 9);
    assert("device_name"@.len() == 11);
    assert("port"@.len() == 4);
    assert("secret"@.len() == 6);
    assert("accepted"@.len() == 8);
    assert("content_hash"@.len() == 12);
    assert("pinned"@.len() == 6);
    assert("secret"@[0] != "pinned"@[0]);
}

/// Where a character does not stand in a text, no pattern that starts with it
/// does.
proof fn lemma_no_start(text: Seq<char>, pattern: Seq<char>)
    requires
        pattern.len() > 0,
        !text.contains(pattern[0]),
    ensures
        !contains(text, pattern),
{
    assert forall|at: int| !#[trigger] occurs_at(text, pattern, at) by {
        if occurs_at(text, pattern, at) {
            assert(text.subrange(at, at + pattern.len())[0] == text[at]);
        }
    }
}

/// A pattern without the first character of `escape` that starts a text after its
/// blanks were written as `escape` started it before.
proof fn lemma_start_was_there(text: Seq<char>, escape: Seq<char>, pattern: Seq<char>)
    requires
        escape.len() > 0,
        !pattern.contains(escape[0]),
        pattern.is_prefix_of(replaced(text, " "@, escape)),
    ensures
        pattern.is_prefix_of(text),
    decreases text.len(),
{
    reveal_strlit(" ");
    if text.len() > 0 && pattern.len() > 0 {
        let rest = text.skip(1);
        let written = replaced(text, " "@, escape);
        let rest_written = replaced(rest, " "@, escape);
        assert(pattern[0] == written[0]);
        if text[0] == ' ' {
            assert(text.subrange(0, 1) =~= " "@);
            assert(written == escape + rest_written);
            assert(pattern.contains(pattern[0]));
        } else {
            assert(!" "@.is_prefix_of(text)) by {
                if " "@.is_prefix_of(text) {
                    assert(text.subrange(0, 1)[0] == text[0]);
                }
            }
            assert(written == seq![text[0]] + rest_written);
            let tail = pattern.skip(1);
            assert(forall|i: int| 0 <= i < tail.len() ==> tail[i] == pattern[i + 1]);
            assert(tail.is_prefix_of(rest_written)) by {
                assert(rest_written.subrange(0, tail.len() as int) =~= written.subrange(
                    0,
                    pattern.len() as int,
                ).skip(1));
            }
            lemma_start_was_there(rest, escape, tail);
            assert(text.subrange(0, pattern.len() as int) =~= seq![text[0]] + rest.subrange(
                0,
                tail.len() as int,
            ));
            assert(seq![pattern[0]] + tail =~= pattern);
        }
    }
}

/// Blanks that were written as `escape` are read as blanks again, where `escape`
/// did not stand in the text before.
proof fn lemma_blanks_come_back(text: Seq<char>, escape: Seq<char>)
    requires
        escape.len() > 0,
        !escape.skip(1).contains(escape[0]),
        !contains(text, escape),
    ensures
        replaced(replaced(text, " "@, escape), escape, " "@) == text,
    decreases text.len(),
{
    reveal_strlit(" ");
    let written = replaced(text, " "@, escape);
    if text.len() > 0 {
        let rest = text.skip(1);
        assert forall|at: int| !#[trigger] occurs_at(rest, escape, at) by {
            if occurs_at(rest, escape, at) {
                assert(text.subrange(at + 1, at + 1 + escape.len()) =~= rest.subrange(
                    at,
                    at + escape.len(),
                ));
                assert(occurs_at(text, escape, at + 1));
            }
        }
        lemma_blanks_come_back(rest, escape);
        let rest_written = replaced(rest, " "@, escape);
        if text[0] == ' ' {
            assert(" "@.is_prefix_of(text)) by {
                assert(text.subrange(0, 1) =~= " "@);
            }
            assert(written == escape + rest_written);
            assert(escape.is_prefix_of(written)) by {
                assert(written.subrange(0, escape.len() as int) =~= escape);
            }
            assert(written.skip(escape.len() as int) =~= rest_written);
            assert(" "@ + rest =~= text);
        } else {
            assert(!" "@.is_prefix_of(text)) by {
                if " "@.is_prefix_of(text) {
                    assert(text.subrange(0, 1)[0] == text[0]);
                }
            }
            assert(written == seq![text[0]] + rest_written);
            assert(written.skip(1) =~= rest_written);
            assert(!escape.is_prefix_of(written)) by {
                if escape.is_prefix_of(written) {
                    let tail = escape.skip(1);
                    assert(tail =~= rest_written.subrange(0, tail.len() as int));
                    lemma_start_was_there(rest, escape, tail);
                    assert(escape[0] == text[0]);
                    assert(text.subrange(0, escape.len() as int) =~= seq![escape[0]] + tail);
                    assert(seq![escape[0]] + tail =~= escape);
                    assert(occurs_at(text, escape, 0));
                }
            }
            assert(seq![text[0]] + rest =~= text);
        }
    }
}

/// A blank that is written as `%20` brings no plus sign.
proof fn lemma_no_plus_written(text: Seq<char>)
    requires
        !text.contains('+'),
    ensures
        !replaced(text, " "@, "%20"@).contains('+'),
    decreases text.len(),
{
    reveal_strlit(" ");
    reveal_strlit("%20");
    if text.len() > 0 {
        let rest = text.skip(1);
        assert(forall|i: int| 0 <= i < rest.len() ==> rest[i] == text[i + 1]);
        assert(text.contains(text[0]));
        lemma_no_plus_written(rest);
    }
}

/// A text is read as it was before its blanks were written as plus signs or as
/// `%20`, unless it held one of these itself.
pub proof fn law_encoded_text_is_decoded(text: Seq<char>)
    requires
        !contains(text, "+"@),
        !contains(text, "%20"@),
    ensures
        decoded(text) == text,
        decoded(replaced(text, " "@, "+"@)) == text,
        decoded(replaced(text, " "@, "%20"@)) == text,
{
    reveal_strlit("+");
    reveal_strlit("%20");
    assert(!text.contains('+')) by {
        if text.contains('+') {
            let i = text.index_of('+');
            assert(text.subrange(i, i + 1) =~= "+"@);
            assert(occurs_at(text, "+"@, i));
        }
    }
    lemma_nothing_replaced(text, "+"@, " "@);
    lemma_nothing_replaced(text, "%20"@, " "@);
    lemma_blanks_come_back(text, "+"@);
    lemma_blanks_come_back(text, "%20"@);
    lemma_no_plus_written(text);
    lemma_no_start(replaced(text, " "@, "%20"@), "+"@);
    lemma_nothing_replaced(replaced(text, " "@, "%20"@), "+"@, " "@);
}

/// What is written behind the name of the one parameter of an address is found
/// there, where it does not end the parameter and does not start with the name
/// again.
pub proof fn lemma_value_is_found(path: Seq<char>, prefix: Seq<char>, value: Seq<char>)
    requires
        prefix.len() > 0,
        !path.contains('?'),
        !prefix.contains('?') && !prefix.contains('&'),
        !value.contains('?') && !value.contains('&'),
        !prefix.is_prefix_of(value),
    ensures
        query_value(path.push('?') + (prefix + value), prefix) == Some(value),
{
    let behind = prefix + value;
    let url = path.push('?') + behind;
    let question = |c: char| c == '?';
    let ampersand = |c: char| c == '&';
    let kept = begins_with(prefix);
    assert forall|i: int| 0 <= i < path.len() implies #[trigger] path[i] != '?' by {
        assert(path.contains(path[i]));
    }
    assert forall|i: int| 0 <= i < behind.len() implies #[trigger] behind[i] != '?' && behind[i]
        != '&' by {
        if i < prefix.len() {
            assert(prefix.contains(prefix[i]));
        } else {
            assert(value.contains(value[i - prefix.len()]));
        }
    }
    lemma_two_pieces(path, '?', behind, question);
    lemma_one_piece(behind, ampersand);
    assert(pieces(url, question)[1] == behind);
    let parts = query_parts(url);
    assert(parts =~= Seq::<Seq<char>>::empty().push(behind));
    Seq::<Seq<char>>::empty().lemma_filter_push(behind, kept);
    assert(Seq::<Seq<char>>::empty().filter(kept) =~= Seq::empty()) by {
        reveal(Seq::filter);
    }
    assert(prefix.is_prefix_of(behind)) by {
        assert(behind.subrange(0, prefix.len() as int) =~= prefix);
    }
    assert(parts.filter(kept)[0] == behind);
    assert(behind.skip(prefix.len() as int) =~= value);
    reveal_with_fuel(without_leading, 2);
}

/// What a text is replaced by does not depend on what stands behind it, where no
/// copy reaches over from the one into the other.
#[verifier::spinoff_prover]
proof fn lemma_replaced_in_parts(
    a: Seq<char>,
    b: Seq<char>,
    from: Seq<char>,
    to: Seq<char>,
)
    requires
        from.len() > 0,
        forall|at: int|
            0 <= at < a.len() && at + from.len() > a.len() ==> !#[trigger] occurs_at(
                a + b,
                from,
                at,
            ),
    ensures
        replaced(a + b, from, to) == replaced(a, from, to) + replaced(b, from, to),
    decreases a.len(),
{
    let text = a + b;
    if a.len() == 0 {
        assert(text =~= b);
        assert(replaced(a, from, to) + replaced(b, from, to) =~= replaced(b, from, to));
    } else if from.is_prefix_of(text) {
        assert(occurs_at(text, from, 0));
        assert(from.len() <= a.len());
        assert(a.subrange(0, from.len() as int) =~= text.subrange(0, from.len() as int));
        let rest = a.skip(from.len() as int);
        assert(text.skip(from.len() as int) =~= rest + b);
        assert forall|at: int| 0 <= at < rest.len() && at + from.len() > rest.len() implies
            !occurs_at(rest + b, from, at) by {
            assert(!occurs_at(text, from, at + from.len()));
            if occurs_at(rest + b, from, at) {
                assert(text.subrange(at + from.len(), at + from.len() + from.len()) =~= (rest
                    + b).subrange(at, at + from.len()));
            }
        }
        lemma_replaced_in_parts(rest, b, from, to);
        assert(to + (replaced(rest, from, to) + replaced(b, from, to)) =~= to + replaced(
            rest,
            from,
            to,
        ) + replaced(b, from, to));
    } else {
        assert(!from.is_prefix_of(a)) by {
            if from.is_prefix_of(a) {
                assert(a.subrange(0, from.len() as int) =~= text.subrange(0, from.len() as int));
            }
        }
        let rest = a.skip(1);
        assert(text.skip(1) =~= rest + b);
        assert forall|at: int| 0 <= at < rest.len() && at + from.len() > rest.len() implies
            !occurs_at(rest + b, from, at) by {
            assert(!occurs_at(text, from, at + 1));
            if occurs_at(rest + b, from, at) {
                assert(text.subrange(at + 1, at + 1 + from.len()) =~= (rest + b).subrange(
                    at,
                    at + from.len(),
                ));
            }
        }
        lemma_replaced_in_parts(rest, b, from, to);
        assert(seq![a[0]] + (replaced(rest, from, to) + replaced(b, from, to)) =~= seq![a[0]]
            + replaced(rest, from, to) + replaced(b, from, to));
    }
}

/// A copy of `mark` is replaced, and what stands before and behind it on its own,
/// where no copy of `from` reaches into it or out of it.
#[verifier::spinoff_prover]
proof fn lemma_replaced_round(
    before: Seq<char>,
    mark: Seq<char>,
    behind: Seq<char>,
    from: Seq<char>,
    to: Seq<char>,
)
    requires
        from.len() > 0,
        forall|at: int|
            0 <= at < before.len() && at + from.len() > before.len() ==> !#[trigger] occurs_at(
                before + mark,
                from,
                at,
            ),
        forall|at: int|
            0 <= at < before.len() + mark.len() && at + from.len() > before.len() + mark.len()
                ==> !#[trigger] occurs_at(before + mark + behind, from, at),
    ensures
        replaced(before + mark + behind, from, to) == replaced(before, from, to) + replaced(
            mark,
            from,
            to,
        ) + replaced(behind, from, to),
{
    lemma_replaced_in_parts(before + mark, behind, from, to);
    lemma_replaced_in_parts(before, mark, from, to);
}

/// A plus sign is read as a blank, and what stands round it on its own.
#[verifier::spinoff_prover]
proof fn lemma_plus_is_a_blank(before: Seq<char>, behind: Seq<char>)
    ensures
        decoded(before + "+"@ + behind) == decoded(before) + " "@ + decoded(behind),
{
    reveal_strlit("+");
    reveal_strlit("%20");
    reveal_strlit(" ");
    let plus = "+"@;
    let escape = "%20"@;
    let blank = " "@;
    let a = replaced(before, plus, blank);
    let b = replaced(behind, plus, blank);
    lemma_replaced_round(before, plus, behind, plus, blank);
    assert(replaced(plus, plus, blank) =~= blank) by {
        reveal_with_fuel(replaced, 2);
        assert(plus.subrange(0, 1) =~= plus);
    }
    assert(replaced(before + plus + behind, plus, blank) == a + blank + b);
    assert(!contains(blank, escape)) by {
        lemma_no_start(blank, escape);
    }
    lemma_nothing_replaced(blank, escape, blank);
    assert forall|at: int|
        0 <= at < a.len() && at + escape.len() > a.len() implies !#[trigger] occurs_at(
        a + blank,
        escape,
        at,
    ) by {
        let text = a + blank;
        if occurs_at(text, escape, at) {
            let i = a.len() - at;
            assert(text.subrange(at, at + 3)[i] == text[at + i]);
            assert(text[at + i] == ' ');
        }
    }
    assert forall|at: int|
        0 <= at < a.len() + 1 && at + escape.len() > a.len() + 1 implies !#[trigger] occurs_at(
        a + blank + b,
        escape,
        at,
    ) by {
        let text = a + blank + b;
        if occurs_at(text, escape, at) {
            let i = a.len() - at;
            assert(text.subrange(at, at + 3)[i] == text[at + i]);
            assert(text[at + i] == ' ');
        }
    }
    lemma_replaced_round(a, blank, b, escape, blank);
}

/// A `%20` is read as a blank, and what stands round it on its own.
#[verifier::spinoff_prover]
proof fn lemma_escape_is_a_blank(before: Seq<char>, behind: Seq<char>)
    ensures
        decoded(before + "%20"@ + behind) == decoded(before) + " "@ + decoded(behind),
{
    reveal_strlit("+");
    reveal_strlit("%20");
    reveal_strlit(" ");
    let plus = "+"@;
    let escape = "%20"@;
    let blank = " "@;
    let a = replaced(before, plus, blank);
    let b = replaced(behind, plus, blank);
    assert(!escape.contains('+'));
    assert(!contains(escape, plus)) by {
        lemma_no_start(escape, plus);
    }
    lemma_nothing_replaced(escape, plus, blank);
    lemma_replaced_round(before, escape, behind, plus, blank);
    assert(replaced(before + escape + behind, plus, blank) == a + escape + b);
    assert(replaced(escape, escape, blank) =~= blank) by {
        reveal_with_fuel(replaced, 2);
        assert(escape.subrange(0, 3) =~= escape);
    }
    assert forall|at: int|
        0 <= at < a.len() && at + escape.len() > a.len() implies !#[trigger] occurs_at(
        a + escape,
        escape,
        at,
    ) by {
        let text = a + escape;
        if occurs_at(text, escape, at) {
            let i = a.len() - at;
            assert(text.subrange(at, at + 3)[i] == text[at + i]);
            assert(text[at + i] == '%');
        }
    }
    assert forall|at: int|
        0 <= at < a.len() + 3 && at + escape.len() > a.len() + 3 implies !#[trigger] occurs_at(
        a + escape + b,
        escape,
        at,
    ) by {
        let text = a + escape + b;
        if occurs_at(text, escape, at) {
            assert(text.subrange(at, at + 3)[0] == text[at]);
            assert(at == a.len() + 1 || at == a.len() + 2);
            assert(text[at] == escape[at - a.len()]);
        }
    }
    lemma_replaced_round(a, escape, b, escape, blank);
}

/// Each plus sign and each `%20` is read as a blank, and what stands before and
/// behind it is read on its own.
pub proof fn law_each_escape_is_a_blank(before: Seq<char>, behind: Seq<char>)
    ensures
        decoded(before + "+"@ + behind) == decoded(before) + " "@ + decoded(behind),
        decoded(before + "%20"@ + behind) == decoded(before) + " "@ + decoded(behind),
{
    lemma_plus_is_a_blank(before, behind);
    lemma_escape_is_a_blank(before, behind);
}

/// The value of a parameter is what stands behind its name in the first parameter
/// that starts with the name, among those behind the question mark; without such
/// a parameter there is none.
pub proof fn law_first_parameter_of_a_name_counts(
    path: Seq<char>,
    params: Seq<char>,
    parts: Seq<Seq<char>>,
    prefix: Seq<char>,
)
    requires
        !path.contains('?'),
        !params.contains('?'),
        parts == pieces(params, |c: char| c == '&'),
    ensures
        query_value(path, prefix) is None,
        query_value(path.push('?') + params, prefix) matches Some(value) ==> exists|i: int|
            0 <= i < parts.len() && prefix.is_prefix_of(#[trigger] parts[i]) && value
                == without_leading(parts[i], prefix) && (forall|j: int|
                0 <= j < i ==> !prefix.is_prefix_of(#[trigger] parts[j])),
        query_value(path.push('?') + params, prefix) is None <==> forall|i: int|
            0 <= i < parts.len() ==> !prefix.is_prefix_of(#[trigger] parts[i]),
{
    let question = |c: char| c == '?';
    let ampersand = |c: char| c == '&';
    let kept = begins_with(prefix);
    let url = path.push('?') + params;
    assert forall|i: int| 0 <= i < path.len() implies #[trigger] path[i] != '?' by {
        assert(path.contains(path[i]));
    }
    assert forall|i: int| 0 <= i < params.len() implies #[trigger] params[i] != '?' by {
        assert(params.contains(params[i]));
    }
    lemma_one_piece(path, question);
    lemma_two_pieces(path, '?', params, question);
    assert(pieces(url, question)[1] == params);
    assert(query_parts(url) == parts);
    assert(query_parts(path).filter(kept) =~= Seq::empty()) by {
        reveal(Seq::filter);
    }
    lemma_first_kept(parts, kept);
    if forall|i: int| 0 <= i < parts.len() ==> !prefix.is_prefix_of(#[trigger] parts[i]) {
        assert(forall|i: int| 0 <= i < parts.len() ==> !kept(#[trigger] parts[i]));
    }
}

/// The first of what is kept of a list is the first member that is to be kept.
proof fn lemma_first_kept(list: Seq<Seq<char>>, kept: spec_fn(Seq<char>) -> bool)
    ensures
        list.filter(kept).len() > 0 ==> exists|i: int|
            0 <= i < list.len() && kept(#[trigger] list[i]) && list.filter(kept)[0] == list[i] && (
            forall|j: int| 0 <= j < i ==> !kept(#[trigger] list[j])),
        list.filter(kept).len() == 0 <==> forall|i: int|
            0 <= i < list.len() ==> !kept(#[trigger] list[i]),
    decreases list.len(),
{
    if list.len() == 0 {
        assert(list.filter(kept) =~= Seq::empty()) by {
            reveal(Seq::filter);
        }
    } else {
        let front = list.drop_last();
        let last = list.len() - 1;
        assert(list =~= front.push(list.last()));
        front.lemma_filter_push(list.last(), kept);
        lemma_first_kept(front, kept);
        assert(forall|i: int| 0 <= i < last ==> #[trigger] list[i] == front[i]);
        assert(forall|i: int| 0 <= i < last ==> #[trigger] front[i] == list[i]);
        if front.filter(kept).len() > 0 {
            let i = choose|i: int|
                0 <= i < front.len() && kept(#[trigger] front[i]) && front.filter(kept)[0]
                    == front[i] && (forall|j: int| 0 <= j < i ==> !kept(#[trigger] front[j]));
            assert(kept(list[i]) && list.filter(kept)[0] == list[i]);
        } else if kept(list[last]) {
            assert(list.filter(kept)[0] == list[last]);
        }
    }
}

/// Answers and messages are seen with all that they hold, and plain answers and
/// JSON answers differ by their mark.
pub proof fn law_answers_are_seen_whole(
    reply: Reply,
    message: Outgoing,
    list: Seq<Outgoing>,
    status: u16,
    body: Seq<char>,
    i: int,
)
    ensures
        reply@.status == reply.status && reply@.json == reply.json && reply@.body == reply.body@,
        message@.name == message.name@ && message@.url == message.url@ && message@.body
            == message.body@,
        outgoing(list).len() == list.len(),
        0 <= i < list.len() ==> outgoing(list)[i] == list[i]@,
        plain_reply(status, body).status == status && !plain_reply(status, body).json
            && plain_reply(status, body).body == body,
        json_reply(body).status == 200 && json_reply(body).json && json_reply(body).body == body,
{
}

/// An address is made of the device's own address, its port and a path, each as
/// it is.
pub proof fn law_address_names_device_and_path(ip: Seq<char>, port: u16, path: Seq<char>)
    ensures
        url_of(ip, port, path) == "http://"@ + ip + ":"@ + decimal(port as nat) + path,
        path.is_suffix_of(url_of(ip, port, path)),
        ("http://"@ + ip).is_prefix_of(url_of(ip, port, path)),
{
    let url = url_of(ip, port, path);
    let start = "http://"@ + ip;
    assert(url.subrange(url.len() - path.len(), url.len() as int) =~= path);
    assert(url.subrange(0, start.len() as int) =~= start);
}

/// What stands behind a second question mark is no parameter.
pub proof fn law_second_question_mark_ends_the_parameters(
    path: Seq<char>,
    params: Seq<char>,
    more: Seq<char>,
    prefix: Seq<char>,
)
    requires
        !path.contains('?'),
        !params.contains('?'),
    ensures
        query_value(path.push('?') + (params.push('?') + more), prefix) == query_value(
            path.push('?') + params,
            prefix,
        ),
{
    let question = |c: char| c == '?';
    let tail = params.push('?') + more;
    assert forall|i: int| 0 <= i < path.len() implies #[trigger] path[i] != '?' by {
        assert(path.contains(path[i]));
    }
    assert forall|i: int| 0 <= i < params.len() implies #[trigger] params[i] != '?' by {
        assert(params.contains(params[i]));
    }
    crate::text::law_cut_parts_the_pieces(path, '?', tail, question);
    crate::text::law_cut_parts_the_pieces(params, '?', more, question);
    crate::text::law_cut_parts_the_pieces(path, '?', params, question);
    lemma_one_piece(params, question);
    lemma_one_piece(path, question);
    assert(pieces(path.push('?') + tail, question)[1] == params);
    assert(pieces(path.push('?') + params, question)[1] == params);
}

} // verus!
