//! Whether a clip holds what should not be shown openly.

use vstd::prelude::*;

use crate::text::{
    chars_of, contains, contains_chars, lemma_found_between, lemma_part_of_part,
};
use crate::unicode::to_lowercase;

verus! {

/// The fragments that give a secret away.
pub open spec fn keywords() -> Seq<Seq<char>> {
    seq![
        "password"@,
        "passwd"@,
        "pwd="@,
        "pwd:"@,
        "secret"@,
        "api_key"@,
        "apikey"@,
        "api-key"@,
        "access_token"@,
        "auth_token"@,
        "client_secret"@,
        "private_key"@,
        "-----begin"@,
        "bearer "@,
        "aws_secret"@,
        "akia"@,
    ]
}

/// `lower`, a text in lower case, holds one of the fragments.
pub open spec fn gives_secret_away(lower: Seq<char>) -> bool {
    exists|i: int|
        0 <= i < keywords().len() && crate::text::contains(lower, #[trigger] keywords()[i])
}

/// Whether `lower`, a text in lower case, holds one of the fragments.
pub fn has_keyword(lower: &str) -> (found: bool)
    ensures
        found == gives_secret_away(lower@),
{
    let chars = chars_of(lower);
    let list = vec![
        "password",
        "passwd",
        "pwd=",
        "pwd:",
        "secret",
        "api_key",
        "apikey",
        "api-key",
        "access_token",
        "auth_token",
        "client_secret",
        "private_key",
        "-----begin",
        "bearer ",
        "aws_secret",
        "akia",
    ];
    for i in 0..list.len()
        invariant
            chars@ == lower@,
            list@.len() == keywords().len(),
            forall|j: int| 0 <= j < list@.len() ==> (#[trigger] list@[j])@ == keywords()[j],
            forall|j: int|
                0 <= j < i ==> !crate::text::contains(lower@, #[trigger] keywords()[j]),
    {
        let keyword = chars_of(list[i]);
        assert(keyword@ == keywords()[i as int]);
        if contains_chars(chars.as_slice(), keyword.as_slice()) {
            return true;
        }
    }
    false
}

/// Whether `content` holds one of the fragments, in any mix of cases.
pub fn detect_sensitive(content: &str) -> (found: bool)
    ensures
        found == gives_secret_away(crate::unicode::lowercase(content@)),
{
    let lower = to_lowercase(content);
    has_keyword(lower.as_str())
}

/// The keyword at `i` gives a secret away, wherever it stands.
proof fn lemma_keyword_anywhere(before: Seq<char>, i: int, behind: Seq<char>)
    requires
        0 <= i < keywords().len(),
    ensures
        gives_secret_away(before + keywords()[i] + behind),
{
    lemma_found_between(before, keywords()[i], behind);
}

/// Each of the fragments gives a secret away, wherever it stands and however much
/// stands before and behind it.
pub proof fn law_keyword_gives_away_anywhere(before: Seq<char>, behind: Seq<char>)
    ensures
        gives_secret_away(before + "password"@ + behind),
        gives_secret_away(before + "passwd"@ + behind),
        gives_secret_away(before + "pwd="@ + behind),
        gives_secret_away(before + "pwd:"@ + behind),
        gives_secret_away(before + "secret"@ + behind),
        gives_secret_away(before + "api_key"@ + behind),
        gives_secret_away(before + "apikey"@ + behind),
        gives_secret_away(before + "api-key"@ + behind),
        gives_secret_away(before + "access_token"@ + behind),
        gives_secret_away(before + "auth_token"@ + behind),
        gives_secret_away(before + "client_secret"@ + behind),
        gives_secret_away(before + "private_key"@ + behind),
        gives_secret_away(before + "-----begin"@ + behind),
        gives_secret_away(before + "bearer "@ + behind),
        gives_secret_away(before + "aws_secret"@ + behind),
        gives_secret_away(before + "akia"@ + behind),
{
    lemma_keyword_anywhere(before, 0, behind);
    lemma_keyword_anywhere(before, 1, behind);
    lemma_keyword_anywhere(before, 2, behind);
    lemma_keyword_anywhere(before, 3, behind);
    lemma_keyword_anywhere(before, 4, behind);
    lemma_keyword_anywhere(before, 5, behind);
    lemma_keyword_anywhere(before, 6, behind);
    lemma_keyword_anywhere(before, 7, behind);
    lemma_keyword_anywhere(before, 8, behind);
    lemma_keyword_anywhere(before, 9, behind);
    lemma_keyword_anywhere(before, 10, behind);
    lemma_keyword_anywhere(before, 11, behind);
    lemma_keyword_anywhere(before, 12, behind);
    lemma_keyword_anywhere(before, 13, behind);
    lemma_keyword_anywhere(before, 14, behind);
    lemma_keyword_anywhere(before, 15, behind);
}

/// What gives a secret away holds one of the fragments.
pub proof fn law_only_keywords_give_away(lower: Seq<char>)
    ensures
        gives_secret_away(lower) ==> (contains(lower, "password"@)
            || contains(lower, "passwd"@)
            || contains(lower, "pwd="@)
            || contains(lower, "pwd:"@)
            || contains(lower, "secret"@)
            || contains(lower, "api_key"@)
            || contains(lower, "apikey"@)
            || contains(lower, "api-key"@)
            || contains(lower, "access_token"@)
            || contains(lower, "auth_token"@)
            || contains(lower, "client_secret"@)
            || contains(lower, "private_key"@)
            || contains(lower, "-----begin"@)
            || contains(lower, "bearer "@)
            || contains(lower, "aws_secret"@)
            || contains(lower, "akia"@)),
{
    assert(keywords()[0] == "password"@);
    assert(keywords()[1] == "passwd"@);
    assert(keywords()[2] == "pwd="@);
    assert(keywords()[3] == "pwd:"@);
    assert(keywords()[4] == "secret"@);
    assert(keywords()[5] == "api_key"@);
    assert(keywords()[6] == "apikey"@);
    assert(keywords()[7] == "api-key"@);
    assert(keywords()[8] == "access_token"@);
    assert(keywords()[9] == "auth_token"@);
    assert(keywords()[10] == "client_secret"@);
    assert(keywords()[11] == "private_key"@);
    assert(keywords()[12] == "-----begin"@);
    assert(keywords()[13] == "bearer "@);
    assert(keywords()[14] == "aws_secret"@);
    assert(keywords()[15] == "akia"@);
}

/// What gives a secret away does so whatever is put in front of it or behind it.
pub proof fn law_more_text_hides_nothing(before: Seq<char>, lower: Seq<char>, behind: Seq<char>)
    requires
        gives_secret_away(lower),
    ensures
        gives_secret_away(before + lower + behind),
{
    let i = choose|i: int|
        0 <= i < keywords().len() && contains(lower, #[trigger] keywords()[i]);
    lemma_found_between(before, lower, behind);
    lemma_part_of_part(before + lower + behind, lower, keywords()[i]);
}

} // verus!
