//! A short summary of a long clip.

use vstd::hash_map::StringHashMap;
use vstd::prelude::*;
use vstd::slice::slice_subrange;
use vstd::utf8::encode_utf8;

use crate::number::decimal_text;
use crate::text::{chars_of, same_text, split_on, split_whitespace, string_of, trim, trim_end};
use crate::unicode::to_lowercase;

verus! {

/// Content with fewer characters than this needs no summary.
pub const SHORT: usize = 200;

/// The most characters that are taken over from a sentence.
pub const SHOWN: usize = 140;

/// The number of bytes of `text` in UTF-8.
pub open spec fn byte_len(text: Seq<char>) -> nat {
    encode_utf8(text).len()
}

/// `text`, or its first `max` characters without the white space at their end
/// and with three dots, where it is longer than that.
pub open spec fn truncated(text: Seq<char>, max: int) -> Seq<char> {
    if text.len() <= max {
        text
    } else {
        crate::text::trimmed_end(text.take(max)) + "..."@
    }
}

/// The number of lines of `content`; a line break at its very end opens none.
pub open spec fn line_count(content: Seq<char>) -> nat {
    content.filter(|c: char| c == '\n').len() + if content.len() > 0 && content.last() != '\n' {
        1nat
    } else {
        0nat
    }
}

/// `c` ends a sentence.
pub open spec fn ends_sentence(c: char) -> bool {
    c == '.' || c == '!' || c == '?' || c == '\n'
}

/// The sentences of `content` that say enough to stand alone.
pub open spec fn sentences(content: Seq<char>) -> Seq<Seq<char>> {
    crate::text::pieces(content, |c: char| ends_sentence(c)).map_values(
        |piece: Seq<char>| crate::text::trimmed(piece),
    ).filter(|sentence: Seq<char>| byte_len(sentence) > 15)
}

/// `word` in lower case, without punctuation.
pub open spec fn cleaned(word: Seq<char>) -> Seq<char> {
    crate::unicode::lowercase(word).filter(|c: char| crate::unicode::alphanumeric(c))
}

/// The words of `sentence`, cleaned.
pub open spec fn cleaned_words(sentence: Seq<char>) -> Seq<Seq<char>> {
    crate::text::words(sentence).map_values(|word: Seq<char>| cleaned(word))
}

/// The words of each sentence of `content`, cleaned.
pub open spec fn sentence_words(content: Seq<char>) -> Seq<Seq<Seq<char>>> {
    sentences(content).map_values(|sentence: Seq<char>| cleaned_words(sentence))
}

/// Words that are too common to tell what a text is about.
pub open spec fn stopwords() -> Seq<Seq<char>> {
    seq![
        "the"@, "and"@, "for"@, "are"@, "but"@, "not"@, "you"@, "all"@, "can"@, "her"@,
        "was"@, "one"@, "our"@, "out"@, "day"@, "get"@, "has"@, "him"@, "his"@, "how"@,
        "man"@, "new"@, "now"@, "old"@, "see"@, "two"@, "way"@, "who"@, "boy"@, "did"@,
        "its"@, "let"@, "put"@, "say"@, "she"@, "too"@, "use"@, "that"@, "with"@,
        "this"@, "have"@, "from"@, "they"@, "will"@, "would"@, "there"@, "their"@,
        "what"@, "about"@, "which"@, "when"@, "make"@, "like"@, "time"@, "just"@,
        "into"@, "than"@, "then"@, "them"@, "these"@, "some"@, "could"@, "your"@,
    ]
}

/// `word` is long enough to be looked at.
pub open spec fn is_long(word: Seq<char>) -> bool {
    byte_len(word) > 2
}

/// The words of `list` that are long enough.
pub open spec fn long_words(list: Seq<Seq<char>>) -> Seq<Seq<char>> {
    list.filter(|word: Seq<char>| is_long(word))
}

/// Whether another word is `word`.
pub open spec fn equals(word: Seq<char>) -> spec_fn(Seq<char>) -> bool {
    |other: Seq<char>| other == word
}

/// How often `word` stands in `list`, where it is worth counting.
pub open spec fn frequency(list: Seq<Seq<char>>, word: Seq<char>) -> nat {
    if is_long(word) && !stopwords().contains(word) {
        list.filter(equals(word)).len()
    } else {
        0
    }
}

/// The sum of the frequencies in `list` of `picked`.
pub open spec fn total_frequency(list: Seq<Seq<char>>, picked: Seq<Seq<char>>) -> nat
    decreases picked.len(),
{
    if picked.len() == 0 {
        0
    } else {
        total_frequency(list, picked.drop_last()) + frequency(list, picked.last())
    }
}

/// What the sentence at `i` scores: the sum over its long words of how often
/// each stands in all the sentences, which hold the words `words`.
pub open spec fn raw_score(words: Seq<Seq<Seq<char>>>, i: int) -> nat {
    total_frequency(words.flatten_alt(), long_words(words[i]))
}

/// `weights` holds, for each sentence with a long word, what `weigh` makes of
/// its score and of the number of its long words.
pub open spec fn weighed<F: Fn(u128, usize) -> u64>(
    weigh: F,
    words: Seq<Seq<Seq<char>>>,
    weights: Seq<u64>,
) -> bool {
    &&& weights.len() == words.len()
    &&& forall|i: int|
        0 <= i < words.len() && long_words(words[i]).len() > 0 ==> weigh.ensures(
            (raw_score(words, i) as u128, long_words(words[i]).len() as usize),
            #[trigger] weights[i],
        )
}

/// The sentence at `i` is the first of the heaviest ones with a long word.
pub open spec fn heaviest(words: Seq<Seq<Seq<char>>>, weights: Seq<u64>, i: int) -> bool {
    &&& 0 <= i < words.len()
    &&& long_words(words[i]).len() > 0
    &&& forall|j: int|
        0 <= j < i && long_words(#[trigger] words[j]).len() > 0 ==> weights[j] < weights[i]
    &&& forall|j: int|
        i <= j < words.len() && long_words(#[trigger] words[j]).len() > 0 ==> weights[j]
            <= weights[i]
}

/// The place of the heaviest sentence, where one has a long word.
pub open spec fn heaviest_sentence(words: Seq<Seq<Seq<char>>>, weights: Seq<u64>) -> Option<int> {
    if exists|i: int| #[trigger] heaviest(words, weights, i) {
        Some(choose|i: int| #[trigger] heaviest(words, weights, i))
    } else {
        None
    }
}

/// `language` names a programming language.
pub open spec fn is_code(language: Seq<char>) -> bool {
    language != "text"@ && language != "n/a"@
}

/// The sentences of `content` have to be weighed against each other.
pub open spec fn is_ranked(content: Seq<char>, language: Seq<char>) -> bool {
    content.len() >= SHORT && !is_code(language) && sentences(content).len() > 1
}

/// The summary of `content`, where `weights` are the weights of its sentences.
pub open spec fn digest_of(
    content: Seq<char>,
    language: Seq<char>,
    weights: Seq<u64>,
) -> Option<Seq<char>> {
    if content.len() < SHORT {
        None
    } else if is_code(language) {
        Some(
            crate::number::decimal(line_count(content)) + " lines of "@ + language + " code"@,
        )
    } else if sentences(content).len() == 0 {
        None
    } else if sentences(content).len() == 1 {
        Some(truncated(sentences(content)[0], SHOWN as int))
    } else {
        match heaviest_sentence(sentence_words(content), weights) {
            Some(i) => Some(truncated(sentences(content)[i], SHOWN as int)),
            None => Some(truncated(sentences(content)[0], SHOWN as int)),
        }
    }
}

/// `digest` is the summary of `content`, where `weigh` weighs its sentences, if
/// they have to be weighed.
pub open spec fn is_digest<F: Fn(u128, usize) -> u64>(
    weigh: F,
    content: Seq<char>,
    language: Seq<char>,
    digest: Option<Seq<char>>,
) -> bool {
    if is_ranked(content, language) {
        exists|weights: Seq<u64>| #[trigger]
            weighed(weigh, sentence_words(content), weights) && digest == digest_of(
                content,
                language,
                weights,
            )
    } else {
        digest == digest_of(content, language, Seq::empty())
    }
}

/// What `weigh` makes of a score and a number of words is always the same.
pub open spec fn is_function<F: Fn(u128, usize) -> u64>(weigh: F) -> bool {
    forall|raw: u128, n: usize, a: u64, b: u64| #[trigger]
        weigh.ensures((raw, n), a) && #[trigger] weigh.ensures((raw, n), b) ==> a == b
}

/// What `weigh` makes of a score and a number of words.
pub open spec fn weight_by<F: Fn(u128, usize) -> u64>(weigh: F, raw: u128, n: usize) -> u64 {
    choose|weight: u64| weigh.ensures((raw, n), weight)
}

/// What `weigh` makes of each of the sentences with the words `words`.
pub open spec fn weights_by<F: Fn(u128, usize) -> u64>(
    weigh: F,
    words: Seq<Seq<Seq<char>>>,
) -> Seq<u64> {
    Seq::new(
        words.len(),
        |i: int|
            weight_by(
                weigh,
                raw_score(words, i) as u128,
                long_words(words[i]).len() as usize,
            ),
    )
}

/// The summary of `content`, where `weigh` weighs its sentences.
pub open spec fn digest_by<F: Fn(u128, usize) -> u64>(
    weigh: F,
    content: Seq<char>,
    language: Seq<char>,
) -> Option<Seq<char>> {
    digest_of(content, language, weights_by(weigh, sentence_words(content)))
}

/// `text`, cut to `max_chars` characters.
pub fn truncate_str(text: &str, max_chars: usize) -> (cut: String)
    ensures
        cut@ == truncated(text@, max_chars as int),
{
    let chars = chars_of(text);
    truncate_chars(chars.as_slice(), max_chars)
}

/// `text`, cut to `max_chars` characters.
fn truncate_chars(text: &[char], max_chars: usize) -> (cut: String)
    ensures
        cut@ == truncated(text@, max_chars as int),
{
    if text.len() <= max_chars {
        string_of(text)
    } else {
        let start = slice_subrange(text, 0, max_chars);
        assert(start@ =~= text@.take(max_chars as int));
        let mut cut = string_of(trim_end(start));
        cut.append("...");
        cut
    }
}

/// The number of lines of `content`.
fn count_lines(content: &[char]) -> (n: usize)
    ensures
        n == line_count(content@),
{
    let ghost is_break = |c: char| c == '\n';
    let mut breaks: usize = 0;
    for i in 0..content.len()
        invariant
            is_break == (|c: char| c == '\n'),
            breaks <= i,
            breaks == content@.take(i as int).filter(is_break).len(),
            i > 0 && content@[i - 1] != '\n' ==> breaks < i,
    {
        proof {
            assert(content@.take(i + 1) =~= content@.take(i as int).push(content@[i as int]));
            content@.take(i as int).lemma_filter_push(content@[i as int], is_break);
        }
        if content[i] == '\n' {
            breaks += 1;
        }
    }
    assert(content@.take(content@.len() as int) =~= content@);
    if content.len() > 0 && content[content.len() - 1] != '\n' {
        breaks + 1
    } else {
        breaks
    }
}

/// The sentences of `content` that say enough to stand alone.
fn split_sentences(content: &[char]) -> (found: Vec<Vec<char>>)
    ensures
        crate::text::views(found@) == sentences(content@),
{
    let marks = vec!['.', '!', '?', '\n'];
    let parts = split_on(content, marks.as_slice());
    let ghost all = crate::text::pieces(content@, |c: char| ends_sentence(c));
    proof {
        assert forall|c: char| marks@.contains(c) == ends_sentence(c) by {
            if ends_sentence(c) {
                assert(marks@[0] == '.' && marks@[1] == '!' && marks@[2] == '?' && marks@[3]
                    == '\n');
            }
        }
        assert((|c: char| marks@.contains(c)) =~= (|c: char| ends_sentence(c)));
    }
    let ghost trimmed_all = all.map_values(|piece: Seq<char>| crate::text::trimmed(piece));
    let ghost says_enough = |sentence: Seq<char>| byte_len(sentence) > 15;
    let mut found: Vec<Vec<char>> = Vec::new();
    assert(crate::text::views(found@) =~= trimmed_all.take(0).filter(says_enough)) by {
        reveal(Seq::filter);
    }
    for i in 0..parts.len()
        invariant
            crate::text::views(parts@) == all,
            trimmed_all == all.map_values(|piece: Seq<char>| crate::text::trimmed(piece)),
            says_enough == (|sentence: Seq<char>| byte_len(sentence) > 15),
            crate::text::views(found@) == trimmed_all.take(i as int).filter(says_enough),
    {
        let part = &parts[i];
        assert(part@ == all[i as int]);
        let sentence = string_of(trim(part.as_slice()));
        let ghost before = crate::text::views(found@);
        proof {
            assert(sentence@ == trimmed_all[i as int]);
            assert(trimmed_all.take(i + 1) =~= trimmed_all.take(i as int).push(sentence@));
            trimmed_all.take(i as int).lemma_filter_push(sentence@, says_enough);
        }
        if sentence.as_str().as_bytes().len() > 15 {
            found.push(chars_of(sentence.as_str()));
            assert(crate::text::views(found@) =~= before.push(sentence@));
        }
    }
    assert(trimmed_all.take(trimmed_all.len() as int) =~= trimmed_all);
    found
}

/// `word` in lower case, without punctuation.
fn clean_word(word: &[char]) -> (clean: String)
    ensures
        clean@ == cleaned(word@),
{
    let lower = to_lowercase(string_of(word).as_str());
    let chars = chars_of(lower.as_str());
    let ghost kept = |c: char| crate::unicode::alphanumeric(c);
    let mut clean = String::new();
    assert(clean@ =~= chars@.take(0).filter(kept)) by {
        reveal(Seq::filter);
    }
    for i in 0..chars.len()
        invariant
            kept == (|c: char| crate::unicode::alphanumeric(c)),
            clean@ == chars@.take(i as int).filter(kept),
    {
        let c = chars[i];
        proof {
            assert(chars@.take(i + 1) =~= chars@.take(i as int).push(c));
            chars@.take(i as int).lemma_filter_push(c, kept);
        }
        if c.is_alphanumeric() {
            clean.push(c);
        }
    }
    assert(chars@.take(chars@.len() as int) =~= chars@);
    clean
}

/// The words of `sentence`, cleaned.
fn clean_words(sentence: &[char]) -> (list: Vec<String>)
    ensures
        crate::text::strings(list@) == cleaned_words(sentence@),
{
    let found = split_whitespace(sentence);
    let ghost all = crate::text::words(sentence@);
    let mut list: Vec<String> = Vec::new();
    for i in 0..found.len()
        invariant
            crate::text::views(found@) == all,
            crate::text::strings(list@) =~= all.take(i as int).map_values(|word: Seq<char>| cleaned(word)),
    {
        let ghost before = crate::text::strings(list@);
        list.push(clean_word(found[i].as_slice()));
        assert(found@[i as int]@ == all[i as int]);
        assert(crate::text::strings(list@) =~= before.push(cleaned(all[i as int])));
        assert(all.take(i + 1) =~= all.take(i as int).push(all[i as int]));
    }
    assert(all.take(all.len() as int) =~= all);
    list
}

/// Whether `word` is too common to tell what a text is about.
fn is_stopword(word: &str) -> (found: bool)
    ensures
        found == stopwords().contains(word@),
{
    let list = vec![
        "the", "and", "for", "are", "but", "not", "you", "all", "can", "her", "was", "one",
        "our", "out", "day", "get", "has", "him", "his", "how", "man", "new", "now", "old",
        "see", "two", "way", "who", "boy", "did", "its", "let", "put", "say", "she", "too",
        "use", "that", "with", "this", "have", "from", "they", "will", "would", "there",
        "their", "what", "about", "which", "when", "make", "like", "time", "just", "into",
        "than", "then", "them", "these", "some", "could", "your",
    ];
    for i in 0..list.len()
        invariant
            list@.len() == stopwords().len(),
            forall|j: int| 0 <= j < list@.len() ==> (#[trigger] list@[j])@ == stopwords()[j],
            forall|j: int| 0 <= j < i ==> (#[trigger] stopwords()[j]) != word@,
    {
        assert(list@[i as int]@ == stopwords()[i as int]);
        if same_text(list[i], word) {
            assert(stopwords()[i as int] == word@);
            return true;
        }
    }
    false
}

/// Whether `word` is worth counting.
fn is_counted(word: &String) -> (counted: bool)
    ensures
        counted == (is_long(word@) && !stopwords().contains(word@)),
{
    word.as_str().as_bytes().len() > 2 && !is_stopword(word.as_str())
}

/// What each list of `words` holds.
pub open spec fn word_lists(words: Seq<Vec<String>>) -> Seq<Seq<Seq<char>>> {
    words.map_values(|list: Vec<String>| crate::text::strings(list@))
}

/// The count that `counts` holds for `word`.
pub open spec fn tally(counts: Map<Seq<char>, u64>, word: Seq<char>) -> nat {
    if counts.contains_key(word) {
        counts[word] as nat
    } else {
        0
    }
}

/// One more word in the list adds one to its own frequency, where it is worth
/// counting, and nothing to that of any other word.
proof fn lemma_frequency_push(list: Seq<Seq<char>>, added: Seq<char>, word: Seq<char>)
    ensures
        frequency(list.push(added), word) == frequency(list, word) + if added == word && is_long(
            word,
        ) && !stopwords().contains(word) {
            1nat
        } else {
            0nat
        },
{
    list.lemma_filter_push(added, equals(word));
}

/// The words of all sentences, in order.
fn flatten(words: &Vec<Vec<String>>) -> (all: Vec<String>)
    ensures
        crate::text::strings(all@) == word_lists(words@).flatten_alt(),
{
    let ghost lists = word_lists(words@);
    let mut all: Vec<String> = Vec::new();
    assert(crate::text::strings(all@) =~= lists.take(0).flatten_alt());
    for i in 0..words.len()
        invariant
            lists == word_lists(words@),
            crate::text::strings(all@) == lists.take(i as int).flatten_alt(),
    {
        let list = &words[i];
        let ghost before = crate::text::strings(all@);
        for j in 0..list.len()
            invariant
                crate::text::strings(all@) =~= before + crate::text::strings(list@).take(j as int),
        {
            let ghost so_far = crate::text::strings(all@);
            all.push(list[j].clone());
            assert(crate::text::strings(all@) =~= so_far.push(list@[j as int]@));
            assert(crate::text::strings(list@).take(j + 1) =~= crate::text::strings(list@).take(j as int).push(
                list@[j as int]@,
            ));
        }
        assert(crate::text::strings(list@).take(list@.len() as int) =~= lists[i as int]);
        assert(lists.take(i + 1).drop_last() =~= lists.take(i as int));
    }
    assert(lists.take(lists.len() as int) =~= lists);
    all
}

/// The frequency in `all` of each word that stands there and is worth counting.
fn count_words(all: &Vec<String>) -> (counts: StringHashMap<u64>)
    ensures
        forall|word: Seq<char>|
            #[trigger] frequency(crate::text::strings(all@), word) == tally(counts@, word),
{
    let ghost list = crate::text::strings(all@);
    let mut counts: StringHashMap<u64> = StringHashMap::new();
    assert forall|word: Seq<char>| #[trigger] frequency(list.take(0), word) == 0 by {
        reveal(Seq::filter);
    }
    let mut i: usize = 0;
    while i < all.len()
        invariant
            i <= all@.len(),
            list == crate::text::strings(all@),
            forall|word: Seq<char>|
                #[trigger] frequency(list.take(i as int), word) == tally(counts@, word),
            forall|word: Seq<char>| #[trigger]
                counts@.contains_key(word) ==> counts@[word] <= i,
        decreases all@.len() - i,
    {
        let ghost before = counts@;
        let word = &all[i];
        if is_counted(word) {
            let seen: u64 = match counts.get(word.as_str()) {
                Some(n) => *n,
                None => 0,
            };
            counts.insert(word.clone(), seen + 1);
        }
        assert(list.take(i + 1) =~= list.take(i as int).push(word@));
        assert forall|other: Seq<char>| #[trigger]
            frequency(list.take(i + 1), other) == tally(counts@, other) by {
            lemma_frequency_push(list.take(i as int), word@, other);
            assert(frequency(list.take(i as int), other) == tally(before, other));
        }
        i += 1;
    }
    assert(list.take(list.len() as int) =~= list);
    counts
}

/// The score and the number of the long words of `list`, where `counts` gives
/// the frequencies of words in `all`.
fn score_words(
    counts: &StringHashMap<u64>,
    list: &Vec<String>,
    Ghost(all): Ghost<Seq<Seq<char>>>,
) -> (found: (u128, usize))
    requires
        forall|word: Seq<char>|
            #[trigger] frequency(all, word) == tally(counts@, word),
    ensures
        found.0 == total_frequency(all, long_words(crate::text::strings(list@))),
        found.1 == long_words(crate::text::strings(list@)).len(),
{
    let ghost words = crate::text::strings(list@);
    let ghost long = |word: Seq<char>| is_long(word);
    let mut raw: u128 = 0;
    let mut n: usize = 0;
    assert(long_words(words.take(0)) =~= Seq::empty()) by {
        reveal(Seq::filter);
    }
    for i in 0..list.len()
        invariant
            words == crate::text::strings(list@),
            long == (|word: Seq<char>| is_long(word)),
            forall|word: Seq<char>|
                #[trigger] frequency(all, word) == tally(counts@, word),
            n <= i,
            raw <= i * 0xffff_ffff_ffff_ffff,
            n == long_words(words.take(i as int)).len(),
            raw == total_frequency(all, long_words(words.take(i as int))),
    {
        let word = &list[i];
        proof {
            assert(words.take(i + 1) =~= words.take(i as int).push(word@));
            words.take(i as int).lemma_filter_push(word@, long);
            assert(long_words(words.take(i as int)).push(word@).drop_last() =~= long_words(
                words.take(i as int),
            ));
            assert((i + 1) * 0xffff_ffff_ffff_ffff <= u128::MAX);
        }
        if word.as_str().as_bytes().len() > 2 {
            let seen: u64 = match counts.get(word.as_str()) {
                Some(n) => *n,
                None => 0,
            };
            assert(seen == frequency(all, word@));
            raw = raw + seen as u128;
            n += 1;
        }
    }
    assert(words.take(words.len() as int) =~= words);
    (raw, n)
}

/// The place of the heaviest of the sentences with the words `words`: the
/// first one with the greatest weight, among those with a long word. The
/// weight of a sentence is what `weigh` makes of its score and of the number
/// of its long words.
pub fn rank_sentences<F: Fn(u128, usize) -> u64>(
    words: &Vec<Vec<String>>,
    weigh: F,
) -> (best: Option<usize>)
    requires
        forall|raw: u128, n: usize| n > 0 ==> #[trigger] weigh.requires((raw, n)),
    ensures
        exists|weights: Seq<u64>| #[trigger]
            weighed(weigh, word_lists(words@), weights) && heaviest_sentence(
                word_lists(words@),
                weights,
            ) == (match best {
                Some(i) => Some(i as int),
                None => None,
            }),
        is_function(weigh) ==> heaviest_sentence(
            word_lists(words@),
            weights_by(weigh, word_lists(words@)),
        ) == (match best {
            Some(i) => Some(i as int),
            None => None,
        }),
{
    let ghost lists = word_lists(words@);
    let all = flatten(words);
    let counts = count_words(&all);
    let ghost mut weights: Seq<u64> = Seq::empty();
    let mut best: Option<usize> = None;
    let mut best_weight: u64 = 0;
    for i in 0..words.len()
        invariant
            forall|raw: u128, n: usize| n > 0 ==> #[trigger] weigh.requires((raw, n)),
            lists == word_lists(words@),
            crate::text::strings(all@) == lists.flatten_alt(),
            forall|word: Seq<char>|
                #[trigger] frequency(crate::text::strings(all@), word) == tally(counts@, word),
            weights.len() == i,
            forall|j: int|
                0 <= j < i && long_words(lists[j]).len() > 0 ==> weigh.ensures(
                    (raw_score(lists, j) as u128, long_words(lists[j]).len() as usize),
                    #[trigger] weights[j],
                ),
            match best {
                Some(b) => {
                    &&& b < i
                    &&& long_words(lists[b as int]).len() > 0
                    &&& best_weight == weights[b as int]
                    &&& forall|j: int|
                        0 <= j < b && long_words(#[trigger] lists[j]).len() > 0 ==> weights[j]
                            < best_weight
                    &&& forall|j: int|
                        b <= j < i && long_words(#[trigger] lists[j]).len() > 0 ==> weights[j]
                            <= best_weight
                },
                None => forall|j: int|
                    0 <= j < i ==> long_words(#[trigger] lists[j]).len() == 0,
            },
    {
        let list = &words[i];
        assert(lists[i as int] == crate::text::strings(list@));
        let (raw, n) = score_words(&counts, list, Ghost(crate::text::strings(all@)));
        if n > 0 {
            let weight = weigh(raw, n);
            let first = match best {
                Some(_) => false,
                None => true,
            };
            if first || weight > best_weight {
                best = Some(i);
                best_weight = weight;
            }
            proof {
                weights = weights.push(weight);
            }
        } else {
            proof {
                weights = weights.push(0);
            }
        }
    }
    proof {
        assert(weighed(weigh, lists, weights));
        if is_function(weigh) {
            lemma_one_weighing(weigh, lists, weights);
        }
        match best {
            Some(b) => {
                assert(heaviest(lists, weights, b as int));
                let i = choose|i: int| #[trigger] heaviest(lists, weights, i);
                assert(lists[i] == lists[i] && lists[b as int] == lists[b as int]);
                assert(i == b);
            },
            None => {
                assert forall|i: int| !#[trigger] heaviest(lists, weights, i) by {
                    if heaviest(lists, weights, i) {
                        assert(long_words(lists[i]).len() == 0);
                    }
                }
            },
        }
    }
    best
}

/// A summary of `content`, which is written in `language`: what it is, where it
/// is code, else its heaviest sentence, cut short. There is none of short
/// content, and none where nothing says enough. `weigh` tells how much a
/// sentence weighs, from its score and from the number of its long words.
pub fn generate_digest<F: Fn(u128, usize) -> u64>(
    content: &str,
    language: &str,
    weigh: F,
) -> (digest: Option<String>)
    requires
        forall|raw: u128, n: usize| n > 0 ==> #[trigger] weigh.requires((raw, n)),
    ensures
        is_digest(weigh, content@, language@, crate::text::maybe(digest)),
        is_function(weigh) ==> crate::text::maybe(digest) == digest_by(
            weigh,
            content@,
            language@,
        ),
{
    let chars = chars_of(content);
    if chars.len() < SHORT {
        return None;
    }
    if !same_text(language, "text") && !same_text(language, "n/a") {
        let mut text = decimal_text(count_lines(chars.as_slice()) as u64);
        text.append(" lines of ");
        text.append(language);
        text.append(" code");
        return Some(text);
    }
    let found = split_sentences(chars.as_slice());
    let ghost all = sentences(content@);
    if found.len() == 0 {
        return None;
    }
    assert(found@[0]@ == all[0]);
    if found.len() == 1 {
        return Some(truncate_chars(found[0].as_slice(), SHOWN));
    }
    let mut words: Vec<Vec<String>> = Vec::new();
    for i in 0..found.len()
        invariant
            crate::text::views(found@) == all,
            word_lists(words@) =~= all.take(i as int).map_values(
                |sentence: Seq<char>| cleaned_words(sentence),
            ),
    {
        let ghost before = word_lists(words@);
        words.push(clean_words(found[i].as_slice()));
        assert(found@[i as int]@ == all[i as int]);
        assert(word_lists(words@) =~= before.push(cleaned_words(all[i as int])));
        assert(all.take(i + 1) =~= all.take(i as int).push(all[i as int]));
    }
    assert(all.take(all.len() as int) =~= all);
    let best: usize = match rank_sentences(&words, weigh) {
        Some(i) => i,
        None => 0,
    };
    assert(best < found@.len());
    assert(found@[best as int]@ == all[best as int]);
    Some(truncate_chars(found[best].as_slice(), SHOWN))
}

/// A text that is cut short is at most three characters longer than what it is
/// cut to.
pub proof fn law_cut_text_is_short(text: Seq<char>, max: int)
    requires
        0 <= max,
    ensures
        truncated(text, max).len() <= max + 3,
        text.len() <= max ==> truncated(text, max) == text,
{
    reveal_strlit("...");
    if text.len() > max {
        crate::text::lemma_trimmed_end(text.take(max));
    }
}

/// The summary of what is no code is short, however long the content and
/// whatever the weights, and content that is short has none.
pub proof fn law_digest_is_short(content: Seq<char>, language: Seq<char>, weights: Seq<u64>)
    ensures
        content.len() < SHORT ==> digest_of(content, language, weights) is None,
        !is_code(language) ==> (digest_of(content, language, weights) matches Some(digest)
            ==> digest.len() <= SHOWN + 3),
{
    if !is_code(language) && content.len() >= SHORT && sentences(content).len() > 0 {
        law_cut_text_is_short(sentences(content)[0], SHOWN as int);
        if let Some(i) = heaviest_sentence(sentence_words(content), weights) {
            law_cut_text_is_short(sentences(content)[i], SHOWN as int);
        }
    }
}

/// Each sentence stands in the content.
proof fn lemma_sentence_occurs(content: Seq<char>, i: int)
    requires
        0 <= i < sentences(content).len(),
    ensures
        crate::text::contains(content, sentences(content)[i]),
{
    let cut = |c: char| ends_sentence(c);
    let parts = crate::text::pieces(content, cut);
    let trimmed_parts = parts.map_values(|piece: Seq<char>| crate::text::trimmed(piece));
    let sentence = sentences(content)[i];
    assert(sentences(content).contains(sentence));
    trimmed_parts.lemma_filter_contains_rev(
        |sentence: Seq<char>| byte_len(sentence) > 15,
        sentence,
    );
    let k = trimmed_parts.index_of(sentence);
    crate::text::lemma_piece_occurs(content, cut, k);
    crate::text::lemma_trimmed_occurs(parts[k]);
    crate::text::lemma_part_of_part(content, parts[k], sentence);
}

/// The summary of what is no code is a sentence that stands in the content,
/// cut short, whatever the weights.
pub proof fn law_digest_quotes_the_content(
    content: Seq<char>,
    language: Seq<char>,
    weights: Seq<u64>,
)
    requires
        !is_code(language),
        digest_of(content, language, weights) is Some,
    ensures
        exists|sentence: Seq<char>| #[trigger]
            crate::text::contains(content, sentence) && digest_of(content, language, weights)
                == Some(truncated(sentence, SHOWN as int)),
{
    lemma_sentence_occurs(content, 0);
    if sentences(content).len() > 1 {
        if let Some(i) = heaviest_sentence(sentence_words(content), weights) {
            assert(heaviest(sentence_words(content), weights, i));
            lemma_sentence_occurs(content, i);
        }
    }
}

/// Where two weighings agree on the sentences with a long word, the same
/// sentence is the heaviest.
proof fn lemma_same_heaviest(words: Seq<Seq<Seq<char>>>, a: Seq<u64>, b: Seq<u64>)
    requires
        forall|i: int|
            0 <= i < words.len() && long_words(#[trigger] words[i]).len() > 0 ==> a[i] == b[i],
    ensures
        heaviest_sentence(words, a) == heaviest_sentence(words, b),
{
    assert forall|i: int| #[trigger] heaviest(words, a, i) == heaviest(words, b, i) by {
        if 0 <= i < words.len() {
            assert(words[i] == words[i]);
        }
    }
    if exists|i: int| #[trigger] heaviest(words, a, i) {
        let i = choose|i: int| #[trigger] heaviest(words, a, i);
        assert(heaviest(words, b, i));
        let j = choose|j: int| #[trigger] heaviest(words, b, j);
        assert(words[i] == words[i] && words[j] == words[j]);
        assert(i == j);
    } else if exists|i: int| #[trigger] heaviest(words, b, i) {
        let j = choose|j: int| #[trigger] heaviest(words, b, j);
        assert(heaviest(words, a, j));
    }
}

/// Where `weigh` is a function, any weighing by it finds the same sentence the
/// heaviest.
proof fn lemma_one_weighing<F: Fn(u128, usize) -> u64>(
    weigh: F,
    words: Seq<Seq<Seq<char>>>,
    weights: Seq<u64>,
)
    requires
        is_function(weigh),
        weighed(weigh, words, weights),
    ensures
        heaviest_sentence(words, weights) == heaviest_sentence(words, weights_by(weigh, words)),
{
    let by = weights_by(weigh, words);
    assert forall|i: int|
        0 <= i < words.len() && long_words(#[trigger] words[i]).len() > 0 implies weights[i]
        == by[i] by {
        let raw = raw_score(words, i) as u128;
        let n = long_words(words[i]).len() as usize;
        assert(weigh.ensures((raw, n), weights[i]));
        assert(weigh.ensures((raw, n), weight_by(weigh, raw, n)));
    }
    lemma_same_heaviest(words, weights, by);
}

/// Where `weigh` is a function, content has one summary.
pub proof fn law_content_has_one_digest<F: Fn(u128, usize) -> u64>(
    weigh: F,
    content: Seq<char>,
    language: Seq<char>,
    digest: Option<Seq<char>>,
)
    requires
        is_function(weigh),
        is_digest(weigh, content, language, digest),
    ensures
        digest == digest_by(weigh, content, language),
{
    if is_ranked(content, language) {
        let words = sentence_words(content);
        let weights = choose|weights: Seq<u64>| #[trigger]
            weighed(weigh, words, weights) && digest == digest_of(content, language, weights);
        lemma_one_weighing(weigh, words, weights);
    }
}

/// Prose and what has no language get the same summary, however its sentences
/// are weighed.
pub proof fn law_prose_needs_no_language<F: Fn(u128, usize) -> u64>(
    weigh: F,
    content: Seq<char>,
    digest: Option<Seq<char>>,
)
    ensures
        digest_by(weigh, content, "text"@) == digest_by(weigh, content, "n/a"@),
        is_digest(weigh, content, "text"@, digest) == is_digest(weigh, content, "n/a"@, digest),
{
    assert(forall|weights: Seq<u64>|
        digest_of(content, "text"@, weights) == #[trigger] digest_of(content, "n/a"@, weights));
}

/// What is too long is cut to its first characters, less the white space at the
/// end of these, and three dots; what is not too long stays as it is.
pub proof fn law_only_the_start_is_kept(text: Seq<char>, max: int)
    requires
        0 <= max,
    ensures
        text.len() <= max ==> truncated(text, max) == text,
        text.len() > max ==> exists|k: int|
            0 <= k <= max && truncated(text, max) == #[trigger] text.take(k) + seq!['.', '.', '.']
                && (forall|i: int| k <= i < max ==> crate::text::is_space(#[trigger] text[i])) && (
            k > 0 ==> !crate::text::is_space(text[k - 1])),
{
    if text.len() > max {
        reveal_strlit("...");
        assert("..."@ =~= seq!['.', '.', '.']);
        let start = text.take(max);
        let k = crate::text::lemma_trimmed_end_to(start);
        assert(start.take(k) =~= text.take(k));
        assert forall|i: int| k <= i < max implies crate::text::is_space(#[trigger] text[i]) by {
            assert(start[i] == text[i]);
        }
        if k > 0 {
            assert(start[k - 1] == text[k - 1]);
        }
        assert(truncated(text, max) == text.take(k) + seq!['.', '.', '.']);
    }
}

/// A line break ends a line, and what stands behind the last one is a line where
/// it is not empty.
pub proof fn law_line_break_ends_a_line(line: Seq<char>, rest: Seq<char>)
    requires
        forall|i: int| 0 <= i < line.len() ==> #[trigger] line[i] != '\n',
    ensures
        line_count(line.push('\n') + rest) == 1 + line_count(rest),
        line_count(line) == (if line.len() > 0 {
            1nat
        } else {
            0nat
        }),
{
    let is_break = |c: char| c == '\n';
    let text = line.push('\n') + rest;
    assert(line.filter(is_break).len() == 0) by {
        if line.filter(is_break).len() > 0 {
            line.lemma_filter_pred(is_break, 0);
            let c = line.filter(is_break)[0];
            assert(line.filter(is_break).contains(c));
            line.lemma_filter_contains_rev(is_break, c);
            let i = line.index_of(c);
            assert(line[i] != '\n');
        }
    }
    line.lemma_filter_push('\n', is_break);
    Seq::filter_distributes_over_add(line.push('\n'), rest, is_break);
    if rest.len() == 0 {
        assert(text =~= line.push('\n'));
    } else {
        assert(text.last() == rest.last());
    }
}

/// A full stop, an exclamation mark, a question mark and a line break each part
/// the sentences before them from those behind them.
pub proof fn law_marks_part_the_sentences(before: Seq<char>, mark: char, behind: Seq<char>)
    requires
        mark == '.' || mark == '!' || mark == '?' || mark == '\n',
    ensures
        sentences(before.push(mark) + behind) == sentences(before) + sentences(behind),
{
    let cut = |c: char| ends_sentence(c);
    let trim = |piece: Seq<char>| crate::text::trimmed(piece);
    let a = crate::text::pieces(before, cut);
    let b = crate::text::pieces(behind, cut);
    crate::text::law_cut_parts_the_pieces(before, mark, behind, cut);
    assert((a + b).map_values(trim) =~= a.map_values(trim) + b.map_values(trim));
    Seq::filter_distributes_over_add(
        a.map_values(trim),
        b.map_values(trim),
        |sentence: Seq<char>| byte_len(sentence) > 15,
    );
}

/// What no mark parts is one sentence, without the white space round it, where it
/// has more than fifteen bytes; it is none where it has fewer.
pub proof fn law_unparted_text_is_one_sentence(text: Seq<char>)
    requires
        forall|i: int|
            0 <= i < text.len() ==> #[trigger] text[i] != '.' && text[i] != '!' && text[i] != '?'
                && text[i] != '\n',
    ensures
        encode_utf8(crate::text::trimmed(text)).len() > 15 ==> sentences(text) == seq![
            crate::text::trimmed(text),
        ],
        encode_utf8(crate::text::trimmed(text)).len() <= 15 ==> sentences(text).len() == 0,
{
    let cut = |c: char| ends_sentence(c);
    let enough = |sentence: Seq<char>| byte_len(sentence) > 15;
    crate::text::lemma_one_piece(text, cut);
    let parts = crate::text::pieces(text, cut).map_values(
        |piece: Seq<char>| crate::text::trimmed(piece),
    );
    let sentence = crate::text::trimmed(text);
    assert(parts =~= Seq::<Seq<char>>::empty().push(sentence));
    Seq::<Seq<char>>::empty().lemma_filter_push(sentence, enough);
    assert(Seq::<Seq<char>>::empty().filter(enough) =~= Seq::empty()) by {
        reveal(Seq::filter);
    }
    assert(sentences(text) =~= (if byte_len(sentence) > 15 {
        seq![sentence]
    } else {
        Seq::empty()
    }));
}

/// No sentence holds a full stop, an exclamation mark, a question mark or a line
/// break, and each has more than fifteen bytes.
pub proof fn law_no_sentence_holds_a_mark(content: Seq<char>, i: int, j: int)
    requires
        0 <= i < sentences(content).len(),
        0 <= j < sentences(content)[i].len(),
    ensures
        sentences(content)[i][j] != '.',
        sentences(content)[i][j] != '!',
        sentences(content)[i][j] != '?',
        sentences(content)[i][j] != '\n',
        encode_utf8(sentences(content)[i]).len() > 15,
{
    let cut = |c: char| ends_sentence(c);
    let enough = |sentence: Seq<char>| byte_len(sentence) > 15;
    let parts = crate::text::pieces(content, cut);
    let trimmed_parts = parts.map_values(|piece: Seq<char>| crate::text::trimmed(piece));
    let sentence = sentences(content)[i];
    assert(sentences(content).contains(sentence));
    trimmed_parts.lemma_filter_contains_rev(enough, sentence);
    trimmed_parts.lemma_filter_pred(enough, i);
    let k = trimmed_parts.index_of(sentence);
    assert(sentence == crate::text::trimmed(parts[k]));
    crate::text::law_only_white_space_is_trimmed(parts[k]);
    let (from, to) = choose|from: int, to: int|
        0 <= from <= to <= parts[k].len() && sentence == #[trigger] parts[k].subrange(from, to);
    assert(sentence[j] == parts[k][from + j]);
    crate::text::law_no_piece_holds_a_cut(content, cut, k, from + j);
}

/// Each stretch of the content from a mark, or the start, to the next mark, or
/// the end, is a sentence, where it has more than fifteen bytes without the white
/// space round it.
pub proof fn law_each_stretch_is_a_sentence(content: Seq<char>, from: int, to: int)
    requires
        0 <= from <= to <= content.len(),
        from == 0 || content[from - 1] == '.' || content[from - 1] == '!' || content[from - 1]
            == '?' || content[from - 1] == '\n',
        to == content.len() || content[to] == '.' || content[to] == '!' || content[to] == '?'
            || content[to] == '\n',
        forall|i: int|
            from <= i < to ==> #[trigger] content[i] != '.' && content[i] != '!' && content[i]
                != '?' && content[i] != '\n',
        encode_utf8(crate::text::trimmed(content.subrange(from, to))).len() > 15,
    ensures
        sentences(content).contains(crate::text::trimmed(content.subrange(from, to))),
{
    let cut = |c: char| ends_sentence(c);
    let enough = |sentence: Seq<char>| byte_len(sentence) > 15;
    let stretch = content.subrange(from, to);
    let parts = crate::text::pieces(content, cut);
    let trimmed_parts = parts.map_values(|piece: Seq<char>| crate::text::trimmed(piece));
    crate::text::law_each_stretch_is_a_piece(content, cut, from, to);
    let k = parts.index_of(stretch);
    assert(trimmed_parts[k] == crate::text::trimmed(stretch));
    trimmed_parts.lemma_filter_contains(enough, k);
}

/// What is cut short holds what was there, and dots.
proof fn lemma_cut_text_holds(text: Seq<char>, max: int, j: int)
    requires
        0 <= max,
        0 <= j < truncated(text, max).len(),
    ensures
        truncated(text, max)[j] == '.' || (j < text.len() && truncated(text, max)[j] == text[j]),
{
    law_only_the_start_is_kept(text, max);
    if text.len() > max {
        let k = choose|k: int|
            0 <= k <= max && truncated(text, max) == #[trigger] text.take(k)
                + seq!['.', '.', '.'];
        if j < k {
            assert(truncated(text, max)[j] == text.take(k)[j]);
        }
    }
}

/// The summary of prose never holds a line break, an exclamation mark or a
/// question mark.
pub proof fn law_prose_digest_is_one_line(
    content: Seq<char>,
    language: Seq<char>,
    weights: Seq<u64>,
    j: int,
)
    requires
        language == "text"@ || language == "n/a"@,
        digest_of(content, language, weights) matches Some(digest) && 0 <= j < digest.len(),
    ensures
        digest_of(content, language, weights)->0[j] != '\n',
        digest_of(content, language, weights)->0[j] != '!',
        digest_of(content, language, weights)->0[j] != '?',
{
    let i = if sentences(content).len() > 1 {
        match heaviest_sentence(sentence_words(content), weights) {
            Some(i) => i,
            None => 0,
        }
    } else {
        0
    };
    if sentences(content).len() > 1 {
        if let Some(k) = heaviest_sentence(sentence_words(content), weights) {
            assert(heaviest(sentence_words(content), weights, k));
        }
    }
    lemma_cut_text_holds(sentences(content)[i], SHOWN as int, j);
    if j < sentences(content)[i].len() {
        law_no_sentence_holds_a_mark(content, i, j);
    }
}

/// A word is cleaned of all but letters and digits, which stay in their order, in
/// lower case.
pub proof fn law_letters_and_digits_stay(word: Seq<char>, k: int)
    requires
        0 <= k <= crate::unicode::lowercase(word).len(),
    ensures
        forall|i: int|
            0 <= i < cleaned(word).len() ==> crate::unicode::alphanumeric(
                #[trigger] cleaned(word)[i],
            ),
        cleaned(word) == crate::unicode::lowercase(word).take(k).filter(
            |c: char| crate::unicode::alphanumeric(c),
        ) + crate::unicode::lowercase(word).skip(k).filter(
            |c: char| crate::unicode::alphanumeric(c),
        ),
        (forall|i: int|
            0 <= i < crate::unicode::lowercase(word).len() ==> crate::unicode::alphanumeric(
                #[trigger] crate::unicode::lowercase(word)[i],
            )) ==> cleaned(word) == crate::unicode::lowercase(word),
{
    let lower = crate::unicode::lowercase(word);
    let kept = |c: char| crate::unicode::alphanumeric(c);
    assert(lower =~= lower.take(k) + lower.skip(k));
    Seq::filter_distributes_over_add(lower.take(k), lower.skip(k), kept);
    assert forall|i: int| 0 <= i < cleaned(word).len() implies crate::unicode::alphanumeric(
        #[trigger] cleaned(word)[i],
    ) by {
        lower.lemma_filter_pred(kept, i);
    }
    if forall|i: int|
        0 <= i < lower.len() ==> crate::unicode::alphanumeric(#[trigger] lower[i]) {
        lemma_all_kept(lower, kept);
    }
}

/// Where all is kept, nothing changes.
proof fn lemma_all_kept(text: Seq<char>, kept: spec_fn(char) -> bool)
    requires
        forall|i: int| 0 <= i < text.len() ==> kept(#[trigger] text[i]),
    ensures
        text.filter(kept) == text,
    decreases text.len(),
{
    if text.len() > 0 {
        let front = text.drop_last();
        assert(forall|i: int| 0 <= i < front.len() ==> front[i] == text[i]);
        lemma_all_kept(front, kept);
        assert(text =~= front.push(text.last()));
        assert(kept(text[text.len() - 1]));
        front.lemma_filter_push(text.last(), kept);
    } else {
        assert(text.filter(kept) =~= text) by {
            reveal(Seq::filter);
        }
    }
}

/// Every sentence is taken with all its words, each cleaned.
pub proof fn law_every_word_of_every_sentence_is_cleaned(
    content: Seq<char>,
    i: int,
    j: int,
    words: Seq<Vec<String>>,
)
    ensures
        sentence_words(content).len() == sentences(content).len(),
        0 <= i < sentences(content).len() ==> sentence_words(content)[i].len()
            == crate::text::words(sentences(content)[i]).len(),
        0 <= i < sentences(content).len() && 0 <= j < sentence_words(content)[i].len()
            ==> sentence_words(content)[i][j] == cleaned(
            crate::text::words(sentences(content)[i])[j],
        ),
        word_lists(words).len() == words.len(),
        0 <= i < words.len() ==> word_lists(words)[i].len() == words[i]@.len(),
        0 <= i < words.len() && 0 <= j < words[i]@.len() ==> word_lists(words)[i][j]
            == words[i]@[j]@,
{
}

/// Words of two bytes or fewer are passed over, and longer ones stay in their
/// order.
pub proof fn law_short_words_are_passed_over(list: Seq<Seq<char>>, word: Seq<char>)
    ensures
        long_words(Seq::empty()).len() == 0,
        encode_utf8(word).len() > 2 ==> long_words(list.push(word)) == long_words(list).push(word),
        encode_utf8(word).len() <= 2 ==> long_words(list.push(word)) == long_words(list),
{
    let long = |word: Seq<char>| is_long(word);
    list.lemma_filter_push(word, long);
    assert(Seq::<Seq<char>>::empty().filter(long) =~= Seq::empty()) by {
        reveal(Seq::filter);
    }
}

/// Words that are too common never count, however often they stand there.
pub proof fn law_common_words_do_not_count(list: Seq<Seq<char>>)
    ensures
        frequency(list, "the"@) == 0,
        frequency(list, "and"@) == 0,
        frequency(list, "for"@) == 0,
        frequency(list, "are"@) == 0,
        frequency(list, "but"@) == 0,
        frequency(list, "not"@) == 0,
        frequency(list, "you"@) == 0,
        frequency(list, "all"@) == 0,
        frequency(list, "can"@) == 0,
        frequency(list, "her"@) == 0,
        frequency(list, "was"@) == 0,
        frequency(list, "one"@) == 0,
        frequency(list, "our"@) == 0,
        frequency(list, "out"@) == 0,
        frequency(list, "day"@) == 0,
        frequency(list, "get"@) == 0,
        frequency(list, "has"@) == 0,
        frequency(list, "him"@) == 0,
        frequency(list, "his"@) == 0,
        frequency(list, "how"@) == 0,
        frequency(list, "man"@) == 0,
        frequency(list, "new"@) == 0,
        frequency(list, "now"@) == 0,
        frequency(list, "old"@) == 0,
        frequency(list, "see"@) == 0,
        frequency(list, "two"@) == 0,
        frequency(list, "way"@) == 0,
        frequency(list, "who"@) == 0,
        frequency(list, "boy"@) == 0,
        frequency(list, "did"@) == 0,
        frequency(list, "its"@) == 0,
        frequency(list, "let"@) == 0,
        frequency(list, "put"@) == 0,
        frequency(list, "say"@) == 0,
        frequency(list, "she"@) == 0,
        frequency(list, "too"@) == 0,
        frequency(list, "use"@) == 0,
        frequency(list, "that"@) == 0,
        frequency(list, "with"@) == 0,
        frequency(list, "this"@) == 0,
        frequency(list, "have"@) == 0,
        frequency(list, "from"@) == 0,
        frequency(list, "they"@) == 0,
        frequency(list, "will"@) == 0,
        frequency(list, "would"@) == 0,
        frequency(list, "there"@) == 0,
        frequency(list, "their"@) == 0,
        frequency(list, "what"@) == 0,
        frequency(list, "about"@) == 0,
        frequency(list, "which"@) == 0,
        frequency(list, "when"@) == 0,
        frequency(list, "make"@) == 0,
        frequency(list, "like"@) == 0,
        frequency(list, "time"@) == 0,
        frequency(list, "just"@) == 0,
        frequency(list, "into"@) == 0,
        frequency(list, "than"@) == 0,
        frequency(list, "then"@) == 0,
        frequency(list, "them"@) == 0,
        frequency(list, "these"@) == 0,
        frequency(list, "some"@) == 0,
        frequency(list, "could"@) == 0,
        frequency(list, "your"@) == 0,
{
    assert(stopwords()[0] == "the"@);
    assert(stopwords()[1] == "and"@);
    assert(stopwords()[2] == "for"@);
    assert(stopwords()[3] == "are"@);
    assert(stopwords()[4] == "but"@);
    assert(stopwords()[5] == "not"@);
    assert(stopwords()[6] == "you"@);
    assert(stopwords()[7] == "all"@);
    assert(stopwords()[8] == "can"@);
    assert(stopwords()[9] == "her"@);
    assert(stopwords()[10] == "was"@);
    assert(stopwords()[11] == "one"@);
    assert(stopwords()[12] == "our"@);
    assert(stopwords()[13] == "out"@);
    assert(stopwords()[14] == "day"@);
    assert(stopwords()[15] == "get"@);
    assert(stopwords()[16] == "has"@);
    assert(stopwords()[17] == "him"@);
    assert(stopwords()[18] == "his"@);
    assert(stopwords()[19] == "how"@);
    assert(stopwords()[20] == "man"@);
    assert(stopwords()[21] == "new"@);
    assert(stopwords()[22] == "now"@);
    assert(stopwords()[23] == "old"@);
    assert(stopwords()[24] == "see"@);
    assert(stopwords()[25] == "two"@);
    assert(stopwords()[26] == "way"@);
    assert(stopwords()[27] == "who"@);
    assert(stopwords()[28] == "boy"@);
    assert(stopwords()[29] == "did"@);
    assert(stopwords()[30] == "its"@);
    assert(stopwords()[31] == "let"@);
    assert(stopwords()[32] == "put"@);
    assert(stopwords()[33] == "say"@);
    assert(stopwords()[34] == "she"@);
    assert(stopwords()[35] == "too"@);
    assert(stopwords()[36] == "use"@);
    assert(stopwords()[37] == "that"@);
    assert(stopwords()[38] == "with"@);
    assert(stopwords()[39] == "this"@);
    assert(stopwords()[40] == "have"@);
    assert(stopwords()[41] == "from"@);
    assert(stopwords()[42] == "they"@);
    assert(stopwords()[43] == "will"@);
    assert(stopwords()[44] == "would"@);
    assert(stopwords()[45] == "there"@);
    assert(stopwords()[46] == "their"@);
    assert(stopwords()[47] == "what"@);
    assert(stopwords()[48] == "about"@);
    assert(stopwords()[49] == "which"@);
    assert(stopwords()[50] == "when"@);
    assert(stopwords()[51] == "make"@);
    assert(stopwords()[52] == "like"@);
    assert(stopwords()[53] == "time"@);
    assert(stopwords()[54] == "just"@);
    assert(stopwords()[55] == "into"@);
    assert(stopwords()[56] == "than"@);
    assert(stopwords()[57] == "then"@);
    assert(stopwords()[58] == "them"@);
    assert(stopwords()[59] == "these"@);
    assert(stopwords()[60] == "some"@);
    assert(stopwords()[61] == "could"@);
    assert(stopwords()[62] == "your"@);
    assert(stopwords().contains(stopwords()[0]));
    assert(stopwords().contains(stopwords()[1]));
    assert(stopwords().contains(stopwords()[2]));
    assert(stopwords().contains(stopwords()[3]));
    assert(stopwords().contains(stopwords()[4]));
    assert(stopwords().contains(stopwords()[5]));
    assert(stopwords().contains(stopwords()[6]));
    assert(stopwords().contains(stopwords()[7]));
    assert(stopwords().contains(stopwords()[8]));
    assert(stopwords().contains(stopwords()[9]));
    assert(stopwords().contains(stopwords()[10]));
    assert(stopwords().contains(stopwords()[11]));
    assert(stopwords().contains(stopwords()[12]));
    assert(stopwords().contains(stopwords()[13]));
    assert(stopwords().contains(stopwords()[14]));
    assert(stopwords().contains(stopwords()[15]));
    assert(stopwords().contains(stopwords()[16]));
    assert(stopwords().contains(stopwords()[17]));
    assert(stopwords().contains(stopwords()[18]));
    assert(stopwords().contains(stopwords()[19]));
    assert(stopwords().contains(stopwords()[20]));
    assert(stopwords().contains(stopwords()[21]));
    assert(stopwords().contains(stopwords()[22]));
    assert(stopwords().contains(stopwords()[23]));
    assert(stopwords().contains(stopwords()[24]));
    assert(stopwords().contains(stopwords()[25]));
    assert(stopwords().contains(stopwords()[26]));
    assert(stopwords().contains(stopwords()[27]));
    assert(stopwords().contains(stopwords()[28]));
    assert(stopwords().contains(stopwords()[29]));
    assert(stopwords().contains(stopwords()[30]));
    assert(stopwords().contains(stopwords()[31]));
    assert(stopwords().contains(stopwords()[32]));
    assert(stopwords().contains(stopwords()[33]));
    assert(stopwords().contains(stopwords()[34]));
    assert(stopwords().contains(stopwords()[35]));
    assert(stopwords().contains(stopwords()[36]));
    assert(stopwords().contains(stopwords()[37]));
    assert(stopwords().contains(stopwords()[38]));
    assert(stopwords().contains(stopwords()[39]));
    assert(stopwords().contains(stopwords()[40]));
    assert(stopwords().contains(stopwords()[41]));
    assert(stopwords().contains(stopwords()[42]));
    assert(stopwords().contains(stopwords()[43]));
    assert(stopwords().contains(stopwords()[44]));
    assert(stopwords().contains(stopwords()[45]));
    assert(stopwords().contains(stopwords()[46]));
    assert(stopwords().contains(stopwords()[47]));
    assert(stopwords().contains(stopwords()[48]));
    assert(stopwords().contains(stopwords()[49]));
    assert(stopwords().contains(stopwords()[50]));
    assert(stopwords().contains(stopwords()[51]));
    assert(stopwords().contains(stopwords()[52]));
    assert(stopwords().contains(stopwords()[53]));
    assert(stopwords().contains(stopwords()[54]));
    assert(stopwords().contains(stopwords()[55]));
    assert(stopwords().contains(stopwords()[56]));
    assert(stopwords().contains(stopwords()[57]));
    assert(stopwords().contains(stopwords()[58]));
    assert(stopwords().contains(stopwords()[59]));
    assert(stopwords().contains(stopwords()[60]));
    assert(stopwords().contains(stopwords()[61]));
    assert(stopwords().contains(stopwords()[62]));
}

/// Any other word of more than two bytes counts once for each time it stands
/// there, and the other words do not change that.
pub proof fn law_other_words_count_each_time(
    list: Seq<Seq<char>>,
    word: Seq<char>,
    added: Seq<char>,
)
    requires
        encode_utf8(word).len() > 2,
        word != "the"@,
        word != "and"@,
        word != "for"@,
        word != "are"@,
        word != "but"@,
        word != "not"@,
        word != "you"@,
        word != "all"@,
        word != "can"@,
        word != "her"@,
        word != "was"@,
        word != "one"@,
        word != "our"@,
        word != "out"@,
        word != "day"@,
        word != "get"@,
        word != "has"@,
        word != "him"@,
        word != "his"@,
        word != "how"@,
        word != "man"@,
        word != "new"@,
        word != "now"@,
        word != "old"@,
        word != "see"@,
        word != "two"@,
        word != "way"@,
        word != "who"@,
        word != "boy"@,
        word != "did"@,
        word != "its"@,
        word != "let"@,
        word != "put"@,
        word != "say"@,
        word != "she"@,
        word != "too"@,
        word != "use"@,
        word != "that"@,
        word != "with"@,
        word != "this"@,
        word != "have"@,
        word != "from"@,
        word != "they"@,
        word != "will"@,
        word != "would"@,
        word != "there"@,
        word != "their"@,
        word != "what"@,
        word != "about"@,
        word != "which"@,
        word != "when"@,
        word != "make"@,
        word != "like"@,
        word != "time"@,
        word != "just"@,
        word != "into"@,
        word != "than"@,
        word != "then"@,
        word != "them"@,
        word != "these"@,
        word != "some"@,
        word != "could"@,
        word != "your"@,
    ensures
        frequency(Seq::empty(), word) == 0,
        frequency(list.push(word), word) == frequency(list, word) + 1,
        added != word ==> frequency(list.push(added), word) == frequency(list, word),
{
    assert(stopwords()[0] == "the"@);
    assert(stopwords()[1] == "and"@);
    assert(stopwords()[2] == "for"@);
    assert(stopwords()[3] == "are"@);
    assert(stopwords()[4] == "but"@);
    assert(stopwords()[5] == "not"@);
    assert(stopwords()[6] == "you"@);
    assert(stopwords()[7] == "all"@);
    assert(stopwords()[8] == "can"@);
    assert(stopwords()[9] == "her"@);
    assert(stopwords()[10] == "was"@);
    assert(stopwords()[11] == "one"@);
    assert(stopwords()[12] == "our"@);
    assert(stopwords()[13] == "out"@);
    assert(stopwords()[14] == "day"@);
    assert(stopwords()[15] == "get"@);
    assert(stopwords()[16] == "has"@);
    assert(stopwords()[17] == "him"@);
    assert(stopwords()[18] == "his"@);
    assert(stopwords()[19] == "how"@);
    assert(stopwords()[20] == "man"@);
    assert(stopwords()[21] == "new"@);
    assert(stopwords()[22] == "now"@);
    assert(stopwords()[23] == "old"@);
    assert(stopwords()[24] == "see"@);
    assert(stopwords()[25] == "two"@);
    assert(stopwords()[26] == "way"@);
    assert(stopwords()[27] == "who"@);
    assert(stopwords()[28] == "boy"@);
    assert(stopwords()[29] == "did"@);
    assert(stopwords()[30] == "its"@);
    assert(stopwords()[31] == "let"@);
    assert(stopwords()[32] == "put"@);
    assert(stopwords()[33] == "say"@);
    assert(stopwords()[34] == "she"@);
    assert(stopwords()[35] == "too"@);
    assert(stopwords()[36] == "use"@);
    assert(stopwords()[37] == "that"@);
    assert(stopwords()[38] == "with"@);
    assert(stopwords()[39] == "this"@);
    assert(stopwords()[40] == "have"@);
    assert(stopwords()[41] == "from"@);
    assert(stopwords()[42] == "they"@);
    assert(stopwords()[43] == "will"@);
    assert(stopwords()[44] == "would"@);
    assert(stopwords()[45] == "there"@);
    assert(stopwords()[46] == "their"@);
    assert(stopwords()[47] == "what"@);
    assert(stopwords()[48] == "about"@);
    assert(stopwords()[49] == "which"@);
    assert(stopwords()[50] == "when"@);
    assert(stopwords()[51] == "make"@);
    assert(stopwords()[52] == "like"@);
    assert(stopwords()[53] == "time"@);
    assert(stopwords()[54] == "just"@);
    assert(stopwords()[55] == "into"@);
    assert(stopwords()[56] == "than"@);
    assert(stopwords()[57] == "then"@);
    assert(stopwords()[58] == "them"@);
    assert(stopwords()[59] == "these"@);
    assert(stopwords()[60] == "some"@);
    assert(stopwords()[61] == "could"@);
    assert(stopwords()[62] == "your"@);
    assert(!stopwords().contains(word));
    lemma_frequency_push(list, word, word);
    lemma_frequency_push(list, added, word);
    assert(Seq::<Seq<char>>::empty().filter(equals(word)) =~= Seq::empty()) by {
        reveal(Seq::filter);
    }
}

/// The score of a sentence grows with each of its long words by how often that
/// word stands in all the sentences together.
pub proof fn law_each_long_word_adds_its_frequency(
    list: Seq<Seq<char>>,
    picked: Seq<Seq<char>>,
    word: Seq<char>,
    words: Seq<Seq<Seq<char>>>,
    i: int,
)
    ensures
        total_frequency(list, Seq::empty()) == 0,
        total_frequency(list, picked.push(word)) == total_frequency(list, picked) + frequency(
            list,
            word,
        ),
        raw_score(words, i) == total_frequency(words.flatten(), long_words(words[i])),
{
    assert(picked.push(word).drop_last() =~= picked);
    words.lemma_flatten_and_flatten_alt_are_equivalent();
}

/// A sentence with a long word is chosen where there is one: no other is heavier,
/// and none before it is as heavy.
pub proof fn law_heaviest_sentence_is_chosen(words: Seq<Seq<Seq<char>>>, weights: Seq<u64>, j: int)
    requires
        0 <= j < words.len(),
        long_words(words[j]).len() > 0,
    ensures
        heaviest_sentence(words, weights) matches Some(i) && 0 <= i < words.len() && long_words(
            words[i],
        ).len() > 0 && weights[j] <= weights[i] && (j < i ==> weights[j] < weights[i]),
{
    lemma_some_heaviest(words, weights, words.len() as int, j);
    let i = choose|i: int| #[trigger] heaviest(words, weights, i);
    assert(words[j] == words[j]);
}

/// Among the first sentences one is the heaviest, where one has a long word.
proof fn lemma_some_heaviest(words: Seq<Seq<Seq<char>>>, weights: Seq<u64>, n: int, j: int)
    requires
        0 <= j < n <= words.len(),
        long_words(words[j]).len() > 0,
    ensures
        exists|i: int| #[trigger] heaviest(words.take(n), weights, i),
        n == words.len() ==> exists|i: int| #[trigger] heaviest(words, weights, i),
    decreases n,
{
    let start = words.take(n);
    let last = n - 1;
    assert(start[last] == words[last] && start[j] == words[j]);
    if exists|k: int| 0 <= k < last && long_words(#[trigger] words[k]).len() > 0 {
        let k = choose|k: int| 0 <= k < last && long_words(#[trigger] words[k]).len() > 0;
        lemma_some_heaviest(words, weights, last, k);
        let shorter = words.take(last);
        let i = choose|i: int| #[trigger] heaviest(shorter, weights, i);
        assert(forall|m: int| 0 <= m < last ==> #[trigger] start[m] == shorter[m]);
        assert(shorter[i] == start[i]);
        assert(forall|m: int| 0 <= m < last ==> #[trigger] shorter[m] == start[m]);
        if long_words(words[last]).len() > 0 && weights[last] > weights[i] {
            assert(heaviest(start, weights, last));
        } else {
            assert(heaviest(start, weights, i));
        }
    } else {
        assert(j == last);
        assert forall|m: int| 0 <= m < last implies long_words(#[trigger] start[m]).len() == 0 by {
            assert(start[m] == words[m]);
        }
        assert(heaviest(start, weights, last));
    }
    if n == words.len() {
        assert(start =~= words);
    }
}

/// Content of fewer than two hundred characters has no summary, and of code the
/// lines are counted.
pub proof fn law_code_is_counted(content: Seq<char>, language: Seq<char>, weights: Seq<u64>)
    ensures
        content.len() < 200 ==> digest_of(content, language, weights) is None,
        content.len() >= 200 && language != "text"@ && language != "n/a"@ ==> digest_of(
            content,
            language,
            weights,
        ) == Some(
            crate::number::decimal(line_count(content)) + " lines of "@ + language + " code"@,
        ),
{
}

/// Of prose the heaviest sentence is shown, the first of several; the first one
/// where none has a long word; and none where there is no sentence.
pub proof fn law_heaviest_sentence_is_shown(
    content: Seq<char>,
    language: Seq<char>,
    weights: Seq<u64>,
    i: int,
)
    requires
        content.len() >= 200,
        language == "text"@ || language == "n/a"@,
    ensures
        sentences(content).len() == 0 ==> digest_of(content, language, weights) is None,
        sentences(content).len() == 1 ==> digest_of(content, language, weights) == Some(
            truncated(sentences(content)[0], 140),
        ),
        sentences(content).len() > 1 && (forall|j: int|
            0 <= j < sentences(content).len() ==> long_words(
                #[trigger] sentence_words(content)[j],
            ).len() == 0) ==> digest_of(content, language, weights) == Some(
            truncated(sentences(content)[0], 140),
        ),
        sentences(content).len() > 1 && 0 <= i < sentences(content).len() && long_words(
            sentence_words(content)[i],
        ).len() > 0 && (forall|j: int|
            0 <= j < sentences(content).len() && long_words(
                #[trigger] sentence_words(content)[j],
            ).len() > 0 ==> weights[j] <= weights[i] && (j < i ==> weights[j] < weights[i]))
            ==> digest_of(content, language, weights) == Some(
            truncated(sentences(content)[i], 140),
        ),
{
    let words = sentence_words(content);
    if exists|k: int| #[trigger] heaviest(words, weights, k) {
        let k = choose|k: int| #[trigger] heaviest(words, weights, k);
        assert(words[k] == words[k]);
        if 0 <= i < words.len() {
            assert(words[i] == words[i]);
        }
    } else if 0 <= i < words.len() && long_words(words[i]).len() > 0 {
        law_heaviest_sentence_is_chosen(words, weights, i);
    }
}

/// A summary is the one over the weights that `weigh` gives: each sentence with a
/// long word is weighed by its score and by the number of its long words.
pub proof fn law_summary_goes_by_the_weights<F: Fn(u128, usize) -> u64>(
    weigh: F,
    content: Seq<char>,
    language: Seq<char>,
    digest: Option<Seq<char>>,
)
    requires
        is_digest(weigh, content, language, digest),
    ensures
        exists|weights: Seq<u64>|
            digest == #[trigger] digest_of(content, language, weights) && (content.len() >= 200
                && (language == "text"@ || language == "n/a"@) && sentences(content).len() > 1
                ==> weights.len() == sentences(content).len() && forall|i: int|
                0 <= i < sentences(content).len() && long_words(sentence_words(content)[i]).len()
                    > 0 ==> weigh.ensures(
                    (
                        raw_score(sentence_words(content), i) as u128,
                        long_words(sentence_words(content)[i]).len() as usize,
                    ),
                    #[trigger] weights[i],
                )),
        is_function(weigh) <==> forall|raw: u128, n: usize, a: u64, b: u64| #[trigger]
            weigh.ensures((raw, n), a) && #[trigger] weigh.ensures((raw, n), b) ==> a == b,
{
    if is_ranked(content, language) {
        let weights = choose|weights: Seq<u64>| #[trigger]
            weighed(weigh, sentence_words(content), weights) && digest == digest_of(
                content,
                language,
                weights,
            );
        assert(digest == digest_of(content, language, weights));
    } else {
        assert(digest == digest_of(content, language, Seq::empty()));
    }
}

/// Where no sentence has a long word, none is chosen.
pub proof fn law_no_long_word_no_choice(words: Seq<Seq<Seq<char>>>, weights: Seq<u64>)
    requires
        forall|i: int| 0 <= i < words.len() ==> long_words(#[trigger] words[i]).len() == 0,
    ensures
        heaviest_sentence(words, weights) is None,
{
    assert forall|i: int| !#[trigger] heaviest(words, weights, i) by {
        if 0 <= i < words.len() {
            assert(long_words(words[i]).len() == 0);
        }
    }
}

} // verus!
