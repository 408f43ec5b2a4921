//! Which language a clip is written in, told by typical fragments.

use vstd::prelude::*;

use crate::text::{chars_of, contains_chars};

verus! {

/// A language, and the fragments that are typical of it.
pub struct LanguageRule {
    pub language: &'static str,
    pub patterns: Vec<&'static str>,
}

impl View for LanguageRule {
    type V = (Seq<char>, Seq<Seq<char>>);

    open spec fn view(&self) -> (Seq<char>, Seq<Seq<char>>) {
        (self.language@, literals(self.patterns@))
    }
}

/// What each of `parts` holds.
pub open spec fn literals(parts: Seq<&'static str>) -> Seq<Seq<char>> {
    parts.map_values(|part: &'static str| part@)
}

/// The languages that are known, each with its fragments, in the order in
/// which they are tried.
pub open spec fn rules() -> Seq<(Seq<char>, Seq<Seq<char>>)> {
    seq![
        (
            "python"@,
            seq!["def "@, "import "@, "elif "@, "self."@, "print("@, "    return"@],
        ),
        (
            "rust"@,
            seq!["fn "@, "let mut"@, "impl "@, "use std::"@, "->"@, "println!"@],
        ),
        (
            "javascript"@,
            seq!["function "@, "const "@, "=>"@, "console.log"@, "let "@, "require("@],
        ),
        ("typescript"@, seq!["interface "@, ": string"@, ": number"@, "export type"@]),
        ("java"@, seq!["public class"@, "public static void main"@, "System.out.println"@]),
        ("c"@, seq!["#include <stdio.h>"@, "int main("@, "printf("@]),
        ("cpp"@, seq!["#include <iostream>"@, "std::"@, "cout <<"@]),
        ("csharp"@, seq!["using System;"@, "Console.WriteLine"@, "public class"@]),
        ("php"@, seq!["<?php"@, "$this->"@, "echo "@]),
        ("sql"@, seq!["SELECT "@, "FROM "@, "WHERE "@, "INSERT INTO"@]),
        ("html"@, seq!["<!DOCTYPE"@, "<div"@, "<html"@]),
        ("css"@, seq!["{"@, "px;"@, "color:"@]),
        ("shell"@, seq!["#!/bin/bash"@, "#!/bin/sh"@, "echo $"@]),
        ("json"@, seq!["{\""@, "\":"@, "null,"@]),
    ]
}

/// How many of `patterns` stand in `content`.
pub open spec fn score(content: Seq<char>, patterns: Seq<Seq<char>>) -> nat
    decreases patterns.len(),
{
    if patterns.len() == 0 {
        0
    } else {
        score(content, patterns.drop_last()) + if crate::text::contains(content, patterns.last()) {
            1nat
        } else {
            0nat
        }
    }
}

/// The rule at `i` wins on `content`: two or more of its fragments stand there,
/// more than of any rule before it and no fewer than of any rule behind it.
pub open spec fn wins(content: Seq<char>, i: int) -> bool {
    &&& 0 <= i < rules().len()
    &&& score(content, rules()[i].1) >= 2
    &&& forall|j: int|
        0 <= j < i ==> score(content, (#[trigger] rules()[j]).1) < score(content, rules()[i].1)
    &&& forall|j: int|
        i <= j < rules().len() ==> score(content, (#[trigger] rules()[j]).1) <= score(
            content,
            rules()[i].1,
        )
}

/// The language of `content`: that of the rule that wins, or plain text.
pub open spec fn language_of(content: Seq<char>) -> Seq<char> {
    if exists|i: int| #[trigger] wins(content, i) {
        rules()[choose|i: int| #[trigger] wins(content, i)].0
    } else {
        "text"@
    }
}

/// At most one rule wins.
pub proof fn law_one_rule_wins(content: Seq<char>, i: int, j: int)
    requires
        wins(content, i),
        wins(content, j),
    ensures
        i == j,
        language_of(content) == rules()[i].0,
{
    let k = choose|k: int| #[trigger] wins(content, k);
    assert(rules()[i] == rules()[i] && rules()[j] == rules()[j] && rules()[k] == rules()[k]);
}

/// The languages that are known.
fn language_rules() -> (list: Vec<LanguageRule>)
    ensures
        list@.map_values(|rule: LanguageRule| rule@) == rules(),
{
    let list = vec![
        LanguageRule {
            language: "python",
            patterns: vec!["def ", "import ", "elif ", "self.", "print(", "    return"],
        },
        LanguageRule {
            language: "rust",
            patterns: vec!["fn ", "let mut", "impl ", "use std::", "->", "println!"],
        },
        LanguageRule {
            language: "javascript",
            patterns: vec!["function ", "const ", "=>", "console.log", "let ", "require("],
        },
        LanguageRule {
            language: "typescript",
            patterns: vec!["interface ", ": string", ": number", "export type"],
        },
        LanguageRule {
            language: "java",
            patterns: vec!["public class", "public static void main", "System.out.println"],
        },
        LanguageRule {
            language: "c",
            patterns: vec!["#include <stdio.h>", "int main(", "printf("],
        },
        LanguageRule {
            language: "cpp",
            patterns: vec!["#include <iostream>", "std::", "cout <<"],
        },
        LanguageRule {
            language: "csharp",
            patterns: vec!["using System;", "Console.WriteLine", "public class"],
        },
        LanguageRule { language: "php", patterns: vec!["<?php", "$this->", "echo "] },
        LanguageRule {
            language: "sql",
            patterns: vec!["SELECT ", "FROM ", "WHERE ", "INSERT INTO"],
        },
        LanguageRule { language: "html", patterns: vec!["<!DOCTYPE", "<div", "<html"] },
        LanguageRule { language: "css", patterns: vec!["{", "px;", "color:"] },
        LanguageRule { language: "shell", patterns: vec!["#!/bin/bash", "#!/bin/sh", "echo $"] },
        LanguageRule { language: "json", patterns: vec!["{\"", "\":", "null,"] },
    ];
    proof {
        let found = list@.map_values(|rule: LanguageRule| rule@);
        assert(found.len() == rules().len());
        assert forall|i: int| 0 <= i < rules().len() implies #[trigger] found[i] == rules()[i] by {
            assert(found[i].1 =~= rules()[i].1);
        }
        assert(found =~= rules());
    }
    list
}

/// How many of `patterns` stand in `content`.
fn count_patterns(content: &[char], patterns: &Vec<&'static str>) -> (n: usize)
    ensures
        n == score(content@, literals(patterns@)),
{
    let ghost all = literals(patterns@);
    let mut n: usize = 0;
    for i in 0..patterns.len()
        invariant
            all == literals(patterns@),
            n <= i,
            n == score(content@, all.take(i as int)),
    {
        let pattern = chars_of(patterns[i]);
        assert(all.take(i + 1).drop_last() =~= all.take(i as int));
        assert(all.take(i + 1).last() == pattern@);
        if contains_chars(content, pattern.as_slice()) {
            n += 1;
        }
    }
    assert(all.take(all.len() as int) =~= all);
    n
}

/// The language of `content`: the one with the most typical fragments in it,
/// the first such one of several, where there are two fragments or more.
pub fn detect_language(content: &str) -> (language: String)
    ensures
        language@ == language_of(content@),
{
    let chars = chars_of(content);
    let list = language_rules();
    let mut best: usize = 0;
    let mut best_score: usize = 0;
    for i in 0..list.len()
        invariant
            chars@ == content@,
            list@.map_values(|rule: LanguageRule| rule@) == rules(),
            best_score > 0 ==> best < i && best_score == score(content@, rules()[best as int].1),
            forall|j: int|
                0 <= j < i ==> score(content@, (#[trigger] rules()[j]).1) <= best_score,
            best_score > 0 ==> forall|j: int|
                0 <= j < best ==> score(content@, (#[trigger] rules()[j]).1) < best_score,
    {
        assert(rules()[i as int] == list@[i as int]@);
        let found = count_patterns(chars.as_slice(), &list[i].patterns);
        if found > best_score {
            best_score = found;
            best = i;
        }
    }
    if best_score >= 2 {
        proof {
            assert(rules()[best as int] == list@[best as int]@);
            assert(wins(content@, best as int));
            let i = choose|i: int| #[trigger] wins(content@, i);
            law_one_rule_wins(content@, best as int, i);
        }
        list[best].language.to_string()
    } else {
        assert forall|i: int| !#[trigger] wins(content@, i) by {
            if wins(content@, i) {
                assert(score(content@, rules()[i].1) <= best_score);
            }
        }
        "text".to_string()
    }
}

/// One where `pattern` stands in `content`, else nothing.
pub open spec fn standing(content: Seq<char>, pattern: Seq<char>) -> nat {
    if crate::text::contains(content, pattern) {
        1
    } else {
        0
    }
}

/// The score over three fragments.
proof fn lemma_score_of_3(content: Seq<char>, a: Seq<char>, b: Seq<char>, c: Seq<char>)
    ensures
        score(content, seq![a, b, c]) == standing(content, a) + standing(content, b) + standing(content, c),
{
    reveal_with_fuel(score, 4);
    assert(seq![a, b, c].drop_last() =~= seq![a, b]);
    assert(seq![a, b].drop_last() =~= seq![a]);
    assert(seq![a].drop_last() =~= Seq::empty());
}

/// The score over four fragments.
proof fn lemma_score_of_4(content: Seq<char>, a: Seq<char>, b: Seq<char>, c: Seq<char>, d: Seq<char>)
    ensures
        score(content, seq![a, b, c, d]) == standing(content, a) + standing(content, b) + standing(content, c) + standing(content, d),
{
    reveal_with_fuel(score, 5);
    assert(seq![a, b, c, d].drop_last() =~= seq![a, b, c]);
    assert(seq![a, b, c].drop_last() =~= seq![a, b]);
    assert(seq![a, b].drop_last() =~= seq![a]);
    assert(seq![a].drop_last() =~= Seq::empty());
}

/// The score over six fragments.
proof fn lemma_score_of_6(content: Seq<char>, a: Seq<char>, b: Seq<char>, c: Seq<char>, d: Seq<char>, e: Seq<char>, f: Seq<char>)
    ensures
        score(content, seq![a, b, c, d, e, f]) == standing(content, a) + standing(content, b) + standing(content, c) + standing(content, d) + standing(content, e) + standing(content, f),
{
    reveal_with_fuel(score, 7);
    assert(seq![a, b, c, d, e, f].drop_last() =~= seq![a, b, c, d, e]);
    assert(seq![a, b, c, d, e].drop_last() =~= seq![a, b, c, d]);
    assert(seq![a, b, c, d].drop_last() =~= seq![a, b, c]);
    assert(seq![a, b, c].drop_last() =~= seq![a, b]);
    assert(seq![a, b].drop_last() =~= seq![a]);
    assert(seq![a].drop_last() =~= Seq::empty());
}

/// How much speaks for each language: one for each of its fragments that stands
/// in the content, wherever and however often.
pub proof fn law_fragments_speak_for_a_language(content: Seq<char>)
    ensures
        rules().len() == 14,
        rules()[0].0 == "python"@,
        score(content, rules()[0].1) == standing(content, "def "@)
            + standing(content, "import "@)
            + standing(content, "elif "@)
            + standing(content, "self."@)
            + standing(content, "print("@)
            + standing(content, "    return"@),
        rules()[1].0 == "rust"@,
        score(content, rules()[1].1) == standing(content, "fn "@)
            + standing(content, "let mut"@)
            + standing(content, "impl "@)
            + standing(content, "use std::"@)
            + standing(content, "->"@)
            + standing(content, "println!"@),
        rules()[2].0 == "javascript"@,
        score(content, rules()[2].1) == standing(content, "function "@)
            + standing(content, "const "@)
            + standing(content, "=>"@)
            + standing(content, "console.log"@)
            + standing(content, "let "@)
            + standing(content, "require("@),
        rules()[3].0 == "typescript"@,
        score(content, rules()[3].1) == standing(content, "interface "@)
            + standing(content, ": string"@)
            + standing(content, ": number"@)
            + standing(content, "export type"@),
        rules()[4].0 == "java"@,
        score(content, rules()[4].1) == standing(content, "public class"@)
            + standing(content, "public static void main"@)
            + standing(content, "System.out.println"@),
        rules()[5].0 == "c"@,
        score(content, rules()[5].1) == standing(content, "#include <stdio.h>"@)
            + standing(content, "int main("@)
            + standing(content, "printf("@),
        rules()[6].0 == "cpp"@,
        score(content, rules()[6].1) == standing(content, "#include <iostream>"@)
            + standing(content, "std::"@)
            + standing(content, "cout <<"@),
        rules()[7].0 == "csharp"@,
        score(content, rules()[7].1) == standing(content, "using System;"@)
            + standing(content, "Console.WriteLine"@)
            + standing(content, "public class"@),
        rules()[8].0 == "php"@,
        score(content, rules()[8].1) == standing(content, "<?php"@)
            + standing(content, "$this->"@)
            + standing(content, "echo "@),
        rules()[9].0 == "sql"@,
        score(content, rules()[9].1) == standing(content, "SELECT "@)
            + standing(content, "FROM "@)
            + standing(content, "WHERE "@)
            + standing(content, "INSERT INTO"@),
        rules()[10].0 == "html"@,
        score(content, rules()[10].1) == standing(content, "<!DOCTYPE"@)
            + standing(content, "<div"@)
            + standing(content, "<html"@),
        rules()[11].0 == "css"@,
        score(content, rules()[11].1) == standing(content, "{"@)
            + standing(content, "px;"@)
            + standing(content, "color:"@),
        rules()[12].0 == "shell"@,
        score(content, rules()[12].1) == standing(content, "#!/bin/bash"@)
            + standing(content, "#!/bin/sh"@)
            + standing(content, "echo $"@),
        rules()[13].0 == "json"@,
        score(content, rules()[13].1) == standing(content, "{\""@)
            + standing(content, "\":"@)
            + standing(content, "null,"@),
{
    lemma_score_of_6(content, "def "@, "import "@, "elif "@, "self."@, "print("@, "    return"@);
    lemma_score_of_6(content, "fn "@, "let mut"@, "impl "@, "use std::"@, "->"@, "println!"@);
    lemma_score_of_6(content, "function "@, "const "@, "=>"@, "console.log"@, "let "@, "require("@);
    lemma_score_of_4(content, "interface "@, ": string"@, ": number"@, "export type"@);
    lemma_score_of_3(content, "public class"@, "public static void main"@, "System.out.println"@);
    lemma_score_of_3(content, "#include <stdio.h>"@, "int main("@, "printf("@);
    lemma_score_of_3(content, "#include <iostream>"@, "std::"@, "cout <<"@);
    lemma_score_of_3(content, "using System;"@, "Console.WriteLine"@, "public class"@);
    lemma_score_of_3(content, "<?php"@, "$this->"@, "echo "@);
    lemma_score_of_4(content, "SELECT "@, "FROM "@, "WHERE "@, "INSERT INTO"@);
    lemma_score_of_3(content, "<!DOCTYPE"@, "<div"@, "<html"@);
    lemma_score_of_3(content, "{"@, "px;"@, "color:"@);
    lemma_score_of_3(content, "#!/bin/bash"@, "#!/bin/sh"@, "echo $"@);
    lemma_score_of_3(content, "{\""@, "\":"@, "null,"@);
}

/// A fragment that stands between other text counts, and one that does not stand
/// there counts nothing.
pub proof fn law_fragment_counts_anywhere(before: Seq<char>, pattern: Seq<char>, behind: Seq<char>)
    ensures
        standing(before + pattern + behind, pattern) == 1,
        standing(behind, pattern) <= 1,
        standing(behind, pattern) == 1 <==> crate::text::contains(behind, pattern),
{
    crate::text::lemma_found_between(before, pattern, behind);
}

/// The language for which most speaks is told, the first of several, where at
/// least two fragments speak for it.
pub proof fn law_language_with_most_fragments_is_told(content: Seq<char>, i: int)
    requires
        0 <= i < rules().len(),
        score(content, rules()[i].1) >= 2,
        forall|j: int|
            0 <= j < rules().len() ==> score(content, (#[trigger] rules()[j]).1) <= score(
                content,
                rules()[i].1,
            ),
        forall|j: int|
            0 <= j < i ==> score(content, (#[trigger] rules()[j]).1) != score(
                content,
                rules()[i].1,
            ),
    ensures
        language_of(content) == rules()[i].0,
{
    assert(wins(content, i));
    law_one_rule_wins(content, i, i);
}

/// Where fewer than two fragments speak for each language, the content is plain
/// text.
pub proof fn law_one_fragment_tells_no_language(content: Seq<char>)
    requires
        forall|j: int| 0 <= j < rules().len() ==> score(content, (#[trigger] rules()[j]).1) < 2,
    ensures
        language_of(content) == "text"@,
{
    assert forall|i: int| !#[trigger] wins(content, i) by {
        if wins(content, i) {
            assert(score(content, rules()[i].1) < 2);
        }
    }
}

} // verus!
