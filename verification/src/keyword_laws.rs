//! What holds of keyword routing: which texts lead to which tool, and with which parameters.

use vstd::prelude::*;

use crate::ceo_fallback::{
    ascii_lower, extracted, found_if_plain, group_behind, in_class, keyword_matches,
    keyword_routing, keyword_table, plain_regex, plain_words, plainly_found, regex_groups, run_end, spells,
    word_ends, words_end, Class, Tail,
};
use crate::json::{JsonView, NumberView};
use crate::laws::{law_first_row_decides, law_keywords_lead_to_a_matching_row};
use crate::text::{
    decimal, drop_white, int_value, joined, law_trim_ignores_surrounding_white_space, lemma_decimal,
    lemma_drop_white, lemma_skip_white, skip_white, trimmed, unsigned_part, white,
};

verus! {

// ---------------------------------------------------------------------------------------------
// The regexes of the table
// ---------------------------------------------------------------------------------------------

/// Whether the search for a text in each row of the keyword table found what its regex says, where
/// that is a plain one. Every search that keyword routing makes does.
pub open spec fn searches_are_plain(text: Seq<char>) -> bool {
    forall|i: int|
        0 <= i < keyword_table().len() ==> found_if_plain(
            (#[trigger] keyword_table()[i]).regex,
            text,
            regex_groups(keyword_table()[i].regex, text),
        )
}

/// The words that the regex of a row begins with.
pub open spec fn row_words(i: int) -> Seq<Seq<char>> {
    if i == 0 {
        seq!["health"@]
    } else if i == 1 {
        seq!["doctor"@]
    } else if i == 2 {
        seq!["list"@, "plan"@]
    } else if i == 3 {
        seq!["start"@, "plan"@]
    } else if i == 4 {
        seq!["cancel"@, "plan"@]
    } else if i == 5 {
        seq!["resume"@, "plan"@]
    } else if i == 6 {
        seq!["get"@, "plan"@]
    } else if i == 7 {
        seq!["validate"@, "plan"@]
    } else if i == 8 {
        seq!["spawn"@]
    } else if i == 9 {
        seq!["list"@, "agent"@]
    } else if i == 10 {
        seq!["list"@, "org"@]
    } else if i == 11 {
        seq!["search"@]
    } else if i == 12 {
        seq!["who"@]
    } else if i == 13 {
        seq!["status"@]
    } else if i == 14 {
        seq!["cost"@]
    } else {
        Seq::empty()
    }
}

/// The tail of the regex of a row.
pub open spec fn row_tail(i: int) -> Tail {
    if i == 3 || i == 4 || i == 5 || i == 6 || i == 7 {
        Tail::Number
    } else if i == 2 || i == 9 || i == 10 {
        Tail::Plural
    } else if i == 8 {
        Tail::Name
    } else if i == 11 {
        Tail::Rest
    } else {
        Tail::Bound
    }
}

/// One word is joined as it is, and two with the separator between them.
proof fn lemma_joined_words(a: Seq<char>, b: Seq<char>, separator: Seq<char>)
    ensures
        joined(seq![a], separator) == a,
        joined(seq![a, b], separator) == a + separator + b,
{
    assert(seq![a, b].drop_last() =~= seq![a]);
    assert(joined(seq![a], separator) == a);
}

/// What the words of the table spell.
proof fn lemma_word_chars()
    ensures
        "health"@ == seq!['h', 'e', 'a', 'l', 't', 'h'],
        "doctor"@ == seq!['d', 'o', 'c', 't', 'o', 'r'],
        "list"@ == seq!['l', 'i', 's', 't'],
        "plan"@ == seq!['p', 'l', 'a', 'n'],
        "start"@ == seq!['s', 't', 'a', 'r', 't'],
        "cancel"@ == seq!['c', 'a', 'n', 'c', 'e', 'l'],
        "resume"@ == seq!['r', 'e', 's', 'u', 'm', 'e'],
        "get"@ == seq!['g', 'e', 't'],
        "validate"@ == seq!['v', 'a', 'l', 'i', 'd', 'a', 't', 'e'],
        "spawn"@ == seq!['s', 'p', 'a', 'w', 'n'],
        "agent"@ == seq!['a', 'g', 'e', 'n', 't'],
        "org"@ == seq!['o', 'r', 'g'],
        "search"@ == seq!['s', 'e', 'a', 'r', 'c', 'h'],
        "who"@ == seq!['w', 'h', 'o'],
        "status"@ == seq!['s', 't', 'a', 't', 'u', 's'],
        "cost"@ == seq!['c', 'o', 's', 't'],
{
    reveal_strlit("health");
    reveal_strlit("doctor");
    reveal_strlit("list");
    reveal_strlit("plan");
    reveal_strlit("start");
    reveal_strlit("cancel");
    reveal_strlit("resume");
    reveal_strlit("get");
    reveal_strlit("validate");
    reveal_strlit("spawn");
    reveal_strlit("agent");
    reveal_strlit("org");
    reveal_strlit("search");
    reveal_strlit("who");
    reveal_strlit("status");
    reveal_strlit("cost");
    assert("health"@ =~= seq!['h', 'e', 'a', 'l', 't', 'h']);
    assert("doctor"@ =~= seq!['d', 'o', 'c', 't', 'o', 'r']);
    assert("list"@ =~= seq!['l', 'i', 's', 't']);
    assert("plan"@ =~= seq!['p', 'l', 'a', 'n']);
    assert("start"@ =~= seq!['s', 't', 'a', 'r', 't']);
    assert("cancel"@ =~= seq!['c', 'a', 'n', 'c', 'e', 'l']);
    assert("resume"@ =~= seq!['r', 'e', 's', 'u', 'm', 'e']);
    assert("get"@ =~= seq!['g', 'e', 't']);
    assert("validate"@ =~= seq!['v', 'a', 'l', 'i', 'd', 'a', 't', 'e']);
    assert("spawn"@ =~= seq!['s', 'p', 'a', 'w', 'n']);
    assert("agent"@ =~= seq!['a', 'g', 'e', 'n', 't']);
    assert("org"@ =~= seq!['o', 'r', 'g']);
    assert("search"@ =~= seq!['s', 'e', 'a', 'r', 'c', 'h']);
    assert("who"@ =~= seq!['w', 'h', 'o']);
    assert("status"@ =~= seq!['s', 't', 'a', 't', 'u', 's']);
    assert("cost"@ =~= seq!['c', 'o', 's', 't']);
}

/// The regex of row 0 is a plain one.
proof fn lemma_row_0()
    ensures
        keyword_table()[0].regex == plain_regex(row_words(0), row_tail(0)),
        plain_words(row_words(0)),
{
    lemma_word_chars();
    lemma_joined_words("health"@, "health"@, r"\s+"@);
    reveal_strlit("(?i)^");
    reveal_strlit(r"\s+");
    reveal_strlit(r"\b");
    reveal_strlit(r"(?i)^health\b");
    assert(r"(?i)^health\b"@ =~= "(?i)^"@ + joined(row_words(0), r"\s+"@) + r"\b"@);
}

/// The regex of row 1 is a plain one.
proof fn lemma_row_1()
    ensures
        keyword_table()[1].regex == plain_regex(row_words(1), row_tail(1)),
        plain_words(row_words(1)),
{
    lemma_word_chars();
    lemma_joined_words("doctor"@, "doctor"@, r"\s+"@);
    reveal_strlit("(?i)^");
    reveal_strlit(r"\s+");
    reveal_strlit(r"\b");
    reveal_strlit(r"(?i)^doctor\b");
    assert(r"(?i)^doctor\b"@ =~= "(?i)^"@ + joined(row_words(1), r"\s+"@) + r"\b"@);
}

/// The regex of row 2 is a plain one.
proof fn lemma_row_2()
    ensures
        keyword_table()[2].regex == plain_regex(row_words(2), row_tail(2)),
        plain_words(row_words(2)),
{
    lemma_word_chars();
    lemma_joined_words("list"@, "plan"@, r"\s+"@);
    reveal_strlit("(?i)^");
    reveal_strlit(r"\s+");
    reveal_strlit(r"s?\b");
    reveal_strlit(r"(?i)^list\s+plans?\b");
    assert(r"(?i)^list\s+plans?\b"@ =~= "(?i)^"@ + joined(row_words(2), r"\s+"@) + r"s?\b"@);
}

/// The regex of row 3 is a plain one.
proof fn lemma_row_3()
    ensures
        keyword_table()[3].regex == plain_regex(row_words(3), row_tail(3)),
        plain_words(row_words(3)),
{
    lemma_word_chars();
    lemma_joined_words("start"@, "plan"@, r"\s+"@);
    reveal_strlit("(?i)^");
    reveal_strlit(r"\s+");
    reveal_strlit(r"\s+(\d+)");
    reveal_strlit(r"(?i)^start\s+plan\s+(\d+)");
    assert(r"(?i)^start\s+plan\s+(\d+)"@ =~= "(?i)^"@ + joined(row_words(3), r"\s+"@) + r"\s+(\d+)"@);
}

/// The regex of row 4 is a plain one.
proof fn lemma_row_4()
    ensures
        keyword_table()[4].regex == plain_regex(row_words(4), row_tail(4)),
        plain_words(row_words(4)),
{
    lemma_word_chars();
    lemma_joined_words("cancel"@, "plan"@, r"\s+"@);
    reveal_strlit("(?i)^");
    reveal_strlit(r"\s+");
    reveal_strlit(r"\s+(\d+)");
    reveal_strlit(r"(?i)^cancel\s+plan\s+(\d+)");
    assert(r"(?i)^cancel\s+plan\s+(\d+)"@ =~= "(?i)^"@ + joined(row_words(4), r"\s+"@) + r"\s+(\d+)"@);
}

/// The regex of row 5 is a plain one.
proof fn lemma_row_5()
    ensures
        keyword_table()[5].regex == plain_regex(row_words(5), row_tail(5)),
        plain_words(row_words(5)),
{
    lemma_word_chars();
    lemma_joined_words("resume"@, "plan"@, r"\s+"@);
    reveal_strlit("(?i)^");
    reveal_strlit(r"\s+");
    reveal_strlit(r"\s+(\d+)");
    reveal_strlit(r"(?i)^resume\s+plan\s+(\d+)");
    assert(r"(?i)^resume\s+plan\s+(\d+)"@ =~= "(?i)^"@ + joined(row_words(5), r"\s+"@) + r"\s+(\d+)"@);
}

/// The regex of row 6 is a plain one.
proof fn lemma_row_6()
    ensures
        keyword_table()[6].regex == plain_regex(row_words(6), row_tail(6)),
        plain_words(row_words(6)),
{
    lemma_word_chars();
    lemma_joined_words("get"@, "plan"@, r"\s+"@);
    reveal_strlit("(?i)^");
    reveal_strlit(r"\s+");
    reveal_strlit(r"\s+(\d+)");
    reveal_strlit(r"(?i)^get\s+plan\s+(\d+)");
    assert(r"(?i)^get\s+plan\s+(\d+)"@ =~= "(?i)^"@ + joined(row_words(6), r"\s+"@) + r"\s+(\d+)"@);
}

/// The regex of row 7 is a plain one.
proof fn lemma_row_7()
    ensures
        keyword_table()[7].regex == plain_regex(row_words(7), row_tail(7)),
        plain_words(row_words(7)),
{
    lemma_word_chars();
    lemma_joined_words("validate"@, "plan"@, r"\s+"@);
    reveal_strlit("(?i)^");
    reveal_strlit(r"\s+");
    reveal_strlit(r"\s+(\d+)");
    reveal_strlit(r"(?i)^validate\s+plan\s+(\d+)");
    assert(r"(?i)^validate\s+plan\s+(\d+)"@ =~= "(?i)^"@ + joined(row_words(7), r"\s+"@) + r"\s+(\d+)"@);
}

/// The regex of row 8 is a plain one.
proof fn lemma_row_8()
    ensures
        keyword_table()[8].regex == plain_regex(row_words(8), row_tail(8)),
        plain_words(row_words(8)),
{
    lemma_word_chars();
    lemma_joined_words("spawn"@, "spawn"@, r"\s+"@);
    reveal_strlit("(?i)^");
    reveal_strlit(r"\s+");
    reveal_strlit(r"\s+(\S+)");
    reveal_strlit(r"(?i)^spawn\s+(\S+)");
    assert(r"(?i)^spawn\s+(\S+)"@ =~= "(?i)^"@ + joined(row_words(8), r"\s+"@) + r"\s+(\S+)"@);
}

/// The regex of row 9 is a plain one.
proof fn lemma_row_9()
    ensures
        keyword_table()[9].regex == plain_regex(row_words(9), row_tail(9)),
        plain_words(row_words(9)),
{
    lemma_word_chars();
    lemma_joined_words("list"@, "agent"@, r"\s+"@);
    reveal_strlit("(?i)^");
    reveal_strlit(r"\s+");
    reveal_strlit(r"s?\b");
    reveal_strlit(r"(?i)^list\s+agents?\b");
    assert(r"(?i)^list\s+agents?\b"@ =~= "(?i)^"@ + joined(row_words(9), r"\s+"@) + r"s?\b"@);
}

/// The regex of row 10 is a plain one.
proof fn lemma_row_10()
    ensures
        keyword_table()[10].regex == plain_regex(row_words(10), row_tail(10)),
        plain_words(row_words(10)),
{
    lemma_word_chars();
    lemma_joined_words("list"@, "org"@, r"\s+"@);
    reveal_strlit("(?i)^");
    reveal_strlit(r"\s+");
    reveal_strlit(r"s?\b");
    reveal_strlit(r"(?i)^list\s+orgs?\b");
    assert(r"(?i)^list\s+orgs?\b"@ =~= "(?i)^"@ + joined(row_words(10), r"\s+"@) + r"s?\b"@);
}

/// The regex of row 11 is a plain one.
proof fn lemma_row_11()
    ensures
        keyword_table()[11].regex == plain_regex(row_words(11), row_tail(11)),
        plain_words(row_words(11)),
{
    lemma_word_chars();
    lemma_joined_words("search"@, "search"@, r"\s+"@);
    reveal_strlit("(?i)^");
    reveal_strlit(r"\s+");
    reveal_strlit(r"\s+(.+)");
    reveal_strlit(r"(?i)^search\s+(.+)");
    assert(r"(?i)^search\s+(.+)"@ =~= "(?i)^"@ + joined(row_words(11), r"\s+"@) + r"\s+(.+)"@);
}

/// The regex of row 12 is a plain one.
proof fn lemma_row_12()
    ensures
        keyword_table()[12].regex == plain_regex(row_words(12), row_tail(12)),
        plain_words(row_words(12)),
{
    lemma_word_chars();
    lemma_joined_words("who"@, "who"@, r"\s+"@);
    reveal_strlit("(?i)^");
    reveal_strlit(r"\s+");
    reveal_strlit(r"\b");
    reveal_strlit(r"(?i)^who\b");
    assert(r"(?i)^who\b"@ =~= "(?i)^"@ + joined(row_words(12), r"\s+"@) + r"\b"@);
}

/// The regex of row 13 is a plain one.
proof fn lemma_row_13()
    ensures
        keyword_table()[13].regex == plain_regex(row_words(13), row_tail(13)),
        plain_words(row_words(13)),
{
    lemma_word_chars();
    lemma_joined_words("status"@, "status"@, r"\s+"@);
    reveal_strlit("(?i)^");
    reveal_strlit(r"\s+");
    reveal_strlit(r"\b");
    reveal_strlit(r"(?i)^status\b");
    assert(r"(?i)^status\b"@ =~= "(?i)^"@ + joined(row_words(13), r"\s+"@) + r"\b"@);
}

/// The regex of row 14 is a plain one.
proof fn lemma_row_14()
    ensures
        keyword_table()[14].regex == plain_regex(row_words(14), row_tail(14)),
        plain_words(row_words(14)),
{
    lemma_word_chars();
    lemma_joined_words("cost"@, "cost"@, r"\s+"@);
    reveal_strlit("(?i)^");
    reveal_strlit(r"\s+");
    reveal_strlit(r"\b");
    reveal_strlit(r"(?i)^cost\b");
    assert(r"(?i)^cost\b"@ =~= "(?i)^"@ + joined(row_words(14), r"\s+"@) + r"\b"@);
}

/// The regex of every row is a plain one.
#[verifier::rlimit(60)]
#[verifier::spinoff_prover]
proof fn lemma_rows(i: int)
    requires
        0 <= i < 15,
    ensures
        keyword_table()[i].regex == plain_regex(row_words(i), row_tail(i)),
        plain_words(row_words(i)),
{
    lemma_row_0();
    lemma_row_1();
    lemma_row_2();
    lemma_row_3();
    lemma_row_4();
    lemma_row_5();
    lemma_row_6();
    lemma_row_7();
    lemma_row_8();
    lemma_row_9();
    lemma_row_10();
    lemma_row_11();
    lemma_row_12();
    lemma_row_13();
    lemma_row_14();
}

/// What is found in a row is what its words and its tail say.
proof fn lemma_found(text: Seq<char>, i: int)
    requires
        searches_are_plain(text),
        0 <= i < 15,
    ensures
        plainly_found(row_words(i), row_tail(i), text, keyword_matches(text)[i]),
{
    lemma_rows(i);
    assert(found_if_plain(
        keyword_table()[i].regex,
        text,
        regex_groups(keyword_table()[i].regex, text),
    ));
    assert(plain_regex(row_words(i), row_tail(i)) == keyword_table()[i].regex);
}

/// Words that begin a text begin with the first of them.
proof fn lemma_first_word(words: Seq<Seq<char>>, text: Seq<char>)
    requires
        words_end(words, text) is Some,
    ensures
        words.len() > 0,
        spells(words[0], text, 0),
    decreases words.len(),
{
    if words.len() > 1 {
        lemma_first_word(words.drop_last(), text);
        assert(words.drop_last()[0] == words[0]);
    }
}

/// No text begins with the words of two rows.
#[verifier::rlimit(60)]
#[verifier::spinoff_prover]
proof fn lemma_one_row(text: Seq<char>, i: int, j: int)
    requires
        0 <= i < j < 15,
        words_end(row_words(i), text) is Some,
    ensures
        words_end(row_words(j), text) is None,
{
    lemma_word_chars();
    if words_end(row_words(j), text) is Some {
        lemma_first_word(row_words(i), text);
        lemma_first_word(row_words(j), text);
        let a = row_words(i)[0];
        let b = row_words(j)[0];
        assert(ascii_lower(text[0]) == a[0] && ascii_lower(text[0]) == b[0]);
        assert(ascii_lower(text[1]) == a[1] && ascii_lower(text[1]) == b[1]);
        if a.len() > 3 && b.len() > 3 {
            assert(ascii_lower(text[3]) == a[3] && ascii_lower(text[3]) == b[3]);
        }
        assert(a == b);
        assert(a == "list"@);
        let second = row_words(i)[1];
        let other = row_words(j)[1];
        assert(row_words(i).drop_last() =~= seq!["list"@]);
        assert(row_words(j).drop_last() =~= seq!["list"@]);
        let next = run_end(text, 4, Class::White);
        assert(words_end(seq!["list"@], text) == Some(4int));
        assert(spells(second, text, next) && spells(other, text, next));
        assert(ascii_lower(text[next + 0]) == second[0]);
        assert(ascii_lower(text[next + 0]) == other[0]);
        assert(false);
    }
}

/// No text is matched by two rows of the keyword table.
pub proof fn law_no_text_matches_two_rows(text: Seq<char>, i: int, j: int)
    requires
        0 <= i < keyword_table().len(),
        0 <= j < keyword_table().len(),
        i != j,
    ensures
        searches_are_plain(text) ==> keyword_matches(text)[i] is None || keyword_matches(
            text,
        )[j] is None,
{
    if searches_are_plain(text) {
        let a = if i < j {
            i
        } else {
            j
        };
        let b = if i < j {
            j
        } else {
            i
        };
        lemma_found(text, a);
        lemma_found(text, b);
        if words_end(row_words(a), text) is Some {
            lemma_one_row(text, a, b);
        }
    }
}

/// Where a text begins with the words of a row, and something is found there, that row decides.
proof fn lemma_row_decides(instruction: Seq<char>, i: int)
    requires
        searches_are_plain(trimmed(instruction)),
        0 <= i < 15,
        words_end(row_words(i), trimmed(instruction)) is Some,
        keyword_matches(trimmed(instruction))[i] is Some,
    ensures
        keyword_routing(instruction) == Some(
            (
                keyword_table()[i].tool,
                extracted(
                    keyword_table()[i].extract,
                    keyword_matches(trimmed(instruction))[i]->0,
                ),
            ),
        ),
{
    let text = trimmed(instruction);
    let found = keyword_matches(text);
    assert forall|j: int| 0 <= j < i implies #[trigger] found[j] is None by {
        lemma_found(text, j);
        if words_end(row_words(j), text) is Some {
            lemma_one_row(text, j, i);
        }
    }
    law_first_row_decides(keyword_table(), found, i);
}

/// Where the words of no row, or nothing behind them, is found, the keywords lead nowhere.
proof fn lemma_nothing_found(instruction: Seq<char>)
    requires
        forall|j: int|
            0 <= j < 15 ==> #[trigger] keyword_matches(trimmed(instruction))[j] is None,
    ensures
        keyword_routing(instruction) is None,
{
    law_keywords_lead_to_a_matching_row(instruction);
}

/// Where a run ends, given what stands in it and behind it.
proof fn lemma_run_end(text: Seq<char>, from: int, to: int, class: Class)
    requires
        0 <= from <= to <= text.len(),
        forall|k: int| from <= k < to ==> in_class(#[trigger] text[k], class),
        to < text.len() ==> !in_class(text[to], class),
    ensures
        run_end(text, from, class) == to,
    decreases to - from,
{
    if from < to {
        assert(in_class(text[from], class));
        lemma_run_end(text, from + 1, to, class);
    }
}

/// A run ends within the text, and holds characters of its class only.
proof fn lemma_run(text: Seq<char>, from: int, class: Class)
    requires
        0 <= from <= text.len(),
    ensures
        from <= run_end(text, from, class) <= text.len(),
        forall|k: int|
            from <= k < run_end(text, from, class) ==> in_class(#[trigger] text[k], class),
        run_end(text, from, class) < text.len() ==> !in_class(
            text[run_end(text, from, class)],
            class,
        ),
    decreases text.len() - from,
{
    if from < text.len() && in_class(text[from], class) {
        lemma_run(text, from + 1, class);
    }
}

// ---------------------------------------------------------------------------------------------
// Which texts lead where
// ---------------------------------------------------------------------------------------------

/// Whether a text is a word in some ASCII case.
pub open spec fn in_any_case(s: Seq<char>, word: Seq<char>) -> bool {
    s.len() == word.len() && forall|k: int|
        0 <= k < word.len() ==> ascii_lower(s[k]) == #[trigger] word[k]
}

/// Whether a text is one ASCII white-space character or more.
pub open spec fn is_gap(s: Seq<char>) -> bool {
    s.len() > 0 && forall|k: int|
        0 <= k < s.len() ==> 0x09 <= (#[trigger] s[k]) as u32 <= 0x0d || s[k] == ' '
}

/// Whether a text does not go on with a letter, a digit or an underscore.
pub open spec fn ends_word(s: Seq<char>) -> bool {
    s.len() == 0 || !('0' <= s[0] <= '9' || 'a' <= s[0] <= 'z' || 'A' <= s[0] <= 'Z' || s[0]
        == '_')
}

/// What two words with a gap between them, at the start of a text, make of it.
proof fn lemma_two_words(
    text: Seq<char>,
    first: Seq<char>,
    second: Seq<char>,
    a: Seq<char>,
    gap: Seq<char>,
    b: Seq<char>,
    rest: Seq<char>,
)
    requires
        text == a + gap + b + rest,
        in_any_case(a, first),
        is_gap(gap),
        in_any_case(b, second),
        second.len() > 0,
        'a' <= second[0] <= 'z',
    ensures
        words_end(seq![first, second], text) == Some((a.len() + gap.len() + b.len()) as int),
{
    let words = seq![first, second];
    assert(words.drop_last() =~= seq![first]);
    assert forall|k: int| 0 <= k < first.len() implies ascii_lower(text[0 + k])
        == #[trigger] first[k] by {
        assert(text[k] == a[k]);
    }
    assert(spells(first, text, 0));
    assert(words_end(seq![first], text) == Some(a.len() as int));
    let next = a.len() + gap.len();
    assert forall|k: int| a.len() <= k < next implies in_class(#[trigger] text[k], Class::White) by {
        assert(text[k] == gap[k - a.len()]);
    }
    assert(text[next as int] == b[0]);
    assert(ascii_lower(b[0]) == second[0]);
    lemma_run_end(text, a.len() as int, next as int, Class::White);
    assert forall|k: int| 0 <= k < second.len() implies ascii_lower(text[next + k])
        == #[trigger] second[k] by {
        assert(text[next + k] == b[k]);
    }
    assert(spells(second, text, next as int));
    assert(words.last() == second);
}

/// What one word at the start of a text makes of it.
proof fn lemma_one_word(text: Seq<char>, word: Seq<char>, a: Seq<char>, rest: Seq<char>)
    requires
        text == a + rest,
        in_any_case(a, word),
    ensures
        words_end(seq![word], text) == Some(a.len() as int),
{
    assert forall|k: int| 0 <= k < word.len() implies ascii_lower(text[0 + k])
        == #[trigger] word[k] by {
        assert(text[k] == a[k]);
    }
    assert(spells(word, text, 0));
}

/// The five things that can be asked of a plan.
pub open spec fn plan_verb(verb: Seq<char>) -> bool {
    verb == "start"@ || verb == "cancel"@ || verb == "resume"@ || verb == "get"@ || verb
        == "validate"@
}

/// The group behind a gap.
proof fn lemma_group(
    text: Seq<char>,
    end: int,
    gap: Seq<char>,
    group: Seq<char>,
    rest: Seq<char>,
    class: Class,
)
    requires
        0 <= end <= text.len(),
        text.skip(end) == gap + group + rest,
        is_gap(gap),
        group.len() > 0,
        !in_class(group[0], Class::White),
        forall|k: int| 0 <= k < group.len() ==> in_class(#[trigger] group[k], class),
        rest.len() > 0 ==> !in_class(rest[0], class),
    ensures
        group_behind(text, end, class) == Some(
            seq![Some(text.take(end + gap.len() + group.len())), Some(group)],
        ),
{
    let behind = gap + group + rest;
    let from = end + gap.len();
    let to = from + group.len();
    assert(text.len() == end + behind.len());
    assert forall|k: int| end <= k < text.len() implies #[trigger] text[k] == behind[k - end] by {
        assert(text.skip(end)[k - end] == text[k]);
    }
    assert forall|k: int| end <= k < from implies in_class(#[trigger] text[k], Class::White) by {
        assert(text[k] == gap[k - end]);
    }
    assert(text[from] == group[0]);
    lemma_run_end(text, end, from, Class::White);
    assert forall|k: int| from <= k < to implies in_class(#[trigger] text[k], class) by {
        assert(text[k] == group[k - from]);
    }
    if to < text.len() {
        assert(text[to] == rest[0]);
    }
    lemma_run_end(text, from, to, class);
    assert(text.subrange(from, to) =~= group);
}

/// A verb, `plan` and a number lead to the tool for that verb with that number, whole: in any ASCII
/// case, with any white space between, and whatever follows the last digit.
#[verifier::rlimit(60)]
#[verifier::spinoff_prover]
pub proof fn law_plan_commands_lead_to_their_tool(
    instruction: Seq<char>,
    verb: Seq<char>,
    said: Seq<char>,
    gap: Seq<char>,
    plan: Seq<char>,
    space: Seq<char>,
    n: int,
    rest: Seq<char>,
)
    requires
        plan_verb(verb),
        in_any_case(said, verb),
        is_gap(gap),
        in_any_case(plan, "plan"@),
        is_gap(space),
        0 <= n <= i64::MAX,
        rest.len() > 0 ==> !('0' <= rest[0] <= '9'),
        trimmed(instruction) == said + gap + plan + space + decimal(n as nat) + rest,
    ensures
        searches_are_plain(trimmed(instruction)) ==> keyword_routing(instruction) == Some(
            (
                "cvg_"@ + verb + "_plan"@,
                JsonView::Object(
                    seq![("plan_id"@, JsonView::Number(NumberView::PosInt(n as u64)))],
                ),
            ),
        ),
{
    let text = trimmed(instruction);
    if searches_are_plain(text) {
        lemma_word_chars();
        let digits = decimal(n as nat);
        let behind = space + digits + rest;
        assert(text =~= said + gap + plan + behind);
        lemma_two_words(text, verb, "plan"@, said, gap, plan, behind);
        let end = (said.len() + gap.len() + plan.len()) as int;
        assert(text.skip(end) =~= behind);
        lemma_decimal(n as nat);
        assert forall|k: int| 0 <= k < digits.len() implies in_class(
            #[trigger] digits[k],
            Class::Digit,
        ) by {}
        assert('0' <= digits[0] <= '9');
        lemma_group(text, end, space, digits, rest, Class::Digit);
        let i: int = if verb == "start"@ {
            3
        } else if verb == "cancel"@ {
            4
        } else if verb == "resume"@ {
            5
        } else if verb == "get"@ {
            6
        } else {
            7
        };
        assert(row_words(i) == seq![verb, "plan"@]);
        lemma_found(text, i);
        lemma_row_decides(instruction, i);
        lemma_plan_tools();
        let groups = keyword_matches(text)[i]->0;
        assert(groups[1] == Some(digits));
        assert(unsigned_part(digits) == digits);
        assert(int_value(digits) == Some(n));
    }
}

/// The names of the tools for plans are made of their verbs.
proof fn lemma_plan_tools()
    ensures
        "cvg_start_plan"@ == "cvg_"@ + "start"@ + "_plan"@,
        "cvg_cancel_plan"@ == "cvg_"@ + "cancel"@ + "_plan"@,
        "cvg_resume_plan"@ == "cvg_"@ + "resume"@ + "_plan"@,
        "cvg_get_plan"@ == "cvg_"@ + "get"@ + "_plan"@,
        "cvg_validate_plan"@ == "cvg_"@ + "validate"@ + "_plan"@,
{
    lemma_word_chars();
    reveal_strlit("cvg_");
    reveal_strlit("_plan");
    reveal_strlit("cvg_start_plan");
    reveal_strlit("cvg_cancel_plan");
    reveal_strlit("cvg_resume_plan");
    reveal_strlit("cvg_get_plan");
    reveal_strlit("cvg_validate_plan");
    assert("cvg_start_plan"@ =~= "cvg_"@ + "start"@ + "_plan"@);
    assert("cvg_cancel_plan"@ =~= "cvg_"@ + "cancel"@ + "_plan"@);
    assert("cvg_resume_plan"@ =~= "cvg_"@ + "resume"@ + "_plan"@);
    assert("cvg_get_plan"@ =~= "cvg_"@ + "get"@ + "_plan"@);
    assert("cvg_validate_plan"@ =~= "cvg_"@ + "validate"@ + "_plan"@);
}

/// Which tool a single word leads to.
pub open spec fn word_tool(word: Seq<char>, tool: Seq<char>) -> bool {
    ||| word == "health"@ && tool == "cvg_health"@
    ||| word == "status"@ && tool == "cvg_health"@
    ||| word == "doctor"@ && tool == "cvg_doctor_run"@
    ||| word == "who"@ && tool == "cvg_who"@
    ||| word == "cost"@ && tool == "cvg_cost_summary"@
}

/// A word of the table leads to its tool, without parameters, in any ASCII case and whatever stands
/// behind it, as long as it is the whole word.
pub proof fn law_single_words_lead_to_their_tool(
    instruction: Seq<char>,
    word: Seq<char>,
    tool: Seq<char>,
    said: Seq<char>,
    rest: Seq<char>,
)
    requires
        word_tool(word, tool),
        in_any_case(said, word),
        ends_word(rest),
        trimmed(instruction) == said + rest,
    ensures
        searches_are_plain(trimmed(instruction)) ==> keyword_routing(instruction) == Some(
            (tool, JsonView::Object(Seq::empty())),
        ),
{
    let text = trimmed(instruction);
    if searches_are_plain(text) {
        lemma_word_chars();
        lemma_one_word(text, word, said, rest);
        if rest.len() > 0 {
            assert(text[said.len() as int] == rest[0]);
        }
        assert(word_ends(text, said.len() as int));
        let i: int = if word == "health"@ {
            0
        } else if word == "status"@ {
            13
        } else if word == "doctor"@ {
            1
        } else if word == "who"@ {
            12
        } else {
            14
        };
        assert(row_words(i) == seq![word]);
        lemma_found(text, i);
        lemma_row_decides(instruction, i);
    }
}

/// Which tool lists what.
pub open spec fn list_tool(noun: Seq<char>, tool: Seq<char>) -> bool {
    ||| noun == "plan"@ && tool == "cvg_list_plans"@
    ||| noun == "agent"@ && tool == "cvg_list_agent_catalog"@
    ||| noun == "org"@ && tool == "cvg_list_orgs"@
}

/// `list` and a noun lead to the tool that lists it, without parameters, in the singular or the
/// plural, in any ASCII case, with any white space between.
pub proof fn law_lists_lead_to_their_tool(
    instruction: Seq<char>,
    noun: Seq<char>,
    tool: Seq<char>,
    list: Seq<char>,
    gap: Seq<char>,
    said: Seq<char>,
    s: Seq<char>,
    rest: Seq<char>,
)
    requires
        list_tool(noun, tool),
        in_any_case(list, "list"@),
        is_gap(gap),
        in_any_case(said, noun),
        s == Seq::<char>::empty() || s == seq!['s'] || s == seq!['S'],
        ends_word(rest),
        trimmed(instruction) == list + gap + said + s + rest,
    ensures
        searches_are_plain(trimmed(instruction)) ==> keyword_routing(instruction) == Some(
            (tool, JsonView::Object(Seq::empty())),
        ),
{
    let text = trimmed(instruction);
    if searches_are_plain(text) {
        lemma_word_chars();
        assert(text =~= list + gap + said + (s + rest));
        lemma_two_words(text, "list"@, noun, list, gap, said, s + rest);
        let end = (list.len() + gap.len() + said.len()) as int;
        if s.len() > 0 {
            assert(text[end] == s[0]);
            if rest.len() > 0 {
                assert(text[end + 1] == rest[0]);
            }
            assert(word_ends(text, end + 1));
        } else if rest.len() > 0 {
            assert(text[end] == rest[0]);
        }
        let i: int = if noun == "plan"@ {
            2
        } else if noun == "agent"@ {
            9
        } else {
            10
        };
        assert(row_words(i) == seq!["list"@, noun]);
        lemma_found(text, i);
        lemma_row_decides(instruction, i);
    }
}

/// `spawn` and a name lead to the tool that spawns an agent, with that name, whole and as it was
/// written: all up to the next white space.
pub proof fn law_spawning_names_the_agent(
    instruction: Seq<char>,
    said: Seq<char>,
    gap: Seq<char>,
    name: Seq<char>,
    rest: Seq<char>,
)
    requires
        in_any_case(said, "spawn"@),
        is_gap(gap),
        name.len() > 0,
        forall|k: int| 0 <= k < name.len() ==> in_class(#[trigger] name[k], Class::Solid),
        rest.len() > 0 ==> in_class(rest[0], Class::White),
        trimmed(instruction) == said + gap + name + rest,
    ensures
        searches_are_plain(trimmed(instruction)) ==> keyword_routing(instruction) == Some(
            (
                "cvg_spawn_agent"@,
                JsonView::Object(seq![("agent_name"@, JsonView::Text(name))]),
            ),
        ),
{
    let text = trimmed(instruction);
    if searches_are_plain(text) {
        lemma_word_chars();
        assert(text =~= said + (gap + name + rest));
        lemma_one_word(text, "spawn"@, said, gap + name + rest);
        assert(text.skip(said.len() as int) =~= gap + name + rest);
        assert(in_class(name[0], Class::Solid));
        lemma_group(text, said.len() as int, gap, name, rest, Class::Solid);
        assert(row_words(8) == seq!["spawn"@]);
        lemma_found(text, 8);
        lemma_row_decides(instruction, 8);
        assert((keyword_matches(text)[8]->0)[1] == Some(name));
    }
}

/// `search` and a query lead to the tool that searches, with that query, whole and as it was
/// written: all up to the end of the line.
pub proof fn law_searching_takes_the_query(
    instruction: Seq<char>,
    said: Seq<char>,
    gap: Seq<char>,
    query: Seq<char>,
    rest: Seq<char>,
)
    requires
        in_any_case(said, "search"@),
        is_gap(gap),
        query.len() > 0,
        in_class(query[0], Class::Solid),
        forall|k: int| 0 <= k < query.len() ==> #[trigger] query[k] != '\n',
        rest.len() > 0 ==> rest[0] == '\n',
        trimmed(instruction) == said + gap + query + rest,
    ensures
        searches_are_plain(trimmed(instruction)) ==> keyword_routing(instruction) == Some(
            (
                "cvg_knowledge_search"@,
                JsonView::Object(seq![("query"@, JsonView::Text(query))]),
            ),
        ),
{
    let text = trimmed(instruction);
    if searches_are_plain(text) {
        lemma_word_chars();
        assert(text =~= said + (gap + query + rest));
        lemma_one_word(text, "search"@, said, gap + query + rest);
        let end = said.len() as int;
        assert(text.skip(end) =~= gap + query + rest);
        assert forall|k: int| 0 <= k < query.len() implies in_class(
            #[trigger] query[k],
            Class::Line,
        ) by {}
        lemma_group(text, end, gap, query, rest, Class::Line);
        assert forall|k: int| end <= k < end + gap.len() implies in_class(
            #[trigger] text[k],
            Class::White,
        ) by {
            assert(text[k] == gap[k - end]);
        }
        assert(text[end + gap.len()] == query[0]);
        lemma_run_end(text, end, end + gap.len(), Class::White);
        assert(row_words(11) == seq!["search"@]);
        lemma_found(text, 11);
        lemma_row_decides(instruction, 11);
        assert((keyword_matches(text)[11]->0)[1] == Some(query));
    }
}

/// Whether a text begins with one of the words that the rows of the table begin with.
pub open spec fn begins_with_keyword(text: Seq<char>) -> bool {
    ||| spells("health"@, text, 0)
    ||| spells("doctor"@, text, 0)
    ||| spells("list"@, text, 0)
    ||| spells("start"@, text, 0)
    ||| spells("cancel"@, text, 0)
    ||| spells("resume"@, text, 0)
    ||| spells("get"@, text, 0)
    ||| spells("validate"@, text, 0)
    ||| spells("spawn"@, text, 0)
    ||| spells("search"@, text, 0)
    ||| spells("who"@, text, 0)
    ||| spells("status"@, text, 0)
    ||| spells("cost"@, text, 0)
}

/// A text that begins with none of the keywords leads nowhere, whatever stands further on in it.
pub proof fn law_other_texts_lead_nowhere(instruction: Seq<char>)
    requires
        !begins_with_keyword(trimmed(instruction)),
    ensures
        searches_are_plain(trimmed(instruction)) ==> keyword_routing(instruction) is None,
{
    let text = trimmed(instruction);
    if searches_are_plain(text) {
        assert forall|j: int| 0 <= j < 15 implies #[trigger] keyword_matches(text)[j] is None by {
            lemma_found(text, j);
            if words_end(row_words(j), text) is Some {
                lemma_first_word(row_words(j), text);
            }
        }
        lemma_nothing_found(instruction);
    }
}

/// A keyword that goes on as another word leads nowhere: `healthy`, `whole` or `costs` are none of
/// the words of the table.
pub proof fn law_longer_words_lead_nowhere(
    instruction: Seq<char>,
    word: Seq<char>,
    tool: Seq<char>,
    said: Seq<char>,
    rest: Seq<char>,
)
    requires
        word_tool(word, tool),
        in_any_case(said, word),
        !ends_word(rest),
        trimmed(instruction) == said + rest,
    ensures
        searches_are_plain(trimmed(instruction)) ==> keyword_routing(instruction) is None,
{
    let text = trimmed(instruction);
    if searches_are_plain(text) {
        lemma_word_chars();
        lemma_one_word(text, word, said, rest);
        assert(text[said.len() as int] == rest[0]);
        let i: int = if word == "health"@ {
            0
        } else if word == "status"@ {
            13
        } else if word == "doctor"@ {
            1
        } else if word == "who"@ {
            12
        } else {
            14
        };
        assert(row_words(i) == seq![word]);
        assert forall|j: int| 0 <= j < 15 implies #[trigger] keyword_matches(text)[j] is None by {
            lemma_found(text, j);
            if j < i && words_end(row_words(j), text) is Some {
                lemma_one_row(text, j, i);
            }
            if i < j {
                lemma_one_row(text, i, j);
            }
        }
        lemma_nothing_found(instruction);
    }
}

/// A request about a plan, as it is written plainly: `cancel plan 1402`.
pub open spec fn plan_command(verb: Seq<char>, n: int) -> Seq<char> {
    verb + " plan "@ + decimal(n as nat)
}

/// A text that begins and ends with something else than white space is trimmed already.
proof fn lemma_trimmed_already(s: Seq<char>)
    requires
        s.len() > 0,
        !white(s[0]),
        !white(s.last()),
    ensures
        trimmed(s) == s,
{
    assert(skip_white(s) == s);
    assert(drop_white(s) == s);
}

/// For each of the five verbs and every number that an `i64` holds, the plain request leads to the
/// tool for that verb, with that very number; white space around it does not matter.
pub proof fn law_plan_numbers_lead_to_that_plan(
    before: Seq<char>,
    verb: Seq<char>,
    n: int,
    after: Seq<char>,
)
    requires
        plan_verb(verb),
        0 <= n <= i64::MAX,
        forall|i: int| 0 <= i < before.len() ==> white(#[trigger] before[i]),
        forall|i: int| 0 <= i < after.len() ==> white(#[trigger] after[i]),
    ensures
        trimmed(before + plan_command(verb, n) + after) == plan_command(verb, n),
        searches_are_plain(plan_command(verb, n)) ==> keyword_routing(
            before + plan_command(verb, n) + after,
        ) == Some(
            (
                "cvg_"@ + verb + "_plan"@,
                JsonView::Object(
                    seq![("plan_id"@, JsonView::Number(NumberView::PosInt(n as u64)))],
                ),
            ),
        ),
{
    let command = plan_command(verb, n);
    let digits = decimal(n as nat);
    lemma_word_chars();
    reveal_strlit(" plan ");
    assert(" plan "@ =~= seq![' '] + "plan"@ + seq![' ']);
    assert(command =~= verb + seq![' '] + "plan"@ + seq![' '] + digits + Seq::<char>::empty());
    lemma_decimal(n as nat);
    assert(command[0] == verb[0]);
    assert('a' <= verb[0] <= 'z');
    assert(command.last() == digits.last());
    assert('0' <= digits[digits.len() - 1] <= '9');
    lemma_trimmed_already(command);
    law_trim_ignores_surrounding_white_space(before, command, after);
    let instruction = before + command + after;
    assert(in_any_case(verb, verb));
    assert(in_any_case("plan"@, "plan"@));
    law_plan_commands_lead_to_their_tool(
        instruction,
        verb,
        verb,
        seq![' '],
        "plan"@,
        seq![' '],
        n,
        Seq::empty(),
    );
}

/// Whether two texts differ at most in the case of their ASCII letters.
pub open spec fn same_but_case(s: Seq<char>, t: Seq<char>) -> bool {
    s.len() == t.len() && forall|k: int|
        0 <= k < s.len() ==> ascii_lower(#[trigger] s[k]) == ascii_lower(t[k])
}

/// The case of a letter does not matter for the classes, nor for white space.
proof fn lemma_case_keeps_class(a: char, b: char, class: Class)
    requires
        ascii_lower(a) == ascii_lower(b),
    ensures
        in_class(a, class) == in_class(b, class),
        white(a) == white(b),
{
    if 'A' <= a <= 'Z' {
        assert((a as u32 + 32) as char as u32 == a as u32 + 32);
    }
    if 'A' <= b <= 'Z' {
        assert((b as u32 + 32) as char as u32 == b as u32 + 32);
    }
}

/// Runs end at the same place in texts that differ in case only.
proof fn lemma_case_keeps_runs(s: Seq<char>, t: Seq<char>, from: int, class: Class)
    requires
        same_but_case(s, t),
        0 <= from <= s.len(),
    ensures
        run_end(s, from, class) == run_end(t, from, class),
    decreases s.len() - from,
{
    if from < s.len() {
        assert(ascii_lower(s[from]) == ascii_lower(t[from]));
        lemma_case_keeps_class(s[from], t[from], class);
        if in_class(s[from], class) {
            lemma_case_keeps_runs(s, t, from + 1, class);
        }
    }
}

/// Words are spelled at the same places in texts that differ in case only.
proof fn lemma_case_keeps_spelling(s: Seq<char>, t: Seq<char>, word: Seq<char>, at: int)
    requires
        same_but_case(s, t),
        0 <= at,
    ensures
        spells(word, s, at) == spells(word, t, at),
{
    if at + word.len() <= s.len() {
        assert forall|k: int| 0 <= k < word.len() implies (ascii_lower(s[at + k])
            == #[trigger] word[k]) == (ascii_lower(t[at + k]) == word[k]) by {
            assert(ascii_lower(s[at + k]) == ascii_lower(t[at + k]));
        }
        if spells(word, s, at) {
            assert forall|k: int| 0 <= k < word.len() implies ascii_lower(t[at + k])
                == #[trigger] word[k] by {
                assert(ascii_lower(s[at + k]) == word[k]);
            }
        }
        if spells(word, t, at) {
            assert forall|k: int| 0 <= k < word.len() implies ascii_lower(s[at + k])
                == #[trigger] word[k] by {
                assert(ascii_lower(t[at + k]) == word[k]);
            }
        }
    }
}

/// The words of a row end at the same place in texts that differ in case only.
proof fn lemma_case_keeps_words(s: Seq<char>, t: Seq<char>, words: Seq<Seq<char>>)
    requires
        same_but_case(s, t),
    ensures
        words_end(words, s) == words_end(words, t),
        words_end(words, s) matches Some(end) ==> 0 <= end <= s.len(),
    decreases words.len(),
{
    if words.len() == 1 {
        lemma_case_keeps_spelling(s, t, words[0], 0);
    } else if words.len() > 1 {
        lemma_case_keeps_words(s, t, words.drop_last());
        if words_end(words.drop_last(), s) is Some {
            let end = words_end(words.drop_last(), s)->0;
            lemma_case_keeps_runs(s, t, end, Class::White);
            lemma_run(s, end, Class::White);
            lemma_case_keeps_spelling(s, t, words.last(), run_end(s, end, Class::White));
        }
    }
}

/// A row finds something in both of two trimmed texts that differ in case only, or in none.
#[verifier::rlimit(60)]
#[verifier::spinoff_prover]
proof fn lemma_case_keeps_rows(s: Seq<char>, t: Seq<char>, i: int)
    requires
        same_but_case(s, t),
        searches_are_plain(s),
        searches_are_plain(t),
        s.len() > 0 ==> !white(s.last()),
        0 <= i < 15,
    ensures
        keyword_matches(s)[i] is Some == keyword_matches(t)[i] is Some,
{
    lemma_found(s, i);
    lemma_found(t, i);
    lemma_case_keeps_words(s, t, row_words(i));
    if words_end(row_words(i), s) is Some {
        let end = words_end(row_words(i), s)->0;
        if end < s.len() {
            assert(ascii_lower(s[end]) == ascii_lower(t[end]));
            lemma_case_keeps_class(s[end], t[end], Class::Word);
        }
        if end + 1 < s.len() {
            assert(ascii_lower(s[end + 1]) == ascii_lower(t[end + 1]));
            lemma_case_keeps_class(s[end + 1], t[end + 1], Class::Word);
        }
        lemma_case_keeps_runs(s, t, end, Class::White);
        lemma_run(s, end, Class::White);
        let from = run_end(s, end, Class::White);
        lemma_case_keeps_runs(s, t, from, Class::Digit);
        lemma_case_keeps_runs(s, t, from, Class::Solid);
        lemma_case_keeps_runs(s, t, from, Class::Line);
        if from == s.len() && from > end {
            assert(in_class(s[from - 1], Class::White));
            assert(s.last() == s[from - 1]);
            assert(false);
        }
    }
}

/// Trimming texts that differ in case only gives texts that differ in case only.
proof fn lemma_case_keeps_trimming(s: Seq<char>, t: Seq<char>)
    requires
        same_but_case(s, t),
    ensures
        same_but_case(trimmed(s), trimmed(t)),
        trimmed(s).len() > 0 ==> !white(trimmed(s).last()),
{
    let i = lemma_skip_white(s);
    let k = lemma_skip_white(t);
    if i < s.len() {
        assert(ascii_lower(s[i]) == ascii_lower(t[i]));
        lemma_case_keeps_class(s[i], t[i], Class::White);
    }
    if k < t.len() {
        assert(ascii_lower(s[k]) == ascii_lower(t[k]));
        lemma_case_keeps_class(s[k], t[k], Class::White);
    }
    assert(i == k);
    let a = skip_white(s);
    let b = skip_white(t);
    assert forall|j: int| 0 <= j < a.len() implies ascii_lower(#[trigger] a[j]) == ascii_lower(
        b[j],
    ) by {
        assert(a[j] == s[i + j] && b[j] == t[i + j]);
    }
    let m = lemma_drop_white(a);
    let n = lemma_drop_white(b);
    if m > 0 {
        assert(ascii_lower(a[m - 1]) == ascii_lower(b[m - 1]));
        lemma_case_keeps_class(a[m - 1], b[m - 1], Class::White);
    }
    if n > 0 {
        assert(ascii_lower(a[n - 1]) == ascii_lower(b[n - 1]));
        lemma_case_keeps_class(a[n - 1], b[n - 1], Class::White);
    }
    assert(m == n);
    assert forall|j: int| 0 <= j < m implies ascii_lower(#[trigger] trimmed(s)[j]) == ascii_lower(
        trimmed(t)[j],
    ) by {
        assert(trimmed(s)[j] == a[j] && trimmed(t)[j] == b[j]);
    }
}

/// The tool that the keywords of an instruction lead to.
pub open spec fn led_to(instruction: Seq<char>) -> Option<Seq<char>> {
    match keyword_routing(instruction) {
        Some((tool, _)) => Some(tool),
        None => None,
    }
}

/// The case of the ASCII letters of an instruction does not matter for where its keywords lead: two
/// instructions that differ in nothing else both lead nowhere, or both lead to the same tool.
pub proof fn law_keywords_ignore_case(s: Seq<char>, t: Seq<char>)
    requires
        same_but_case(s, t),
    ensures
        searches_are_plain(trimmed(s)) && searches_are_plain(trimmed(t)) ==> {
            &&& keyword_routing(s) is Some <==> keyword_routing(t) is Some
            &&& keyword_routing(s) is Some ==> led_to(s) == led_to(t)
        },
{
    let a = trimmed(s);
    let b = trimmed(t);
    if searches_are_plain(a) && searches_are_plain(b) {
        lemma_case_keeps_trimming(s, t);
        assert forall|i: int| 0 <= i < 15 implies (#[trigger] keyword_matches(a)[i] is Some)
            == (keyword_matches(b)[i] is Some) by {
            lemma_case_keeps_rows(a, b, i);
        }
        law_keywords_lead_to_a_matching_row(s);
        law_keywords_lead_to_a_matching_row(t);
        if exists|i: int| 0 <= i < 15 && #[trigger] keyword_matches(a)[i] is Some {
            let i = choose|i: int| 0 <= i < 15 && #[trigger] keyword_matches(a)[i] is Some;
            assert forall|j: int| 0 <= j < i implies #[trigger] keyword_matches(a)[j] is None by {
                law_no_text_matches_two_rows(a, i, j);
            }
            assert forall|j: int| 0 <= j < i implies #[trigger] keyword_matches(b)[j] is None by {
                assert(keyword_matches(a)[j] is None);
            }
            law_first_row_decides(keyword_table(), keyword_matches(a), i);
            law_first_row_decides(keyword_table(), keyword_matches(b), i);
        } else {
            assert forall|i: int| 0 <= i < 15 implies #[trigger] keyword_matches(b)[i] is None by {
                assert(keyword_matches(a)[i] is None);
            }
        }
    }
}

} // verus!
