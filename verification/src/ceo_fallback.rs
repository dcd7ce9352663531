//! CEO keyword fallback: regex-based routing when inference is unavailable.

use vstd::prelude::*;
use vstd::string::*;

use crate::json::{int_number, single, Json, JsonView, NumberView};
use crate::keyword_laws::{
    law_plan_numbers_lead_to_that_plan, plan_command, plan_verb, searches_are_plain,
};
use crate::text::{
    int_value, joined, law_trim_is_idempotent, optional_text, parse_int, trim, trimmed,
};

verus! {

/// How the parameters of a tool are read out of the groups of a match.
#[derive(Debug, Clone, Copy, PartialEq, Eq, Structural)]
pub enum Extract {
    /// No parameters.
    Nothing,
    /// `plan_id`, the number that the first group spells.
    PlanId,
    /// `agent_name`, the first group.
    AgentName,
    /// `query`, the first group.
    Query,
}

/// A keyword routing pattern: a regex, the tool that it routes to, and how its parameters are read.
#[derive(Debug, Clone, Copy)]
pub struct KeywordPattern {
    pub regex: &'static str,
    pub tool: &'static str,
    pub extract: Extract,
}

/// What a keyword pattern says.
pub struct KeywordView {
    pub regex: Seq<char>,
    pub tool: Seq<char>,
    pub extract: Extract,
}

impl View for KeywordPattern {
    type V = KeywordView;

    open spec fn view(&self) -> KeywordView {
        KeywordView { regex: self.regex@, tool: self.tool@, extract: self.extract }
    }
}

/// What some keyword patterns say.
pub open spec fn pattern_views(patterns: Seq<KeywordPattern>) -> Seq<KeywordView> {
    Seq::new(patterns.len(), |i: int| patterns[i]@)
}

/// A row of the keyword table.
pub open spec fn keyword(regex: &str, tool: &str, extract: Extract) -> KeywordView {
    KeywordView { regex: regex@, tool: tool@, extract }
}

/// The keyword table. An instruction goes to the first row whose regex matches it.
pub open spec fn keyword_table() -> Seq<KeywordView> {
    seq![
        keyword(r"(?i)^health\b", "cvg_health", Extract::Nothing),
        keyword(r"(?i)^doctor\b", "cvg_doctor_run", Extract::Nothing),
        keyword(r"(?i)^list\s+plans?\b", "cvg_list_plans", Extract::Nothing),
        keyword(r"(?i)^start\s+plan\s+(\d+)", "cvg_start_plan", Extract::PlanId),
        keyword(r"(?i)^cancel\s+plan\s+(\d+)", "cvg_cancel_plan", Extract::PlanId),
        keyword(r"(?i)^resume\s+plan\s+(\d+)", "cvg_resume_plan", Extract::PlanId),
        keyword(r"(?i)^get\s+plan\s+(\d+)", "cvg_get_plan", Extract::PlanId),
        keyword(r"(?i)^validate\s+plan\s+(\d+)", "cvg_validate_plan", Extract::PlanId),
        keyword(r"(?i)^spawn\s+(\S+)", "cvg_spawn_agent", Extract::AgentName),
        keyword(r"(?i)^list\s+agents?\b", "cvg_list_agent_catalog", Extract::Nothing),
        keyword(r"(?i)^list\s+orgs?\b", "cvg_list_orgs", Extract::Nothing),
        keyword(r"(?i)^search\s+(.+)", "cvg_knowledge_search", Extract::Query),
        keyword(r"(?i)^who\b", "cvg_who", Extract::Nothing),
        keyword(r"(?i)^status\b", "cvg_health", Extract::Nothing),
        keyword(r"(?i)^cost\b", "cvg_cost_summary", Extract::Nothing),
    ]
}

/// The texts of the groups of a match, the whole match first; a group that took no part has none.
pub open spec fn groups_view(groups: Seq<Option<String>>) -> Seq<Option<Seq<char>>> {
    Seq::new(groups.len(), |i: int| optional_text(groups[i]))
}

/// The groups of a match, if there is one.
pub open spec fn match_view(found: Option<Vec<Option<String>>>) -> Option<Seq<Option<Seq<char>>>> {
    match found {
        Some(groups) => Some(groups_view(groups@)),
        None => None,
    }
}

/// The matches of a list.
pub open spec fn match_views(
    found: Seq<Option<Vec<Option<String>>>>,
) -> Seq<Option<Seq<Option<Seq<char>>>>> {
    Seq::new(found.len(), |i: int| match_view(found[i]))
}

/// What `regex_lite` finds: nothing at all where the pattern is no regex, else the groups of the
/// leftmost match of the pattern in the text, if it has one.
pub uninterp spec fn regex_groups(pattern: Seq<char>, text: Seq<char>) -> Option<
    Option<Seq<Option<Seq<char>>>>,
>;

/// What stands behind the words of a plain regex.
pub enum Tail {
    /// `\b`: the last word ends there.
    Bound,
    /// `s?\b`: the last word ends there, or after one more `s`.
    Plural,
    /// `\s+(\d+)`: a number.
    Number,
    /// `\s+(\S+)`: a name.
    Name,
    /// `\s+(.+)`: the rest of the line.
    Rest,
}

/// The regex text of a tail.
pub open spec fn tail_text(tail: Tail) -> Seq<char> {
    match tail {
        Tail::Bound => r"\b"@,
        Tail::Plural => r"s?\b"@,
        Tail::Number => r"\s+(\d+)"@,
        Tail::Name => r"\s+(\S+)"@,
        Tail::Rest => r"\s+(.+)"@,
    }
}

/// A plain regex: in any case, at the start of the text, some words with white space between them,
/// then a tail.
pub open spec fn plain_regex(words: Seq<Seq<char>>, tail: Tail) -> Seq<char> {
    "(?i)^"@ + joined(words, r"\s+"@) + tail_text(tail)
}

/// Whether the words of a plain regex are a few short words of lower-case ASCII letters.
pub open spec fn plain_words(words: Seq<Seq<char>>) -> bool {
    &&& 1 <= words.len() <= 3
    &&& forall|i: int|
        0 <= i < words.len() ==> 1 <= (#[trigger] words[i]).len() <= 20 && forall|k: int|
            0 <= k < words[i].len() ==> 'a' <= #[trigger] words[i][k] <= 'z'
}

/// A character in lower case, where it is an ASCII letter.
pub open spec fn ascii_lower(c: char) -> char {
    if 'A' <= c <= 'Z' {
        (c as u32 + 32) as char
    } else {
        c
    }
}

/// Whether a word of lower-case letters stands in a text at a position, in any ASCII case.
pub open spec fn spells(word: Seq<char>, text: Seq<char>, at: int) -> bool {
    at + word.len() <= text.len() && forall|k: int|
        0 <= k < word.len() ==> ascii_lower(text[at + k]) == #[trigger] word[k]
}

/// The classes of characters that a plain regex speaks of.
pub enum Class {
    /// `\s`: tab, line feed, vertical tab, form feed, carriage return and space.
    White,
    /// `\S`: what is not `\s`.
    Solid,
    /// `\d`: the ASCII digits.
    Digit,
    /// `\w`: the ASCII letters and digits and the underscore.
    Word,
    /// `.`: what is no line feed.
    Line,
}

/// Whether a character is of a class.
pub open spec fn in_class(c: char, class: Class) -> bool {
    match class {
        Class::White => 0x09 <= c as u32 <= 0x0d || c == ' ',
        Class::Solid => !(0x09 <= c as u32 <= 0x0d || c == ' '),
        Class::Digit => '0' <= c <= '9',
        Class::Word => '0' <= c <= '9' || 'a' <= c <= 'z' || 'A' <= c <= 'Z' || c == '_',
        Class::Line => c != '\n',
    }
}

/// Where the longest run of characters of a class that begins at a position ends.
pub open spec fn run_end(text: Seq<char>, from: int, class: Class) -> int
    decreases text.len() - from,
{
    if 0 <= from < text.len() && in_class(text[from], class) {
        run_end(text, from + 1, class)
    } else {
        from
    }
}

/// Where the words of a plain regex end in a text that begins with them.
pub open spec fn words_end(words: Seq<Seq<char>>, text: Seq<char>) -> Option<int>
    decreases words.len(),
{
    if words.len() == 0 {
        None
    } else if words.len() == 1 {
        if spells(words[0], text, 0) {
            Some(words[0].len() as int)
        } else {
            None
        }
    } else {
        match words_end(words.drop_last(), text) {
            Some(end) => {
                let next = run_end(text, end, Class::White);
                if next > end && spells(words.last(), text, next) {
                    Some(next + words.last().len())
                } else {
                    None
                }
            },
            None => None,
        }
    }
}

/// Whether a word ends at a position.
pub open spec fn word_ends(text: Seq<char>, at: int) -> bool {
    at == text.len() || !in_class(text[at], Class::Word)
}

/// The groups of white space and then a group of a class, behind a position.
pub open spec fn group_behind(text: Seq<char>, end: int, class: Class) -> Option<
    Seq<Option<Seq<char>>>,
> {
    let from = run_end(text, end, Class::White);
    let to = run_end(text, from, class);
    if from > end && to > from {
        Some(seq![Some(text.take(to)), Some(text.subrange(from, to))])
    } else {
        None
    }
}

/// Whether `found` is what a plain regex finds in a text. Of the rest of a line it is left unsaid
/// where the text ends in white space.
pub open spec fn plainly_found(
    words: Seq<Seq<char>>,
    tail: Tail,
    text: Seq<char>,
    found: Option<Seq<Option<Seq<char>>>>,
) -> bool {
    match words_end(words, text) {
        None => found is None,
        Some(end) => match tail {
            Tail::Bound => found == (if word_ends(text, end) {
                Some(seq![Some(text.take(end))])
            } else {
                None
            }),
            Tail::Plural => found == (if end < text.len() && ascii_lower(text[end]) == 's'
                && word_ends(text, end + 1) {
                Some(seq![Some(text.take(end + 1))])
            } else if word_ends(text, end) {
                Some(seq![Some(text.take(end))])
            } else {
                None
            }),
            Tail::Number => found == group_behind(text, end, Class::Digit),
            Tail::Name => found == group_behind(text, end, Class::Solid),
            Tail::Rest => {
                let from = run_end(text, end, Class::White);
                from == end || from < text.len() ==> found == group_behind(text, end, Class::Line)
            },
        },
    }
}

/// Whether `found` is what is found in a text where the pattern is a plain regex.
pub open spec fn found_if_plain(
    pattern: Seq<char>,
    text: Seq<char>,
    found: Option<Option<Seq<Option<Seq<char>>>>>,
) -> bool {
    forall|words: Seq<Seq<char>>, tail: Tail|
        plain_words(words) && pattern == #[trigger] plain_regex(words, tail) ==> match found {
            Some(groups) => plainly_found(words, tail, text, groups),
            None => false,
        }
}

/// What the result of `find_groups` says.
pub open spec fn search_view(
    r: Result<Option<Vec<Option<String>>>, regex_lite::Error>,
) -> Option<Option<Seq<Option<Seq<char>>>>> {
    match r {
        Ok(found) => Some(match_view(found)),
        Err(_) => None,
    }
}

/// `regex_lite::Regex::new` on the pattern, then `Regex::captures` on the text, with the text of
/// each group of the captures. The result depends on the pattern and the text alone. Of a plain
/// regex, a few words with one of five tails, it is what the documentation says of the syntax: `^`
/// is the start of the text, `(?i)` and the classes are those of ASCII, `.` is all but a line feed,
/// `+` and `?` take as much as they can. Which texts any other pattern matches is left unsaid.
#[verifier::external_body]
fn find_groups(pattern: &str, text: &str) -> (r: Result<
    Option<Vec<Option<String>>>,
    regex_lite::Error,
>)
    ensures
        regex_groups(pattern@, text@) == search_view(r),
        found_if_plain(pattern@, text@, search_view(r)),
{
    let regex = regex_lite::Regex::new(pattern)?;
    Ok(regex.captures(text).map(|caps|
        caps.iter().map(|group| group.map(|m| m.as_str().to_string())).collect()))
}

/// The error of `regex_lite::Regex::new`.
#[verifier::external_type_specification]
#[verifier::external_body]
pub struct ExRegexError(regex_lite::Error);

/// The groups of a pattern in a text; a pattern that is no regex matches nothing.
pub open spec fn matched(pattern: Seq<char>, text: Seq<char>) -> Option<Seq<Option<Seq<char>>>> {
    match regex_groups(pattern, text) {
        Some(found) => found,
        None => None,
    }
}

/// The first group of a match, or the default where there is none.
pub open spec fn first_group(groups: Seq<Option<Seq<char>>>, default: Seq<char>) -> Seq<char> {
    if groups.len() > 1 && groups[1] is Some {
        groups[1]->0
    } else {
        default
    }
}

/// The parameters that a match holds.
pub open spec fn extracted(extract: Extract, groups: Seq<Option<Seq<char>>>) -> JsonView {
    match extract {
        Extract::Nothing => JsonView::Object(Seq::empty()),
        Extract::PlanId => {
            let id = match int_value(first_group(groups, "0"@)) {
                Some(n) => n,
                None => 0,
            };
            JsonView::Object(seq![("plan_id"@, int_number(id))])
        },
        Extract::AgentName => JsonView::Object(
            seq![("agent_name"@, JsonView::Text(first_group(groups, ""@)))],
        ),
        Extract::Query => JsonView::Object(
            seq![("query"@, JsonView::Text(first_group(groups, ""@)))],
        ),
    }
}

/// The route of the first row that has a match.
pub open spec fn first_route(
    table: Seq<KeywordView>,
    found: Seq<Option<Seq<Option<Seq<char>>>>>,
) -> Option<(Seq<char>, JsonView)>
    decreases table.len(),
{
    if table.len() == 0 || found.len() == 0 {
        None
    } else {
        match found[0] {
            Some(groups) => Some((table[0].tool, extracted(table[0].extract, groups))),
            None => first_route(table.skip(1), found.skip(1)),
        }
    }
}

/// The matches of a text in the rows of the keyword table.
pub open spec fn keyword_matches(text: Seq<char>) -> Seq<Option<Seq<Option<Seq<char>>>>> {
    Seq::new(keyword_table().len(), |i: int| matched(keyword_table()[i].regex, text))
}

/// Where an instruction goes by keyword.
pub open spec fn keyword_routing(instruction: Seq<char>) -> Option<(Seq<char>, JsonView)> {
    first_route(keyword_table(), keyword_matches(trimmed(instruction)))
}

/// The view of a route.
pub open spec fn route_view(route: Option<(String, Json)>) -> Option<(Seq<char>, JsonView)> {
    match route {
        Some((tool, params)) => Some((tool@, params@)),
        None => None,
    }
}

/// A row of the keyword table.
fn kp(regex: &'static str, tool: &'static str, extract: Extract) -> (r: KeywordPattern)
    ensures
        r@ == keyword(regex, tool, extract),
{
    KeywordPattern { regex, tool, extract }
}

/// The keyword table.
pub fn patterns() -> (r: Vec<KeywordPattern>)
    ensures
        pattern_views(r@) == keyword_table(),
{
    let rows: Vec<KeywordPattern> = vec![
        kp(r"(?i)^health\b", "cvg_health", Extract::Nothing),
        kp(r"(?i)^doctor\b", "cvg_doctor_run", Extract::Nothing),
        kp(r"(?i)^list\s+plans?\b", "cvg_list_plans", Extract::Nothing),
        kp(r"(?i)^start\s+plan\s+(\d+)", "cvg_start_plan", Extract::PlanId),
        kp(r"(?i)^cancel\s+plan\s+(\d+)", "cvg_cancel_plan", Extract::PlanId),
        kp(r"(?i)^resume\s+plan\s+(\d+)", "cvg_resume_plan", Extract::PlanId),
        kp(r"(?i)^get\s+plan\s+(\d+)", "cvg_get_plan", Extract::PlanId),
        kp(r"(?i)^validate\s+plan\s+(\d+)", "cvg_validate_plan", Extract::PlanId),
        kp(r"(?i)^spawn\s+(\S+)", "cvg_spawn_agent", Extract::AgentName),
        kp(r"(?i)^list\s+agents?\b", "cvg_list_agent_catalog", Extract::Nothing),
        kp(r"(?i)^list\s+orgs?\b", "cvg_list_orgs", Extract::Nothing),
        kp(r"(?i)^search\s+(.+)", "cvg_knowledge_search", Extract::Query),
        kp(r"(?i)^who\b", "cvg_who", Extract::Nothing),
        kp(r"(?i)^status\b", "cvg_health", Extract::Nothing),
        kp(r"(?i)^cost\b", "cvg_cost_summary", Extract::Nothing),
    ];
    assert(pattern_views(rows@) =~= keyword_table());
    rows
}

/// The first group of a match, or the default where there is none.
fn take_group(groups: &Vec<Option<String>>, default: &str) -> (r: String)
    ensures
        r@ == first_group(groups_view(groups@), default@),
{
    if groups.len() > 1 {
        if let Some(t) = &groups[1] {
            return t.clone();
        }
    }
    default.to_owned()
}

impl Extract {
    /// The parameters that a match holds.
    pub fn params(&self, groups: &Vec<Option<String>>) -> (r: Json)
        ensures
            r@ == extracted(*self, groups_view(groups@)),
    {
        match self {
            Extract::Nothing => Json::empty_object(),
            Extract::PlanId => {
                let text = take_group(groups, "0");
                let id: i64 = match parse_int(text.as_str()) {
                    Some(n) => n,
                    None => 0,
                };
                single("plan_id", Json::from_int(id))
            },
            Extract::AgentName => single("agent_name", Json::Text(take_group(groups, ""))),
            Extract::Query => single("query", Json::Text(take_group(groups, ""))),
        }
    }
}

/// The route of the first row of the keyword table that has a match, where `found[i]` holds the
/// groups of row `i`.
pub fn route_from_matches(found: &Vec<Option<Vec<Option<String>>>>) -> (r: Option<(String, Json)>)
    ensures
        route_view(r) == first_route(keyword_table(), match_views(found@)),
{
    let rows = patterns();
    let ghost table = keyword_table();
    let ghost view = match_views(found@);
    let mut i: usize = 0;
    assert(table.skip(0) =~= table);
    assert(view.skip(0) =~= view);
    while i < rows.len() && i < found.len()
        invariant
            i <= rows.len(),
            i <= found.len(),
            table == keyword_table(),
            table == pattern_views(rows@),
            view == match_views(found@),
            first_route(table, view) == first_route(table.skip(i as int), view.skip(i as int)),
        decreases rows.len() - i,
    {
        assert(view.skip(i as int)[0] == match_view(found@[i as int]));
        assert(table.skip(i as int)[0] == rows@[i as int]@);
        if let Some(groups) = &found[i] {
            let params = rows[i].extract.params(groups);
            return Some((rows[i].tool.to_owned(), params));
        }
        assert(table.skip(i as int).skip(1) =~= table.skip(i + 1));
        assert(view.skip(i as int).skip(1) =~= view.skip(i + 1));
        i = i + 1;
    }
    None
}

/// Try to route an instruction via keyword matching (no LLM needed).
/// Returns the tool and its parameters on a match, nothing otherwise.
pub fn keyword_route(instruction: &str) -> (r: Option<(String, Json)>)
    ensures
        route_view(r) == keyword_routing(instruction@),
        searches_are_plain(trimmed(instruction@)),
        forall|verb: Seq<char>, n: int|
            plan_verb(verb) && 0 <= n <= i64::MAX && trimmed(instruction@)
                == #[trigger] plan_command(verb, n) ==> route_view(r) == Some(
                (
                    "cvg_"@ + verb + "_plan"@,
                    JsonView::Object(
                        seq![("plan_id"@, JsonView::Number(NumberView::PosInt(n as u64)))],
                    ),
                ),
            ),
{
    let text = trim(instruction);
    let rows = patterns();
    let ghost all = keyword_matches(text@);
    let mut found: Vec<Option<Vec<Option<String>>>> = Vec::new();
    for i in 0..rows.len()
        invariant
            pattern_views(rows@) == keyword_table(),
            all == keyword_matches(text@),
            match_views(found@) == all.take(i as int),
            forall|k: int|
                0 <= k < i ==> found_if_plain(
                    (#[trigger] keyword_table()[k]).regex,
                    text@,
                    regex_groups(keyword_table()[k].regex, text@),
                ),
    {
        let ghost before = match_views(found@);
        assert(keyword_table()[i as int] == rows@[i as int]@);
        let groups = match find_groups(rows[i].regex, text.as_str()) {
            Ok(groups) => groups,
            Err(_) => None,
        };
        assert(match_view(groups) == all[i as int]);
        found.push(groups);
        assert(match_views(found@) =~= before.push(all[i as int]));
        assert(match_views(found@) =~= all.take(i + 1));
    }
    assert(match_views(found@) =~= all);
    proof {
        assert(searches_are_plain(trimmed(instruction@)));
        law_trim_is_idempotent(instruction@);
        assert forall|verb: Seq<char>, n: int|
            plan_verb(verb) && 0 <= n <= i64::MAX && trimmed(instruction@)
                == #[trigger] plan_command(verb, n) implies keyword_routing(instruction@) == Some(
            (
                "cvg_"@ + verb + "_plan"@,
                JsonView::Object(
                    seq![("plan_id"@, JsonView::Number(NumberView::PosInt(n as u64)))],
                ),
            ),
        ) by {
            let none = Seq::<char>::empty();
            law_plan_numbers_lead_to_that_plan(none, verb, n, none);
            assert(none + plan_command(verb, n) + none =~= trimmed(instruction@));
        }
    }
    route_from_matches(&found)
}

} // verus!
