//! What holds of the tool menu, the suggestions and the compact text of JSON values.

use vstd::prelude::*;

use crate::ceo_audit::{log_answer, LogOutcome};
use crate::ceo_helpers::{
    hits, is_hit, lowercase, menu_prompt, routing_json, search_entries, strings_among, suggestion,
    tool_def, tool_defs, tool_defs_among, SearchView,
};
use crate::json::{
    escaped, json_text, lookup, member, member_texts, quoted, value_texts, JsonView, NumberView,
};
use crate::text::{
    decimal, drop_white, first_position, joined, last_position,
    law_trim_ignores_surrounding_white_space, law_words_are_split_by_white_space,
    lemma_occurs_between, occurs, skip_white, trimmed, white, word_len, words,
};
use crate::types::ToolView;

verus! {

// ---------------------------------------------------------------------------------------------
// Tool definitions
// ---------------------------------------------------------------------------------------------

/// Whether some values are strings that spell some texts, one each and in order.
pub open spec fn are_texts(values: Seq<JsonView>, spelled: Seq<Seq<char>>) -> bool {
    values.len() == spelled.len() && forall|i: int|
        0 <= i < values.len() ==> #[trigger] values[i] == JsonView::Text(spelled[i])
}

/// The strings among values that are all strings.
proof fn lemma_all_strings(values: Seq<JsonView>, spelled: Seq<Seq<char>>)
    requires
        are_texts(values, spelled),
    ensures
        strings_among(values) == spelled,
    decreases values.len(),
{
    if values.len() > 0 {
        assert forall|i: int| 0 <= i < values.drop_last().len() implies
            #[trigger] values.drop_last()[i] == JsonView::Text(spelled.drop_last()[i]) by {
            assert(values.drop_last()[i] == values[i]);
        }
        lemma_all_strings(values.drop_last(), spelled.drop_last());
        assert(values[values.len() - 1] == JsonView::Text(spelled.last()));
        assert(spelled.drop_last().push(spelled.last()) =~= spelled);
    } else {
        assert(spelled =~= Seq::empty());
    }
}

/// A definition with a name, a description, a method and a path is read as it stands, with all of
/// its path parameters in order, or with none where it names none. A method that is no string
/// counts as `POST`. A definition that lacks one of the four, or has something else than a string for
/// name, description or path, is no tool.
pub proof fn law_definition_is_read_as_it_stands(
    def: JsonView,
    name: Seq<char>,
    description: Seq<char>,
    method: JsonView,
    path: Seq<char>,
    values: Seq<JsonView>,
    params: Seq<Seq<char>>,
)
    ensures
        lookup(def, "name"@) == Some(JsonView::Text(name)) && lookup(def, "description"@) == Some(
            JsonView::Text(description),
        ) && lookup(def, "method"@) == Some(method) && lookup(def, "path"@) == Some(
            JsonView::Text(path),
        ) && (lookup(def, "path_params"@) == Some(JsonView::Array(values)) && are_texts(
            values,
            params,
        ) || lookup(def, "path_params"@) is None && params.len() == 0) ==> tool_def(def) == Some(
            ToolView {
                name,
                description,
                method: if method is Text {
                    method->Text_0
                } else {
                    "POST"@
                },
                path,
                params,
            },
        ),
        lookup(def, "method"@) is None || lookup(def, "name"@) is None || lookup(def, "name"@)->0
            !is Text || lookup(def, "description"@) is None || lookup(def, "description"@)->0
            !is Text || lookup(def, "path"@) is None || lookup(def, "path"@)->0 !is Text
            ==> tool_def(def) is None,
{
    if are_texts(values, params) {
        lemma_all_strings(values, params);
    }
    if params.len() == 0 {
        assert(params =~= Seq::empty());
    }
}

/// The menu is read from the list under `tools`: one tool for each definition of one, in order, and
/// nothing for anything else; no tool without such a list.
pub proof fn law_menu_is_read_from_the_registry(
    body: JsonView,
    defs: Seq<JsonView>,
    def: JsonView,
    tool: ToolView,
)
    ensures
        lookup(body, "tools"@) == Some(JsonView::Array(defs)) ==> tool_defs(body)
            == tool_defs_among(defs),
        lookup(body, "tools"@) is None || lookup(body, "tools"@)->0 !is Array ==> tool_defs(
            body,
        ).len() == 0,
        tool_defs_among(Seq::empty()).len() == 0,
        tool_def(def) == Some(tool) ==> tool_defs_among(defs.push(def)) == tool_defs_among(
            defs,
        ).push(tool),
        tool_def(def) is None ==> tool_defs_among(defs.push(def)) == tool_defs_among(defs),
{
    assert(defs.push(def).drop_last() =~= defs);
    assert(defs.push(def).last() == def);
}

// ---------------------------------------------------------------------------------------------
// Menu
// ---------------------------------------------------------------------------------------------

/// The menu has a heading, and one line for each tool, in order: its name, its description, and the
/// names of its parameters where it has any.
pub proof fn law_menu_has_one_line_for_each_tool(tools: Seq<ToolView>, tool: ToolView)
    ensures
        menu_prompt(Seq::empty()) == "Available tools:\n"@,
        menu_prompt(tools.push(tool)) == menu_prompt(tools) + ("- "@ + tool.name + ": "@
            + tool.description + (if tool.params.len() > 0 {
            " — "@ + joined(tool.params, ", "@)
        } else {
            Seq::empty()
        }) + "\n"@),
{
    assert(tools.push(tool).drop_last() =~= tools);
    assert(tools.push(tool).last() == tool);
    assert(menu_prompt(Seq::empty()) =~= "Available tools:\n"@);
    assert(menu_prompt(tools.push(tool)) =~= menu_prompt(tools) + ("- "@ + tool.name + ": "@
        + tool.description + (if tool.params.len() > 0 {
        " — "@ + joined(tool.params, ", "@)
    } else {
        Seq::empty()
    }) + "\n"@));
}

/// Joining puts the separator between each two parts, and leaves none out.
pub proof fn law_joining_keeps_every_part(
    parts: Seq<Seq<char>>,
    part: Seq<char>,
    separator: Seq<char>,
)
    ensures
        joined(Seq::empty(), separator).len() == 0,
        joined(seq![part], separator) == part,
        parts.len() > 0 ==> joined(parts.push(part), separator) == joined(parts, separator)
            + separator + part,
{
    assert(parts.push(part).drop_last() =~= parts);
    assert(parts.push(part).last() == part);
}

// ---------------------------------------------------------------------------------------------
// Replies
// ---------------------------------------------------------------------------------------------

/// A reply without an opening brace, or without a closing one, goes to the parser whole, but for the
/// white space around it.
pub proof fn law_reply_without_braces_is_taken_whole(
    before: Seq<char>,
    s: Seq<char>,
    after: Seq<char>,
)
    requires
        s.len() > 0,
        !white(s[0]),
        !white(s.last()),
        !s.contains('{') || !s.contains('}'),
        forall|i: int| 0 <= i < before.len() ==> white(#[trigger] before[i]),
        forall|i: int| 0 <= i < after.len() ==> white(#[trigger] after[i]),
    ensures
        trimmed(before + s + after) == s,
        routing_json(before + s + after) == Some(s),
{
    law_trim_ignores_surrounding_white_space(before, s, after);
    assert(skip_white(s) == s);
    assert(drop_white(s) == s);
    if !s.contains('{') {
        lemma_not_first(s, '{');
    }
    if !s.contains('}') {
        lemma_not_last(s, '}');
    }
}

/// A character that a text does not hold has no first position in it.
proof fn lemma_not_first(s: Seq<char>, c: char)
    requires
        !s.contains(c),
    ensures
        first_position(s, c) == s.len(),
    decreases s.len(),
{
    if s.len() > 0 {
        assert(s.contains(s[0]));
        assert forall|i: int| 0 <= i < s.skip(1).len() implies #[trigger] s.skip(1)[i] != c by {
            assert(s.skip(1)[i] == s[i + 1]);
            assert(s.contains(s[i + 1]));
        }
        assert(!s.skip(1).contains(c));
        lemma_not_first(s.skip(1), c);
    }
}

/// A character that a text does not hold has no last position in it.
proof fn lemma_not_last(s: Seq<char>, c: char)
    requires
        !s.contains(c),
    ensures
        last_position(s, c) == -1,
    decreases s.len(),
{
    if s.len() > 0 {
        assert(s.contains(s[s.len() - 1]));
        assert forall|i: int| 0 <= i < s.drop_last().len() implies #[trigger] s.drop_last()[i]
            != c by {
            assert(s.contains(s[i]));
        }
        assert(!s.drop_last().contains(c));
        lemma_not_last(s.drop_last(), c);
    }
}

// ---------------------------------------------------------------------------------------------
// Suggestions
// ---------------------------------------------------------------------------------------------

/// Whether a text is one word.
pub open spec fn is_word(s: Seq<char>) -> bool {
    s.len() > 0 && forall|i: int| 0 <= i < s.len() ==> !white(#[trigger] s[i])
}

/// A word is the only word of itself.
pub proof fn lemma_words_of_word(w: Seq<char>)
    requires
        is_word(w),
    ensures
        words(w) == seq![w],
{
    lemma_word_is_whole(w);
    assert(!white(w[0]));
    assert(w.take(w.len() as int) =~= w);
    assert(w.skip(w.len() as int) =~= Seq::empty());
    assert(words(Seq::<char>::empty()) =~= Seq::empty());
    assert(seq![w] + Seq::<Seq<char>>::empty() =~= seq![w]);
}

/// A word goes on to its end.
proof fn lemma_word_is_whole(w: Seq<char>)
    requires
        forall|i: int| 0 <= i < w.len() ==> !white(#[trigger] w[i]),
    ensures
        word_len(w) == w.len(),
    decreases w.len(),
{
    if w.len() > 0 {
        assert(!white(w[0]));
        assert forall|i: int| 0 <= i < w.skip(1).len() implies !white(#[trigger] w.skip(1)[i]) by {
            assert(w.skip(1)[i] == w[i + 1]);
        }
        lemma_word_is_whole(w.skip(1));
    }
}

/// A tool is hit wherever one word of the instruction stands in its name or in its description, with
/// whatever around it; words that stand in neither hit nothing.
pub proof fn law_word_in_name_or_description_hits(
    before: Seq<char>,
    word: Seq<char>,
    after: Seq<char>,
    left: Seq<char>,
    right: Seq<char>,
    entry: SearchView,
)
    requires
        is_word(word),
    ensures
        entry.lower_name == left + word + right || entry.lower_description == left + word + right
            ==> is_hit(before + " "@ + word + " "@ + after, entry) && is_hit(word, entry),
        !occurs(entry.lower_name, word) && !occurs(entry.lower_description, word) ==> !is_hit(
            word,
            entry,
        ),
        !is_hit(Seq::empty(), entry),
{
    reveal_strlit(" ");
    assert(" "@ =~= seq![' ']);
    lemma_words_of_word(word);
    law_words_are_split_by_white_space(before, ' ', word);
    law_words_are_split_by_white_space(before + seq![' '] + word, ' ', after);
    let all = words(before + " "@ + word + " "@ + after);
    assert(all == words(before) + seq![word] + words(after));
    let k = words(before).len() as int;
    assert(all[k] == word);
    assert(words(word)[0] == word);
    lemma_occurs_between(left, word, right);
    assert(words(Seq::<char>::empty()).len() == 0);
}

/// What is looked at for a tool is its name and its description, in lower case; what is suggested is
/// its name as it stands.
pub proof fn law_search_looks_at_the_menu(tools: Seq<ToolView>, i: int)
    requires
        0 <= i < tools.len(),
    ensures
        search_entries(tools).len() == tools.len(),
        search_entries(tools)[i].name == tools[i].name,
        search_entries(tools)[i].lower_name == lowercase(tools[i].name),
        search_entries(tools)[i].lower_description == lowercase(tools[i].description),
{
}

/// The tools that are hit are named in the order of the menu, each hit once.
pub proof fn law_hits_are_in_order(text: Seq<char>, entries: Seq<SearchView>, entry: SearchView)
    ensures
        hits(text, Seq::empty()).len() == 0,
        is_hit(text, entry) ==> hits(text, entries.push(entry)) == hits(text, entries).push(
            entry.name,
        ),
        !is_hit(text, entry) ==> hits(text, entries.push(entry)) == hits(text, entries),
{
    assert(entries.push(entry).drop_last() =~= entries);
    assert(entries.push(entry).last() == entry);
}

/// A suggestion names the tools that are hit, the first three where there are more, and asks whether
/// they were meant.
pub proof fn law_suggestion_is_spelled_out(
    text: Seq<char>,
    entries: Seq<SearchView>,
    a: Seq<char>,
    b: Seq<char>,
    c: Seq<char>,
)
    ensures
        hits(text, entries).len() == 0 ==> suggestion(text, entries) is None,
        hits(text, entries) == seq![a] ==> suggestion(text, entries) == Some(
            "Did you mean: "@ + a + "?"@,
        ),
        hits(text, entries) == seq![a, b] ==> suggestion(text, entries) == Some(
            "Did you mean: "@ + (a + ", "@ + b) + "?"@,
        ),
        hits(text, entries).len() >= 3 && hits(text, entries)[0] == a && hits(text, entries)[1] == b
            && hits(text, entries)[2] == c ==> suggestion(text, entries) == Some(
            "Did you mean: "@ + (a + ", "@ + b + ", "@ + c) + "?"@,
        ),
{
    law_joining_keeps_every_part(Seq::empty(), a, ", "@);
    law_joining_keeps_every_part(seq![a], b, ", "@);
    law_joining_keeps_every_part(seq![a, b], c, ", "@);
    assert(seq![a].push(b) =~= seq![a, b]);
    assert(seq![a, b].push(c) =~= seq![a, b, c]);
    let all = hits(text, entries);
    if all.len() >= 3 && all[0] == a && all[1] == b && all[2] == c {
        if all.len() == 3 {
            assert(all =~= seq![a, b, c]);
        } else {
            assert(all.take(3) =~= seq![a, b, c]);
        }
    }
}

// ---------------------------------------------------------------------------------------------
// Compact text
// ---------------------------------------------------------------------------------------------

/// The compact text of the values that have no parts.
pub proof fn law_compact_text_of_plain_values(n: u64, z: i64, t: Seq<char>)
    ensures
        json_text(JsonView::Null) == "null"@,
        json_text(JsonView::Bool(true)) == "true"@,
        json_text(JsonView::Bool(false)) == "false"@,
        json_text(JsonView::Number(NumberView::PosInt(n))) == decimal(n as nat),
        z < 0 ==> json_text(JsonView::Number(NumberView::NegInt(z))) == seq!['-'] + decimal(
            (-z) as nat,
        ),
        json_text(JsonView::Number(NumberView::Float(t))) == t,
        json_text(JsonView::Text(t)) == seq!['"'] + escaped(t) + seq!['"'],
{
}

/// A text without quotes, backslashes and control characters is quoted as it is; a quote and a
/// backslash get a backslash before them.
pub proof fn law_plain_text_is_quoted_as_it_is(s: Seq<char>, t: Seq<char>)
    requires
        forall|i: int|
            0 <= i < s.len() ==> #[trigger] s[i] != '"' && s[i] != '\\' && s[i] as u32 >= 0x20,
    ensures
        escaped(s) == s,
        escaped(t.push('"')) == escaped(t) + seq!['\\', '"'],
        escaped(t.push('\\')) == escaped(t) + seq!['\\', '\\'],
        escaped(t.push('\n')) == escaped(t) + seq!['\\', 'n'],
    decreases s.len(),
{
    assert(t.push('"').drop_last() =~= t && t.push('"').last() == '"');
    assert(t.push('\\').drop_last() =~= t && t.push('\\').last() == '\\');
    assert(t.push('\n').drop_last() =~= t && t.push('\n').last() == '\n');
    if s.len() > 0 {
        let front = s.drop_last();
        assert forall|i: int| 0 <= i < front.len() implies #[trigger] front[i] != '"' && front[i]
            != '\\' && front[i] as u32 >= 0x20 by {
            assert(front[i] == s[i]);
        }
        law_plain_text_is_quoted_as_it_is(front, t);
        assert(s[s.len() - 1] != '"');
        assert(front + seq![s.last()] =~= s);
    }
}

/// The parts of the texts of values put one behind the other.
proof fn lemma_value_texts(values: Seq<JsonView>, value: JsonView)
    ensures
        value_texts(values.push(value)) == value_texts(values).push(
            json_text(value),
        ),
{
    assert(value_texts(values.push(value)) =~= value_texts(values).push(
        json_text(value),
    ));
}

/// The parts of the texts of members put one behind the other.
proof fn lemma_member_texts(
    members: Seq<(Seq<char>, JsonView)>,
    key: Seq<char>,
    value: JsonView,
)
    ensures
        member_texts(members.push((key, value))) == member_texts(
            members,
        ).push(quoted(key) + seq![':'] + json_text(value)),
{
    assert(member_texts(members.push((key, value)))
        =~= member_texts(members).push(quoted(key) + seq![':'] + json_text(value)));
}

/// The compact text of an array or an object holds the text of each of its parts, in order, with a
/// comma between each two and nothing else.
pub proof fn law_compact_text_holds_every_part(
    values: Seq<JsonView>,
    members: Seq<(Seq<char>, JsonView)>,
    key: Seq<char>,
    value: JsonView,
)
    ensures
        json_text(JsonView::Array(Seq::empty())) == seq!['[', ']'],
        json_text(JsonView::Object(Seq::empty())) == seq!['{', '}'],
        json_text(JsonView::Array(seq![value])) == seq!['['] + json_text(value) + seq![']'],
        json_text(JsonView::Object(seq![(key, value)])) == seq!['{', '"'] + escaped(key) + seq![
            '"',
            ':',
        ] + json_text(value) + seq!['}'],
        values.len() > 0 ==> json_text(JsonView::Array(values.push(value))) == json_text(
            JsonView::Array(values),
        ).drop_last() + seq![','] + json_text(value) + seq![']'],
        members.len() > 0 ==> json_text(JsonView::Object(members.push((key, value)))) == json_text(
            JsonView::Object(members),
        ).drop_last() + seq![',', '"'] + escaped(key) + seq!['"', ':'] + json_text(value) + seq![
            '}',
        ],
{
    reveal_strlit(",");
    assert(","@ =~= seq![',']);
    let no_values = Seq::<JsonView>::empty();
    let no_members = Seq::<(Seq<char>, JsonView)>::empty();
    let part = quoted(key) + seq![':'] + json_text(value);
    assert(value_texts(no_values) =~= Seq::empty());
    assert(member_texts(no_members) =~= Seq::empty());
    assert(json_text(JsonView::Array(no_values)) =~= seq!['[', ']']);
    assert(json_text(JsonView::Object(no_members)) =~= seq!['{', '}']);
    lemma_value_texts(no_values, value);
    lemma_member_texts(no_members, key, value);
    assert(no_values.push(value) =~= seq![value]);
    assert(no_members.push((key, value)) =~= seq![(key, value)]);
    assert(Seq::<Seq<char>>::empty().push(json_text(value)) =~= seq![json_text(value)]);
    assert(Seq::<Seq<char>>::empty().push(part) =~= seq![part]);
    law_joining_keeps_every_part(Seq::empty(), json_text(value), ","@);
    law_joining_keeps_every_part(Seq::empty(), part, ","@);
    assert(json_text(JsonView::Object(seq![(key, value)])) =~= seq!['{', '"'] + escaped(key) + seq![
        '"',
        ':',
    ] + json_text(value) + seq!['}']);
    if values.len() > 0 {
        let texts = value_texts(values);
        lemma_value_texts(values, value);
        law_joining_keeps_every_part(texts, json_text(value), ","@);
        let inner = joined(texts, ","@);
        assert((seq!['['] + inner + seq![']']).drop_last() =~= seq!['['] + inner);
        assert(json_text(JsonView::Array(values.push(value))) =~= json_text(
            JsonView::Array(values),
        ).drop_last() + seq![','] + json_text(value) + seq![']']);
    }
    if members.len() > 0 {
        let texts = member_texts(members);
        lemma_member_texts(members, key, value);
        law_joining_keeps_every_part(texts, part, ","@);
        let inner = joined(texts, ","@);
        assert((seq!['{'] + inner + seq!['}']).drop_last() =~= seq!['{'] + inner);
        assert(json_text(JsonView::Object(members.push((key, value)))) =~= json_text(
            JsonView::Object(members),
        ).drop_last() + seq![',', '"'] + escaped(key) + seq!['"', ':'] + json_text(value) + seq![
            '}',
        ]);
    }
}

/// Where the audit log cannot be read, the answer says so; a query that failed gives an empty list.
pub proof fn law_unreadable_log_says_so(e: String)
    ensures
        lookup(log_answer(LogOutcome::Unavailable(e)), "error"@) == Some(JsonView::Text(e@)),
        lookup(log_answer(LogOutcome::QueryFailed), "count"@) == Some(
            JsonView::Number(NumberView::PosInt(0)),
        ),
        lookup(log_answer(LogOutcome::QueryFailed), "entries"@) == Some(
            JsonView::Array(Seq::empty()),
        ),
{
    reveal_strlit("count");
    reveal_strlit("entries");
    assert("count"@.len() == 5 && "entries"@.len() == 7);
    let m = log_answer(LogOutcome::QueryFailed)->Object_0;
    assert(m.skip(1)[0] == m[1]);
    reveal_with_fuel(member, 3);
}

} // verus!
