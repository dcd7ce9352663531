//! CEO helpers: tool definitions, tool menu, prompts, reply parsing, suggestions.

use vstd::prelude::*;
use vstd::string::*;

use crate::json::{
    json_text, lookup, members_view, optional_ref, string_of, values_view, Json, JsonView,
};
use crate::text::{
    chars_of, contains, end_of_last, find_char, first_position, join, joined, last_position,
    list_contains, occurs, optional_text, split_words, text_of, texts, trim, trimmed, words,
};
use crate::types::{menu_view, RoutingResult, RoutingView, ToolMenuEntry, ToolView};

verus! {

// ---------------------------------------------------------------------------------------------
// Tool definitions
// ---------------------------------------------------------------------------------------------

/// The strings among some values, in order.
pub open spec fn strings_among(values: Seq<JsonView>) -> Seq<Seq<char>>
    decreases values.len(),
{
    if values.len() == 0 {
        Seq::empty()
    } else {
        let before = strings_among(values.drop_last());
        match string_of(values.last()) {
            Some(t) => before.push(t),
            None => before,
        }
    }
}

/// The path parameters that a definition names.
pub open spec fn path_params_of(def: JsonView) -> Seq<Seq<char>> {
    match lookup(def, "path_params"@) {
        Some(JsonView::Array(values)) => strings_among(values),
        _ => Seq::empty(),
    }
}

/// The string member of a definition.
pub open spec fn string_member(def: JsonView, key: Seq<char>) -> Option<Seq<char>> {
    match lookup(def, key) {
        Some(value) => string_of(value),
        None => None,
    }
}

/// The tool that a definition describes. Name, description and path must be strings; a method
/// must be there, and counts as `POST` where it is not a string.
pub open spec fn tool_def(def: JsonView) -> Option<ToolView> {
    match (
        string_member(def, "name"@),
        string_member(def, "description"@),
        lookup(def, "method"@),
        string_member(def, "path"@),
    ) {
        (Some(name), Some(description), Some(method), Some(path)) => Some(
            ToolView {
                name,
                description,
                method: match string_of(method) {
                    Some(m) => m,
                    None => "POST"@,
                },
                path,
                params: path_params_of(def),
            },
        ),
        _ => None,
    }
}

/// The tools that some definitions describe, in order; what describes no tool is left out.
pub open spec fn tool_defs_among(defs: Seq<JsonView>) -> Seq<ToolView>
    decreases defs.len(),
{
    if defs.len() == 0 {
        Seq::empty()
    } else {
        let before = tool_defs_among(defs.drop_last());
        match tool_def(defs.last()) {
            Some(tool) => before.push(tool),
            None => before,
        }
    }
}

/// The tools that a registry document describes under its key `tools`.
pub open spec fn tool_defs(body: JsonView) -> Seq<ToolView> {
    match lookup(body, "tools"@) {
        Some(JsonView::Array(defs)) => tool_defs_among(defs),
        _ => Seq::empty(),
    }
}

/// The string member of a value, copied.
fn owned_member(value: &Json, key: &str) -> (r: Option<String>)
    ensures
        optional_text(r) == string_member(value@, key@),
{
    match value.get(key) {
        Some(v) => match v.as_str() {
            Some(t) => Some(t.to_owned()),
            None => None,
        },
        None => None,
    }
}

/// The path parameters that a definition names.
fn parse_path_params(def: &Json) -> (r: Vec<String>)
    ensures
        texts(r@) == path_params_of(def@),
{
    let mut params: Vec<String> = Vec::new();
    match def.get("path_params") {
        Some(Json::Array(values)) => {
            let ghost view = values_view(values@);
            for i in 0..values.len()
                invariant
                    view == values_view(values@),
                    texts(params@) == strings_among(view.take(i as int)),
            {
                let ghost before = texts(params@);
                assert(view.take(i + 1).drop_last() =~= view.take(i as int));
                assert(view.take(i + 1).last() == values@[i as int]@);
                if let Some(t) = values[i].as_str() {
                    params.push(t.to_owned());
                    assert(texts(params@) =~= before.push(t@));
                }
            }
            assert(view.take(values@.len() as int) =~= view);
        },
        _ => {
            assert(texts(params@) =~= Seq::empty());
        },
    }
    params
}

/// The tool that a definition describes.
fn parse_tool_def(def: &Json) -> (r: Option<ToolMenuEntry>)
    ensures
        (match r {
            Some(tool) => Some(tool@),
            None => None,
        }) == tool_def(def@),
{
    match (
        owned_member(def, "name"),
        owned_member(def, "description"),
        def.get("method"),
        owned_member(def, "path"),
    ) {
        (Some(name), Some(description), Some(method), Some(path)) => {
            let method = match method.as_str() {
                Some(m) => m.to_owned(),
                None => "POST".to_owned(),
            };
            Some(ToolMenuEntry { name, description, method, path, params: parse_path_params(def) })
        },
        _ => None,
    }
}

/// The tools that a registry document describes.
pub fn parse_tool_defs(body: &Json) -> (r: Vec<ToolMenuEntry>)
    ensures
        menu_view(r@) == tool_defs(body@),
{
    let mut tools: Vec<ToolMenuEntry> = Vec::new();
    match body.get("tools") {
        Some(Json::Array(defs)) => {
            let ghost view = values_view(defs@);
            for i in 0..defs.len()
                invariant
                    view == values_view(defs@),
                    menu_view(tools@) == tool_defs_among(view.take(i as int)),
            {
                let ghost before = menu_view(tools@);
                assert(view.take(i + 1).drop_last() =~= view.take(i as int));
                assert(view.take(i + 1).last() == defs@[i as int]@);
                if let Some(tool) = parse_tool_def(&defs[i]) {
                    let ghost tool_view = tool@;
                    tools.push(tool);
                    assert(menu_view(tools@) =~= before.push(tool_view));
                }
            }
            assert(view.take(defs@.len() as int) =~= view);
        },
        _ => {
            assert(menu_view(tools@) =~= Seq::empty());
        },
    }
    tools
}

// ---------------------------------------------------------------------------------------------
// Tool menu and routing prompt
// ---------------------------------------------------------------------------------------------

/// What a menu line says of the parameters: nothing where there are none.
pub open spec fn params_note(params: Seq<Seq<char>>) -> Seq<char> {
    if params.len() == 0 {
        Seq::empty()
    } else {
        " — "@ + joined(params, ", "@)
    }
}

/// The line of one tool in the menu.
pub open spec fn menu_line(tool: ToolView) -> Seq<char> {
    "- "@ + tool.name + ": "@ + tool.description + params_note(tool.params) + "\n"@
}

/// The lines of the tools, in order.
pub open spec fn menu_lines(tools: Seq<ToolView>) -> Seq<char>
    decreases tools.len(),
{
    if tools.len() == 0 {
        Seq::empty()
    } else {
        menu_lines(tools.drop_last()) + menu_line(tools.last())
    }
}

/// The whole tool menu.
pub open spec fn menu_prompt(tools: Seq<ToolView>) -> Seq<char> {
    "Available tools:\n"@ + menu_lines(tools)
}

/// What the routing prompt says before the tool menu.
pub const ROUTER_ROLE: &'static str = "You are a tool router for the Convergio platform.\nGiven a user instruction, select the most appropriate tool and extract parameters.\nTools are listed as name: description — required params.\n\n";

/// What the routing prompt says after the tool menu.
pub const ROUTER_RULES: &'static str = "\nRespond with ONLY valid JSON:\n{\"tool\": \"tool_name\", \"params\": {\"key\": \"value\"}}\n\nIf the instruction is ambiguous, pick the most likely tool.\nIf no tool matches, respond: {\"tool\": null, \"error\": \"No matching tool for: <instruction>\"}\n";

/// What the routing prompt says of the context: nothing where there is none.
pub open spec fn context_note(context: Option<JsonView>) -> Seq<char> {
    match context {
        Some(value) => "\n\nContext: "@ + json_text(value),
        None => Seq::empty(),
    }
}

/// The prompt that asks the model to pick a tool.
pub open spec fn routing_prompt(
    menu: Seq<char>,
    instruction: Seq<char>,
    context: Option<JsonView>,
) -> Seq<char> {
    ROUTER_ROLE@ + menu + ROUTER_RULES@ + "\nInstruction: "@ + instruction + context_note(context)
}

/// The tool menu: one line for each tool.
pub fn build_tool_menu_prompt(tools: &[ToolMenuEntry]) -> (r: String)
    ensures
        r@ == menu_prompt(menu_view(tools@)),
{
    let mut menu = "Available tools:\n".to_owned();
    let ghost view = menu_view(tools@);
    assert(menu@ =~= "Available tools:\n"@ + menu_lines(view.take(0)));
    for i in 0..tools.len()
        invariant
            view == menu_view(tools@),
            menu@ == "Available tools:\n"@ + menu_lines(view.take(i as int)),
    {
        let ghost before = menu@;
        assert(view.take(i + 1).drop_last() =~= view.take(i as int));
        assert(view.take(i + 1).last() == tools@[i as int]@);
        menu.append("- ");
        menu.append(tools[i].name.as_str());
        menu.append(": ");
        menu.append(tools[i].description.as_str());
        if tools[i].params.len() > 0 {
            menu.append(" — ");
            let list = join(tools[i].params.as_slice(), ", ");
            menu.append(list.as_str());
        }
        menu.append("\n");
        assert(menu@ =~= before + menu_line(view[i as int]));
        assert(menu@ =~= "Available tools:\n"@ + menu_lines(view.take(i + 1)));
    }
    assert(view.take(tools@.len() as int) =~= view);
    menu
}

/// The prompt that asks the model to pick a tool for an instruction.
pub fn build_routing_prompt(tool_menu: &str, instruction: &str, context: Option<&Json>) -> (r:
    String)
    ensures
        r@ == routing_prompt(tool_menu@, instruction@, optional_ref(context)),
{
    let mut r = ROUTER_ROLE.to_owned();
    r.append(tool_menu);
    r.append(ROUTER_RULES);
    r.append("\nInstruction: ");
    r.append(instruction);
    if let Some(value) = context {
        r.append("\n\nContext: ");
        let text = value.to_text();
        r.append(text.as_str());
    }
    assert(r@ =~= routing_prompt(tool_menu@, instruction@, optional_ref(context)));
    r
}

// ---------------------------------------------------------------------------------------------
// Routing reply
// ---------------------------------------------------------------------------------------------

/// The JSON text in a reply: from its first `{` to its last `}`, or all of it but the white space
/// at its ends where a brace is missing. There is none where the last `}` stands before the first
/// `{`.
pub open spec fn routing_json(content: Seq<char>) -> Option<Seq<char>> {
    let text = trimmed(content);
    let start = first_position(text, '{');
    let end = last_position(text, '}') + 1;
    if start == text.len() || end == 0 {
        Some(text)
    } else if start <= end {
        Some(text.subrange(start, end))
    } else {
        None
    }
}

/// What a parser made of a text.
pub open spec fn parsed_view(parsed: Result<RoutingResult, String>) -> Result<
    RoutingView,
    Seq<char>,
> {
    match parsed {
        Ok(routing) => Ok(routing@),
        Err(e) => Err(e@),
    }
}

/// What is reported of a parse: the result, or the parser's error behind a note of what failed.
pub open spec fn reported_parse(
    parsed: Result<RoutingView, Seq<char>>,
) -> Result<RoutingView, Seq<char>> {
    match parsed {
        Ok(routing) => Ok(routing),
        Err(e) => Err("JSON parse error: "@ + e),
    }
}

/// What a reply says, where `parsed` is what the parser made of its JSON text: an error where it
/// has none.
pub open spec fn reply_result(
    content: Seq<char>,
    parsed: Result<RoutingView, Seq<char>>,
) -> Result<RoutingView, Seq<char>> {
    match routing_json(content) {
        Some(_) => reported_parse(parsed),
        None => Err("JSON parse error: braces out of order"@),
    }
}

/// Whether `parsed` is what the parser makes of the JSON text in a reply, if it has one.
pub open spec fn reply_parses_to<P: Fn(&str) -> Result<RoutingResult, String>>(
    parse: P,
    content: Seq<char>,
    parsed: Result<RoutingView, Seq<char>>,
) -> bool {
    routing_json(content) matches Some(text) ==> parses_to(parse, text, parsed)
}

/// Whether `parsed` is an outcome of the parser on a text.
pub open spec fn parses_to<P: Fn(&str) -> Result<RoutingResult, String>>(
    parse: P,
    text: Seq<char>,
    parsed: Result<RoutingView, Seq<char>>,
) -> bool {
    exists|t: &str, out: Result<RoutingResult, String>|
        t@ == text && #[trigger] call_ensures(parse, (t,), out) && parsed_view(out) == parsed
}

/// Whether a parser takes every text.
pub open spec fn takes_any_text<P: Fn(&str) -> Result<RoutingResult, String>>(parse: P) -> bool {
    forall|t: &str| #[trigger] call_requires(parse, (t,))
}

/// The JSON text in a reply, which may stand between other text.
pub fn extract_json(content: &str) -> (r: Option<String>)
    ensures
        optional_text(r) == routing_json(content@),
{
    let text = trim(content);
    let v = chars_of(text.as_str());
    let start = find_char(&v, '{');
    let end = end_of_last(&v, '}');
    if start == v.len() || end == 0 {
        Some(text)
    } else if start <= end {
        Some(text_of(&v, start, end))
    } else {
        None
    }
}

/// What is reported of a parse.
pub fn report_parse(parsed: Result<RoutingResult, String>) -> (r: Result<RoutingResult, String>)
    ensures
        parsed_view(r) == reported_parse(parsed_view(parsed)),
{
    match parsed {
        Ok(routing) => Ok(routing),
        Err(e) => {
            let mut report = "JSON parse error: ".to_owned();
            report.append(e.as_str());
            Err(report)
        },
    }
}

/// Reads the routing result out of a reply of the model, with the given JSON parser. The parser
/// gets the JSON text in the reply, and nothing else; what it returns is what is reported. A reply
/// whose last `}` stands before its first `{` is an error.
pub fn parse_routing_response<P: Fn(&str) -> Result<RoutingResult, String>>(
    content: &str,
    parse: &P,
) -> (r: Result<RoutingResult, String>)
    requires
        takes_any_text(*parse),
    ensures
        exists|parsed: Result<RoutingView, Seq<char>>| #[trigger]
            reply_parses_to(*parse, content@, parsed) && parsed_view(r) == reply_result(
                content@,
                parsed,
            ),
        routing_json(content@) is None ==> r is Err,
{
    match extract_json(content) {
        Some(text) => {
            let t: &str = text.as_str();
            let parsed = parse(t);
            assert(parses_to(*parse, t@, parsed_view(parsed)));
            assert(reply_parses_to(*parse, content@, parsed_view(parsed)));
            report_parse(parsed)
        },
        None => {
            assert(reply_parses_to(*parse, content@, Err(Seq::empty())));
            Err("JSON parse error: braces out of order".to_owned())
        },
    }
}

// ---------------------------------------------------------------------------------------------
// Suggestions
// ---------------------------------------------------------------------------------------------

/// The most tools that a suggestion names.
pub const MAX_SUGGESTIONS: usize = 3;

/// What `str::to_lowercase` makes of a text.
pub uninterp spec fn lowercase(s: Seq<char>) -> Seq<char>;

/// `str::to_lowercase`: the lower-case equivalent of a text, which depends on the text alone.
/// What it is on a given text is left unsaid.
#[verifier::external_body]
fn to_lower(s: &str) -> (r: String)
    ensures
        r@ == lowercase(s@),
{
    s.to_lowercase()
}

/// A tool with the lower-case texts that a search for it looks at.
pub struct SearchEntry {
    pub name: String,
    pub lower_name: String,
    pub lower_description: String,
}

/// What a search entry says.
pub struct SearchView {
    pub name: Seq<char>,
    pub lower_name: Seq<char>,
    pub lower_description: Seq<char>,
}

impl View for SearchEntry {
    type V = SearchView;

    open spec fn view(&self) -> SearchView {
        SearchView {
            name: self.name@,
            lower_name: self.lower_name@,
            lower_description: self.lower_description@,
        }
    }
}

/// What some search entries say.
pub open spec fn search_views(entries: Seq<SearchEntry>) -> Seq<SearchView> {
    Seq::new(entries.len(), |i: int| entries[i]@)
}

/// The search entry of a tool.
pub open spec fn search_entry(tool: ToolView) -> SearchView {
    SearchView {
        name: tool.name,
        lower_name: lowercase(tool.name),
        lower_description: lowercase(tool.description),
    }
}

/// The search entries of the tools of a menu.
pub open spec fn search_entries(tools: Seq<ToolView>) -> Seq<SearchView> {
    Seq::new(tools.len(), |i: int| search_entry(tools[i]))
}

/// Whether a word of the instruction stands in the name or the description of a tool.
pub open spec fn is_hit(lower_instruction: Seq<char>, entry: SearchView) -> bool {
    exists|k: int|
        0 <= k < words(lower_instruction).len() && {
            ||| occurs(entry.lower_name, #[trigger] words(lower_instruction)[k])
            ||| occurs(entry.lower_description, words(lower_instruction)[k])
        }
}

/// The names of the tools that the instruction hits, in the order of the menu.
pub open spec fn hits(lower_instruction: Seq<char>, entries: Seq<SearchView>) -> Seq<Seq<char>>
    decreases entries.len(),
{
    if entries.len() == 0 {
        Seq::empty()
    } else {
        let before = hits(lower_instruction, entries.drop_last());
        if is_hit(lower_instruction, entries.last()) {
            before.push(entries.last().name)
        } else {
            before
        }
    }
}

/// The first `n` parts of a list, or all of them where it is shorter.
pub open spec fn at_most(parts: Seq<Seq<char>>, n: nat) -> Seq<Seq<char>> {
    if parts.len() <= n {
        parts
    } else {
        parts.take(n as int)
    }
}

/// The suggestion for an instruction: the first tools that it hits.
pub open spec fn suggestion(
    lower_instruction: Seq<char>,
    entries: Seq<SearchView>,
) -> Option<Seq<char>> {
    let names = at_most(hits(lower_instruction, entries), MAX_SUGGESTIONS as nat);
    if names.len() == 0 {
        None
    } else {
        Some("Did you mean: "@ + joined(names, ", "@) + "?"@)
    }
}

/// Whether a word stands in the name or the description of a tool.
fn hits_entry(instruction_words: &Vec<String>, entry: &SearchEntry) -> (r: bool)
    ensures
        r == exists|k: int|
            0 <= k < instruction_words@.len() && {
                ||| occurs(entry@.lower_name, #[trigger] texts(instruction_words@)[k])
                ||| occurs(entry@.lower_description, texts(instruction_words@)[k])
            },
{
    for k in 0..instruction_words.len()
        invariant
            forall|j: int|
                0 <= j < k ==> !occurs(entry@.lower_name, #[trigger] texts(instruction_words@)[j])
                    && !occurs(entry@.lower_description, texts(instruction_words@)[j]),
    {
        let word = instruction_words[k].as_str();
        assert(texts(instruction_words@)[k as int] == word@);
        if contains(entry.lower_name.as_str(), word) || contains(
            entry.lower_description.as_str(),
            word,
        ) {
            return true;
        }
    }
    false
}

/// The suggestion for an instruction, out of texts that are already in lower case.
pub fn suggest(lower_instruction: &str, entries: &[SearchEntry]) -> (r: Option<String>)
    ensures
        optional_text(r) == suggestion(lower_instruction@, search_views(entries@)),
{
    let instruction_words = split_words(lower_instruction);
    let ghost view = search_views(entries@);
    let mut names: Vec<String> = Vec::new();
    assert(texts(names@) =~= at_most(hits(lower_instruction@, view.take(0)), MAX_SUGGESTIONS as nat));
    for i in 0..entries.len()
        invariant
            view == search_views(entries@),
            texts(instruction_words@) == words(lower_instruction@),
            texts(names@) == at_most(
                hits(lower_instruction@, view.take(i as int)),
                MAX_SUGGESTIONS as nat,
            ),
    {
        let ghost before = texts(names@);
        assert(view.take(i + 1).drop_last() =~= view.take(i as int));
        assert(view.take(i + 1).last() == entries@[i as int]@);
        if names.len() < MAX_SUGGESTIONS && hits_entry(&instruction_words, &entries[i]) {
            names.push(entries[i].name.clone());
            assert(texts(names@) =~= before.push(entries@[i as int].name@));
        }
        assert(texts(names@) =~= at_most(
            hits(lower_instruction@, view.take(i + 1)),
            MAX_SUGGESTIONS as nat,
        ));
    }
    assert(view.take(entries@.len() as int) =~= view);
    if names.len() == 0 {
        None
    } else {
        let mut r = "Did you mean: ".to_owned();
        let list = join(names.as_slice(), ", ");
        r.append(list.as_str());
        r.append("?");
        Some(r)
    }
}

/// The suggestion for an instruction that matched no tool.
pub fn find_suggestion(instruction: &str, tools: &[ToolMenuEntry]) -> (r: Option<String>)
    ensures
        optional_text(r) == suggestion(lowercase(instruction@), search_entries(menu_view(tools@))),
{
    let lower = to_lower(instruction);
    let mut entries: Vec<SearchEntry> = Vec::new();
    let ghost view = search_entries(menu_view(tools@));
    for i in 0..tools.len()
        invariant
            view == search_entries(menu_view(tools@)),
            search_views(entries@) == view.take(i as int),
    {
        let ghost before = search_views(entries@);
        let entry = SearchEntry {
            name: tools[i].name.clone(),
            lower_name: to_lower(tools[i].name.as_str()),
            lower_description: to_lower(tools[i].description.as_str()),
        };
        assert(entry@ == view[i as int]);
        entries.push(entry);
        assert(search_views(entries@) =~= before.push(view[i as int]));
        assert(search_views(entries@) =~= view.take(i + 1));
    }
    assert(search_views(entries@) =~= view);
    suggest(lower.as_str(), entries.as_slice())
}

// ---------------------------------------------------------------------------------------------
// Path parameters
// ---------------------------------------------------------------------------------------------

/// The members whose keys are not path parameters, in order.
pub open spec fn without_params(
    members: Seq<(Seq<char>, JsonView)>,
    path_params: Seq<Seq<char>>,
) -> Seq<(Seq<char>, JsonView)> {
    members.filter(|m: (Seq<char>, JsonView)| !path_params.contains(m.0))
}

/// The arguments without the path parameters: an object always, empty where the arguments were
/// none.
pub open spec fn stripped(args: JsonView, path_params: Seq<Seq<char>>) -> JsonView {
    match args {
        JsonView::Object(members) => JsonView::Object(without_params(members, path_params)),
        _ => JsonView::Object(Seq::empty()),
    }
}

/// The arguments without the path parameters.
pub fn strip_path_params(args: &Json, path_params: &[String]) -> (r: Json)
    ensures
        r@ == stripped(args@, texts(path_params@)),
{
    let mut kept: Vec<(String, Json)> = Vec::new();
    match args {
        Json::Object(members) => {
            let ghost view = members_view(members@);
            let ghost keep = |m: (Seq<char>, JsonView)| !texts(path_params@).contains(m.0);
            reveal(Seq::filter);
            for i in 0..members.len()
                invariant
                    view == members_view(members@),
                    keep == (|m: (Seq<char>, JsonView)| !texts(path_params@).contains(m.0)),
                    members_view(kept@) == view.take(i as int).filter(keep),
            {
                let ghost before = members_view(kept@);
                reveal(Seq::filter);
                assert(view.take(i + 1).drop_last() =~= view.take(i as int));
                assert(view.take(i + 1).last() == view[i as int]);
                if !list_contains(path_params, members[i].0.as_str()) {
                    kept.push((members[i].0.clone(), members[i].1.clone()));
                    assert(members_view(kept@) =~= before.push(view[i as int]));
                }
            }
            assert(view.take(members@.len() as int) =~= view);
            assert(members_view(kept@) == without_params(view, texts(path_params@)));
        },
        _ => {
            assert(members_view(kept@) =~= Seq::empty());
        },
    }
    Json::Object(kept)
}

} // verus!
