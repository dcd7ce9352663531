//! CEO dispatch: the request that calls a tool of the daemon.

use vstd::prelude::*;
use vstd::string::*;
use vstd::utf8::encode_utf8;

use crate::ceo_helpers::{strip_path_params, stripped};
use crate::http::{daemon_request, request_to, HttpMethod, HttpRequest, RequestView};
use crate::json::{json_text, lookup, number_text, Json, JsonView};
use crate::text::{chars_of, optional_text, replace_all, replaced, same_text, texts};
use crate::types::{menu_view, ToolMenuEntry, ToolView};

verus! {

/// The upper-case hexadecimal digit of a number below sixteen.
pub open spec fn upper_hex(n: nat) -> char {
    if n < 10 {
        ('0' as u32 + n) as char
    } else {
        ('A' as u32 + (n - 10)) as char
    }
}

/// The characters that stand for themselves in a URL: letters, digits and four marks.
pub open spec fn unreserved(c: char) -> bool {
    ||| '0' <= c <= '9'
    ||| 'A' <= c <= 'Z'
    ||| 'a' <= c <= 'z'
    ||| c == '-'
    ||| c == '_'
    ||| c == '.'
    ||| c == '~'
}

/// A byte in a URL: itself, or its two hexadecimal digits behind a percent sign.
pub open spec fn percent(byte: u8) -> Seq<char> {
    if unreserved(byte as char) {
        seq![byte as char]
    } else {
        seq!['%', upper_hex((byte / 16) as nat), upper_hex((byte % 16) as nat)]
    }
}

/// Some bytes in a URL.
pub open spec fn percent_all(bytes: Seq<u8>) -> Seq<char>
    decreases bytes.len(),
{
    if bytes.len() == 0 {
        Seq::empty()
    } else {
        percent_all(bytes.drop_last()) + percent(bytes.last())
    }
}

/// A text in a URL: its UTF-8 bytes, percent-encoded.
pub open spec fn url_encoded(s: Seq<char>) -> Seq<char> {
    percent_all(encode_utf8(s))
}

/// `urlencoding::encode`: every byte of the UTF-8 text stands as a percent sign and two upper-case
/// hexadecimal digits, except ASCII letters and digits and `-`, `_`, `.`, `~`, which stay.
#[verifier::external_body]
fn url_encode(s: &str) -> (r: String)
    ensures
        r@ == url_encoded(s@),
{
    urlencoding::encode(s).into_owned()
}

/// The text of a parameter before it is encoded: a string as it is, anything else as JSON.
pub open spec fn param_text(value: JsonView) -> Seq<char> {
    match value {
        JsonView::Number(n) => number_text(n),
        JsonView::Text(t) => t,
        _ => json_text(value),
    }
}

/// A path with the placeholder `:name` of each given parameter replaced by its encoded value, one
/// parameter after the other.
pub open spec fn filled_path(path: Seq<char>, names: Seq<Seq<char>>, params: JsonView) -> Seq<char>
    decreases names.len(),
{
    if names.len() == 0 {
        path
    } else {
        let before = filled_path(path, names.drop_last(), params);
        match lookup(params, names.last()) {
            Some(value) => replaced(
                before,
                seq![':'] + names.last(),
                url_encoded(param_text(value)),
            ),
            None => before,
        }
    }
}

/// The first tool with the given name.
pub open spec fn tool_named(tools: Seq<ToolView>, name: Seq<char>) -> Option<ToolView>
    decreases tools.len(),
{
    if tools.len() == 0 {
        None
    } else if tools[0].name == name {
        Some(tools[0])
    } else {
        tool_named(tools.skip(1), name)
    }
}

/// The method that a tool is called with: `GET` where its entry names none of the others.
pub open spec fn method_named(name: Seq<char>) -> HttpMethod {
    if name == "POST"@ {
        HttpMethod::Post
    } else if name == "PUT"@ {
        HttpMethod::Put
    } else if name == "DELETE"@ {
        HttpMethod::Delete
    } else {
        HttpMethod::Get
    }
}

/// The body of a call: the parameters that are not in the path, for the methods that carry a body.
pub open spec fn call_body(tool: ToolView, params: JsonView) -> Option<JsonView> {
    match method_named(tool.method) {
        HttpMethod::Post | HttpMethod::Put => Some(stripped(params, tool.params)),
        _ => None,
    }
}

/// The request that calls a tool.
pub open spec fn tool_call(
    tool: ToolView,
    params: JsonView,
    daemon_url: Seq<char>,
    api_token: Option<Seq<char>>,
) -> RequestView {
    daemon_request(
        method_named(tool.method),
        daemon_url,
        filled_path(tool.path, tool.params, params),
        api_token,
        call_body(tool, params),
    )
}

/// The request that calls the tool with the given name; an error where the menu has none.
pub open spec fn dispatch_call(
    tools: Seq<ToolView>,
    name: Seq<char>,
    params: JsonView,
    daemon_url: Seq<char>,
    api_token: Option<Seq<char>>,
) -> Result<RequestView, Seq<char>> {
    match tool_named(tools, name) {
        Some(tool) => Ok(tool_call(tool, params, daemon_url, api_token)),
        None => Err("Unknown tool: "@ + name),
    }
}

/// Whether a parameter is given as a string, a number or a boolean.
pub open spec fn is_given(params: JsonView, name: Seq<char>) -> bool {
    match lookup(params, name) {
        Some(JsonView::Bool(_)) | Some(JsonView::Number(_)) | Some(JsonView::Text(_)) => true,
        _ => false,
    }
}

/// The first of some parameters that is not given.
pub open spec fn first_not_given(names: Seq<Seq<char>>, params: JsonView) -> Option<Seq<char>>
    decreases names.len(),
{
    if names.len() == 0 {
        None
    } else if !is_given(params, names[0]) {
        Some(names[0])
    } else {
        first_not_given(names.skip(1), params)
    }
}

/// The first parameter that a tool requires and that is not given.
pub open spec fn missing_param(tool: ToolView, params: JsonView) -> Option<Seq<char>> {
    first_not_given(tool.params, params)
}

/// Whether a parameter is given as `.` or `..`, which no encoding keeps from being a dot segment.
pub open spec fn is_dots(params: JsonView, name: Seq<char>) -> bool {
    match lookup(params, name) {
        Some(value) => param_text(value) == seq!['.'] || param_text(value) == seq!['.', '.'],
        None => false,
    }
}

/// The first of some parameters that is given as `.` or `..`.
pub open spec fn first_dots(names: Seq<Seq<char>>, params: JsonView) -> Option<Seq<char>>
    decreases names.len(),
{
    if names.len() == 0 {
        None
    } else if is_dots(params, names[0]) {
        Some(names[0])
    } else {
        first_dots(names.skip(1), params)
    }
}

/// Whether a character ends a segment of a path.
pub open spec fn ends_segment(c: char) -> bool {
    c == '/' || c == '\\' || c == '?' || c == '#'
}

/// Where the dot that stands at a position ends, be it plain or percent-encoded; the position
/// itself where no dot stands there.
pub open spec fn dot_end(s: Seq<char>, at: int) -> int {
    if at < s.len() && s[at] == '.' {
        at + 1
    } else if at + 2 < s.len() && s[at] == '%' && s[at + 1] == '2' && (s[at + 2] == 'e' || s[at + 2]
        == 'E') {
        at + 3
    } else {
        at
    }
}

/// Whether a segment ends at a position.
pub open spec fn segment_ends(s: Seq<char>, at: int) -> bool {
    at == s.len() || ends_segment(s[at])
}

/// Whether a segment begins at a position that is one dot or two, and nothing else.
pub open spec fn dot_segment_at(s: Seq<char>, at: int) -> bool {
    let one = dot_end(s, at);
    let two = dot_end(s, one);
    &&& at == 0 || ends_segment(s[at - 1])
    &&& one > at
    &&& segment_ends(s, one) || (two > one && segment_ends(s, two))
}

/// Whether a path has a dot segment, with which a URL parser goes up the path or stays where it is.
pub open spec fn has_dot_segment(s: Seq<char>) -> bool {
    exists|at: int| 0 <= at < s.len() && dot_segment_at(s, at)
}

/// What is wrong with a call of the tool with the given name: a parameter that is missing, one that
/// is `.` or `..`, or parameters that together make a dot segment in a path that had none. Nothing
/// where the menu has no such tool.
pub open spec fn call_fault(tools: Seq<ToolView>, name: Seq<char>, params: JsonView) -> Option<
    Seq<char>,
> {
    match tool_named(tools, name) {
        Some(tool) => {
            let path = filled_path(tool.path, tool.params, params);
            match (missing_param(tool, params), first_dots(tool.params, params)) {
                (Some(param), _) => Some("Missing parameter for "@ + name + ": "@ + param),
                (None, Some(param)) => Some("Invalid parameter for "@ + name + ": "@ + param),
                (None, None) => if has_dot_segment(path) && !has_dot_segment(tool.path) {
                    Some("Invalid path for "@ + name + ": "@ + path)
                } else {
                    None
                },
            }
        },
        None => None,
    }
}

/// What a planned call says.
pub open spec fn planned_view(planned: Result<HttpRequest, String>) -> Result<
    RequestView,
    Seq<char>,
> {
    match planned {
        Ok(request) => Ok(request@),
        Err(e) => Err(e@),
    }
}

/// The text of a parameter before it is encoded.
fn write_param(value: &Json) -> (r: String)
    ensures
        r@ == param_text(value@),
{
    match value {
        Json::Number(n) => n.to_text(),
        Json::Text(t) => t.clone(),
        _ => value.to_text(),
    }
}

/// The path of a tool with its placeholders filled.
pub fn fill_path(path: &str, names: &[String], params: &Json) -> (r: String)
    ensures
        r@ == filled_path(path@, texts(names@), params@),
{
    let mut filled = path.to_owned();
    let ghost view = texts(names@);
    for i in 0..names.len()
        invariant
            view == texts(names@),
            filled@ == filled_path(path@, view.take(i as int), params@),
    {
        assert(view.take(i + 1).drop_last() =~= view.take(i as int));
        assert(view.take(i + 1).last() == names@[i as int]@);
        if let Some(value) = params.get(names[i].as_str()) {
            let raw = write_param(value);
            let encoded = url_encode(raw.as_str());
            let mut placeholder = String::new();
            placeholder.push(':');
            placeholder.append(names[i].as_str());
            assert(placeholder@ =~= seq![':'] + names@[i as int]@);
            filled = replace_all(filled.as_str(), placeholder.as_str(), encoded.as_str());
        }
    }
    assert(view.take(names@.len() as int) =~= view);
    filled
}

/// The method that a tool is called with.
fn read_method(name: &str) -> (r: HttpMethod)
    ensures
        r == method_named(name@),
{
    if same_text(name, "POST") {
        HttpMethod::Post
    } else if same_text(name, "PUT") {
        HttpMethod::Put
    } else if same_text(name, "DELETE") {
        HttpMethod::Delete
    } else {
        HttpMethod::Get
    }
}

/// The request that calls a tool.
pub fn call_tool(
    tool: &ToolMenuEntry,
    params: &Json,
    daemon_url: &str,
    api_token: &Option<String>,
) -> (r: HttpRequest)
    ensures
        r@ == tool_call(tool@, params@, daemon_url@, optional_text(*api_token)),
{
    let path = fill_path(tool.path.as_str(), tool.params.as_slice(), params);
    let method = read_method(tool.method.as_str());
    let body = match method {
        HttpMethod::Post | HttpMethod::Put => {
            Some(strip_path_params(params, tool.params.as_slice()))
        },
        _ => None,
    };
    request_to(method, daemon_url, path.as_str(), api_token, body)
}

/// The first tool with the given name.
fn find_tool<'a>(tools: &'a [ToolMenuEntry], name: &str) -> (r: Option<&'a ToolMenuEntry>)
    ensures
        (match r {
            Some(tool) => Some(tool@),
            None => None,
        }) == tool_named(menu_view(tools@), name@),
{
    let ghost view = menu_view(tools@);
    assert(view.skip(0) =~= view);
    for i in 0..tools.len()
        invariant
            view == menu_view(tools@),
            tool_named(view, name@) == tool_named(view.skip(i as int), name@),
    {
        assert(view.skip(i as int)[0] == tools@[i as int]@);
        if same_text(tools[i].name.as_str(), name) {
            return Some(&tools[i]);
        }
        assert(view.skip(i as int).skip(1) =~= view.skip(i + 1));
    }
    None
}

/// The first of some parameters that is not given.
pub fn find_missing(names: &[String], params: &Json) -> (r: Option<String>)
    ensures
        optional_text(r) == first_not_given(texts(names@), params@),
{
    let ghost view = texts(names@);
    assert(view.skip(0) =~= view);
    for i in 0..names.len()
        invariant
            view == texts(names@),
            first_not_given(view, params@) == first_not_given(view.skip(i as int), params@),
    {
        assert(view.skip(i as int)[0] == names@[i as int]@);
        let given = match params.get(names[i].as_str()) {
            Some(Json::Bool(_)) | Some(Json::Number(_)) | Some(Json::Text(_)) => true,
            _ => false,
        };
        if !given {
            return Some(names[i].clone());
        }
        assert(view.skip(i as int).skip(1) =~= view.skip(i + 1));
    }
    None
}

/// The first of some parameters that is given as `.` or `..`.
pub fn find_dots(names: &[String], params: &Json) -> (r: Option<String>)
    ensures
        optional_text(r) == first_dots(texts(names@), params@),
{
    let ghost view = texts(names@);
    assert(view.skip(0) =~= view);
    for i in 0..names.len()
        invariant
            view == texts(names@),
            first_dots(view, params@) == first_dots(view.skip(i as int), params@),
    {
        assert(view.skip(i as int)[0] == names@[i as int]@);
        if let Some(value) = params.get(names[i].as_str()) {
            let v = chars_of(write_param(value).as_str());
            if (v.len() == 1 && v[0] == '.') || (v.len() == 2 && v[0] == '.' && v[1] == '.') {
                assert(v@ =~= seq!['.'] || v@ =~= seq!['.', '.']);
                return Some(names[i].clone());
            }
        }
        assert(view.skip(i as int).skip(1) =~= view.skip(i + 1));
    }
    None
}

/// Whether a character ends a segment of a path.
fn is_segment_end(c: char) -> (r: bool)
    ensures
        r == ends_segment(c),
{
    c == '/' || c == '\\' || c == '?' || c == '#'
}

/// Where the dot that stands at a position ends.
fn find_dot_end(v: &Vec<char>, at: usize) -> (r: usize)
    requires
        at <= v@.len(),
    ensures
        r == dot_end(v@, at as int),
        at <= r <= v@.len(),
{
    if at < v.len() && v[at] == '.' {
        at + 1
    } else if v.len() >= 3 && at < v.len() - 2 && v[at] == '%' && v[at + 1] == '2' && (v[at + 2]
        == 'e' || v[at + 2] == 'E') {
        at + 3
    } else {
        at
    }
}

/// Whether a path has a dot segment.
pub fn finds_dot_segment(path: &str) -> (r: bool)
    ensures
        r == has_dot_segment(path@),
{
    let v = chars_of(path);
    for at in 0..v.len()
        invariant
            v@ == path@,
            forall|k: int| 0 <= k < at ==> !#[trigger] dot_segment_at(v@, k),
    {
        if at == 0 || is_segment_end(v[at - 1]) {
            let one = find_dot_end(&v, at);
            if one > at {
                if one == v.len() || is_segment_end(v[one]) {
                    assert(dot_segment_at(v@, at as int));
                    return true;
                }
                let two = find_dot_end(&v, one);
                if two > one && (two == v.len() || is_segment_end(v[two])) {
                    assert(dot_segment_at(v@, at as int));
                    return true;
                }
            }
        }
        assert(!dot_segment_at(v@, at as int));
    }
    false
}

/// What is wrong with a call: a note, the name of the tool, and what the note is about.
fn write_fault(note: &str, name: &str, what: &str) -> (r: String)
    ensures
        r@ == note@ + name@ + ": "@ + what@,
{
    let mut fault = note.to_owned();
    fault.append(name);
    fault.append(": ");
    fault.append(what);
    fault
}

/// Validates a call of the tool with the given name: what is wrong with it, if anything.
pub fn check_call(tools: &[ToolMenuEntry], name: &str, params: &Json) -> (r: Option<String>)
    ensures
        optional_text(r) == call_fault(menu_view(tools@), name@, params@),
{
    match find_tool(tools, name) {
        Some(tool) => {
            if let Some(param) = find_missing(tool.params.as_slice(), params) {
                return Some(write_fault("Missing parameter for ", name, param.as_str()));
            }
            if let Some(param) = find_dots(tool.params.as_slice(), params) {
                return Some(write_fault("Invalid parameter for ", name, param.as_str()));
            }
            let path = fill_path(tool.path.as_str(), tool.params.as_slice(), params);
            if finds_dot_segment(path.as_str()) && !finds_dot_segment(tool.path.as_str()) {
                return Some(write_fault("Invalid path for ", name, path.as_str()));
            }
            None
        },
        None => None,
    }
}

/// The request that calls the tool with the given name.
pub fn plan_dispatch(
    tools: &[ToolMenuEntry],
    name: &str,
    params: &Json,
    daemon_url: &str,
    api_token: &Option<String>,
) -> (r: Result<HttpRequest, String>)
    ensures
        planned_view(r) == dispatch_call(
            menu_view(tools@),
            name@,
            params@,
            daemon_url@,
            optional_text(*api_token),
        ),
{
    match find_tool(tools, name) {
        Some(tool) => Ok(call_tool(tool, params, daemon_url, api_token)),
        None => {
            let mut e = "Unknown tool: ".to_owned();
            e.append(name);
            Err(e)
        },
    }
}

} // verus!
