//! What holds of the calls of tools: which request a call is, how its path is filled, what its body
//! carries, and which calls are refused.

use vstd::prelude::*;
use vstd::utf8::{encode_utf8, is_ascii_chars, is_ascii_chars_encode_utf8};

use crate::ceo_dispatch::{
    call_fault, dispatch_call, dot_segment_at, filled_path, first_dots, first_not_given,
    has_dot_segment, is_dots, is_given, param_text, percent, percent_all, tool_call, tool_named,
    unreserved, url_encoded,
};
use crate::http::{HttpMethod, RequestView};
use crate::json::{json_text, lookup, JsonView, NumberView};
use crate::laws::{
    begins_with, law_dots_are_found, law_encoded_values_are_inert,
    law_missing_parameters_are_found, law_stripping_removes_the_path_params_only,
};
use crate::text::{decimal, replaced, stands_at};
use crate::types::ToolView;

verus! {

// ---------------------------------------------------------------------------------------------
// The request
// ---------------------------------------------------------------------------------------------

/// A call goes to the path of its tool at the daemon, by the method that its entry names, with the
/// token. A `POST` or a `PUT` carries a body in which every parameter can be looked up that is none
/// of the path parameters, as it was given, and none that is; other methods carry none.
pub proof fn law_call_carries_its_parameters(
    tool: ToolView,
    params: JsonView,
    daemon_url: Seq<char>,
    api_token: Option<Seq<char>>,
    key: Seq<char>,
)
    ensures
        ({
            let request = tool_call(tool, params, daemon_url, api_token);
            &&& request.url == daemon_url + filled_path(tool.path, tool.params, params)
            &&& request.authorization == (if api_token is Some {
                Some("Bearer "@ + api_token->0)
            } else {
                None
            })
            &&& tool.method == "POST"@ ==> request.method == HttpMethod::Post
            &&& tool.method == "PUT"@ ==> request.method == HttpMethod::Put
            &&& tool.method == "DELETE"@ ==> request.method == HttpMethod::Delete
            &&& tool.method != "POST"@ && tool.method != "PUT"@ && tool.method != "DELETE"@
                ==> request.method == HttpMethod::Get
            &&& tool.method == "POST"@ || tool.method == "PUT"@ ==> {
                &&& request.body is Some
                &&& request.body->0 is Object
                &&& !tool.params.contains(key) ==> lookup(request.body->0, key) == lookup(
                    params,
                    key,
                )
                &&& tool.params.contains(key) ==> lookup(request.body->0, key) is None
            }
            &&& tool.method != "POST"@ && tool.method != "PUT"@ ==> request.body is None
        }),
{
    reveal_strlit("POST");
    reveal_strlit("PUT");
    reveal_strlit("DELETE");
    assert("POST"@.len() == 4 && "PUT"@.len() == 3 && "DELETE"@.len() == 6);
    law_stripping_removes_the_path_params_only(params, tool.params, key);
}

/// A call without path parameters carries the very object that was given.
pub proof fn law_call_without_path_params_carries_all(
    tool: ToolView,
    members: Seq<(Seq<char>, JsonView)>,
    daemon_url: Seq<char>,
    api_token: Option<Seq<char>>,
)
    requires
        tool.method == "POST"@ || tool.method == "PUT"@,
        forall|i: int| 0 <= i < members.len() ==> !tool.params.contains((#[trigger] members[i]).0),
    ensures
        tool_call(tool, JsonView::Object(members), daemon_url, api_token).body == Some(
            JsonView::Object(members),
        ),
{
    reveal_strlit("POST");
    reveal_strlit("PUT");
    assert("POST"@.len() == 4 && "PUT"@.len() == 3);
    lemma_nothing_filtered(members, |m: (Seq<char>, JsonView)| !tool.params.contains(m.0));
}

/// Where every member is kept, the members are what they were.
proof fn lemma_nothing_filtered(
    members: Seq<(Seq<char>, JsonView)>,
    keep: spec_fn((Seq<char>, JsonView)) -> bool,
)
    requires
        forall|i: int| 0 <= i < members.len() ==> keep(#[trigger] members[i]),
    ensures
        members.filter(keep) == members,
    decreases members.len(),
{
    reveal(Seq::filter);
    if members.len() > 0 {
        let front = members.drop_last();
        assert forall|i: int| 0 <= i < front.len() implies keep(#[trigger] front[i]) by {
            assert(front[i] == members[i]);
        }
        lemma_nothing_filtered(front, keep);
        assert(keep(members[members.len() - 1]));
        assert(front.push(members.last()) =~= members);
    }
}

/// The tool that is called is the first of the menu with the given name; without one, the call is
/// refused by name.
pub proof fn law_first_tool_of_the_name_is_called(
    tools: Seq<ToolView>,
    name: Seq<char>,
    i: int,
    params: JsonView,
    daemon_url: Seq<char>,
    api_token: Option<Seq<char>>,
)
    ensures
        0 <= i < tools.len() && tools[i].name == name && (forall|j: int|
            0 <= j < i ==> (#[trigger] tools[j]).name != name) ==> {
            &&& tool_named(tools, name) == Some(tools[i])
            &&& dispatch_call(tools, name, params, daemon_url, api_token) == Ok::<RequestView, Seq<char>>(
                tool_call(tools[i], params, daemon_url, api_token),
            )
        },
        (forall|j: int| 0 <= j < tools.len() ==> (#[trigger] tools[j]).name != name) ==> {
            &&& tool_named(tools, name) is None
            &&& dispatch_call(tools, name, params, daemon_url, api_token) == Err::<RequestView, Seq<char>>(
                "Unknown tool: "@ + name,
            )
        },
{
    if 0 <= i < tools.len() && tools[i].name == name && (forall|j: int|
        0 <= j < i ==> (#[trigger] tools[j]).name != name) {
        lemma_tool_at(tools, name, i);
    }
    if forall|j: int| 0 <= j < tools.len() ==> (#[trigger] tools[j]).name != name {
        lemma_no_tool(tools, name);
    }
}

/// The first tool with a name is found.
proof fn lemma_tool_at(tools: Seq<ToolView>, name: Seq<char>, i: int)
    requires
        0 <= i < tools.len(),
        tools[i].name == name,
        forall|j: int| 0 <= j < i ==> (#[trigger] tools[j]).name != name,
    ensures
        tool_named(tools, name) == Some(tools[i]),
    decreases i,
{
    if i > 0 {
        assert(tools[0].name != name);
        assert forall|j: int| 0 <= j < i - 1 implies (#[trigger] tools.skip(1)[j]).name != name by {
            assert(tools.skip(1)[j] == tools[j + 1]);
        }
        lemma_tool_at(tools.skip(1), name, i - 1);
    }
}

/// A name that no tool has is not found.
proof fn lemma_no_tool(tools: Seq<ToolView>, name: Seq<char>)
    requires
        forall|j: int| 0 <= j < tools.len() ==> (#[trigger] tools[j]).name != name,
    ensures
        tool_named(tools, name) is None,
    decreases tools.len(),
{
    if tools.len() > 0 {
        assert forall|j: int| 0 <= j < tools.skip(1).len() implies (#[trigger] tools.skip(1)[j]).name
            != name by {
            assert(tools.skip(1)[j] == tools[j + 1]);
        }
        lemma_no_tool(tools.skip(1), name);
        assert(tools[0].name != name);
    }
}

// ---------------------------------------------------------------------------------------------
// The path
// ---------------------------------------------------------------------------------------------

/// A part of a path: some text, and a placeholder behind it.
pub struct PathPart {
    pub text: Seq<char>,
    pub name: Seq<char>,
}

/// A path with its placeholders.
pub open spec fn path_with_names(parts: Seq<PathPart>, end: Seq<char>) -> Seq<char>
    decreases parts.len(),
{
    if parts.len() == 0 {
        end
    } else {
        parts[0].text + (seq![':'] + parts[0].name) + path_with_names(parts.skip(1), end)
    }
}

/// A path with the encoded values of its placeholders.
pub open spec fn path_with_values(parts: Seq<PathPart>, end: Seq<char>, params: JsonView) -> Seq<
    char,
>
    decreases parts.len(),
{
    if parts.len() == 0 {
        end
    } else {
        parts[0].text + url_encoded(param_text(lookup(params, parts[0].name)->0))
            + path_with_values(parts.skip(1), end, params)
    }
}

/// Whether a text is empty or begins a new segment.
pub open spec fn begins_segment(s: Seq<char>) -> bool {
    s.len() > 0 ==> s[0] == '/'
}

/// Whether a path is made as those of tools are: its placeholders are whole segments or end them,
/// and it has no other colon.
pub open spec fn is_path(parts: Seq<PathPart>, end: Seq<char>) -> bool {
    &&& !end.contains(':')
    &&& begins_segment(end)
    &&& forall|k: int|
        0 <= k < parts.len() ==> {
            &&& !(#[trigger] parts[k]).text.contains(':')
            &&& !parts[k].name.contains(':')
            &&& !parts[k].name.contains('/')
            &&& k > 0 ==> parts[k].text.len() > 0 && parts[k].text[0] == '/'
        }
}

/// A path of which some placeholders are filled.
spec fn path_half_filled(
    parts: Seq<PathPart>,
    end: Seq<char>,
    params: JsonView,
    filled: Seq<Seq<char>>,
) -> Seq<char>
    decreases parts.len(),
{
    if parts.len() == 0 {
        end
    } else {
        parts[0].text + (if filled.contains(parts[0].name) {
            url_encoded(param_text(lookup(params, parts[0].name)->0))
        } else {
            seq![':'] + parts[0].name
        }) + path_half_filled(parts.skip(1), end, params, filled)
    }
}

/// What stands before the first colon is not replaced.
proof fn lemma_replaced_behind(a: Seq<char>, b: Seq<char>, name: Seq<char>, with: Seq<char>)
    requires
        !a.contains(':'),
    ensures
        replaced(a + b, seq![':'] + name, with) == a + replaced(b, seq![':'] + name, with),
    decreases a.len(),
{
    let pattern = seq![':'] + name;
    let whole = a + b;
    if a.len() == 0 {
        assert(whole =~= b);
        assert(a + replaced(b, pattern, with) =~= replaced(b, pattern, with));
    } else {
        assert(whole[0] == a[0]);
        assert(a.contains(a[0]));
        if stands_at(whole, pattern, 0) {
            assert(whole.subrange(0, pattern.len() as int)[0] == whole[0]);
            assert(pattern[0] == ':');
        }
        let rest = a.skip(1);
        assert forall|i: int| 0 <= i < rest.len() implies #[trigger] rest[i] != ':' by {
            assert(rest[i] == a[i + 1]);
            assert(a.contains(a[i + 1]));
        }
        assert(!rest.contains(':'));
        assert(whole.skip(1) =~= rest + b);
        lemma_replaced_behind(rest, b, name, with);
        assert(seq![a[0]] + (rest + replaced(b, pattern, with)) =~= a + replaced(b, pattern, with));
    }
}

/// A placeholder is replaced where it stands.
proof fn lemma_replaced_here(rest: Seq<char>, name: Seq<char>, with: Seq<char>)
    ensures
        replaced(seq![':'] + name + rest, seq![':'] + name, with) == with + replaced(
            rest,
            seq![':'] + name,
            with,
        ),
{
    let pattern = seq![':'] + name;
    let whole = pattern + rest;
    assert(whole.subrange(0, pattern.len() as int) =~= pattern);
    assert(stands_at(whole, pattern, 0));
    assert(whole.skip(pattern.len() as int) =~= rest);
}

/// A placeholder of another name is not replaced.
proof fn lemma_other_name_stays(
    other: Seq<char>,
    rest: Seq<char>,
    name: Seq<char>,
    with: Seq<char>,
)
    requires
        !begins_with(other, name),
        !other.contains(':'),
        !name.contains('/'),
        begins_segment(rest),
    ensures
        replaced(seq![':'] + other + rest, seq![':'] + name, with) == seq![':'] + other + replaced(
            rest,
            seq![':'] + name,
            with,
        ),
{
    let pattern = seq![':'] + name;
    let whole = seq![':'] + other + rest;
    if stands_at(whole, pattern, 0) {
        let front = whole.subrange(0, pattern.len() as int);
        assert(front == pattern);
        if name.len() <= other.len() {
            assert forall|k: int| 0 <= k < name.len() implies other.take(name.len() as int)[k]
                == #[trigger] name[k] by {
                assert(front[k + 1] == whole[k + 1]);
                assert(pattern[k + 1] == name[k]);
            }
            assert(other.take(name.len() as int) =~= name);
        } else {
            let k = other.len() as int;
            assert(front[k + 1] == whole[k + 1]);
            assert(pattern[k + 1] == name[k]);
            assert(whole[k + 1] == rest[0]);
            assert(name.contains(name[k]));
        }
        assert(false);
    }
    assert(whole[0] == ':');
    assert(whole.skip(1) =~= other + rest);
    lemma_replaced_behind(other, rest, name, with);
    assert(seq![':'] + (other + replaced(rest, pattern, with)) =~= seq![':'] + other + replaced(
        rest,
        pattern,
        with,
    ));
}

/// The rest of a path is made as the path is.
proof fn lemma_rest_is_path(parts: Seq<PathPart>, end: Seq<char>)
    requires
        is_path(parts, end),
        parts.len() > 0,
    ensures
        is_path(parts.skip(1), end),
{
    assert forall|k: int| 0 <= k < parts.skip(1).len() implies {
        &&& !(#[trigger] parts.skip(1)[k]).text.contains(':')
        &&& !parts.skip(1)[k].name.contains(':')
        &&& !parts.skip(1)[k].name.contains('/')
        &&& k > 0 ==> parts.skip(1)[k].text.len() > 0 && parts.skip(1)[k].text[0] == '/'
    } by {
        assert(parts.skip(1)[k] == parts[k + 1]);
    }
}

/// Filling one more name fills its placeholders and no others.
#[verifier::rlimit(60)]
#[verifier::spinoff_prover]
proof fn lemma_one_more_filled(
    parts: Seq<PathPart>,
    end: Seq<char>,
    params: JsonView,
    filled: Seq<Seq<char>>,
    name: Seq<char>,
)
    requires
        is_path(parts, end),
        !name.contains('/'),
        forall|k: int|
            0 <= k < parts.len() ==> (#[trigger] parts[k]).name == name || !begins_with(
                parts[k].name,
                name,
            ),
    ensures
        replaced(
            path_half_filled(parts, end, params, filled),
            seq![':'] + name,
            url_encoded(param_text(lookup(params, name)->0)),
        ) == path_half_filled(parts, end, params, filled.push(name)),
    decreases parts.len(),
{
    let with = url_encoded(param_text(lookup(params, name)->0));
    let pattern = seq![':'] + name;
    let none = Seq::<char>::empty();
    if parts.len() == 0 {
        lemma_replaced_behind(end, none, name, with);
        assert(end + none =~= end);
        assert(end + replaced(none, pattern, with) =~= end);
    } else {
        let part = parts[0];
        let rest = path_half_filled(parts.skip(1), end, params, filled);
        let next = path_half_filled(parts.skip(1), end, params, filled.push(name));
        lemma_rest_is_path(parts, end);
        assert forall|k: int| 0 <= k < parts.skip(1).len() implies (
        #[trigger] parts.skip(1)[k]).name == name || !begins_with(parts.skip(1)[k].name, name) by {
            assert(parts.skip(1)[k] == parts[k + 1]);
        }
        lemma_one_more_filled(parts.skip(1), end, params, filled, name);
        assert(filled.push(name).contains(part.name) <==> filled.contains(part.name) || part.name
            == name) by {
            if filled.contains(part.name) {
                let k = choose|k: int| 0 <= k < filled.len() && filled[k] == part.name;
                assert(filled.push(name)[k] == part.name);
            }
            if part.name == name {
                assert(filled.push(name)[filled.len() as int] == name);
            }
            if filled.push(name).contains(part.name) {
                let k = choose|k: int|
                    0 <= k < filled.push(name).len() && filled.push(name)[k] == part.name;
                if k < filled.len() {
                    assert(filled[k] == part.name);
                }
            }
        }
        assert(begins_segment(rest)) by {
            if parts.len() > 1 {
                assert(parts.skip(1)[0] == parts[1]);
                assert(rest[0] == parts[1].text[0]);
            }
        }
        assert(!part.text.contains(':'));
        if filled.contains(part.name) {
            let value = url_encoded(param_text(lookup(params, part.name)->0));
            law_encoded_values_are_inert(param_text(lookup(params, part.name)->0));
            assert(!(part.text + value).contains(':')) by {
                assert forall|i: int| 0 <= i < (part.text + value).len() implies #[trigger] (
                part.text + value)[i] != ':' by {
                    if i < part.text.len() {
                        assert(part.text.contains(part.text[i]));
                    } else {
                        assert((part.text + value)[i] == value[i - part.text.len()]);
                    }
                }
            }
            lemma_replaced_behind(part.text + value, rest, name, with);
        } else if part.name == name {
            let here = seq![':'] + name + rest;
            lemma_replaced_behind(part.text, here, name, with);
            lemma_replaced_here(rest, name, with);
            assert(part.text + (seq![':'] + part.name) + rest =~= part.text + here);
            assert(part.text + (with + next) =~= part.text + with + next);
        } else {
            let here = seq![':'] + part.name + rest;
            lemma_replaced_behind(part.text, here, name, with);
            lemma_other_name_stays(part.name, rest, name, with);
            assert(part.text + (seq![':'] + part.name) + rest =~= part.text + here);
            assert(part.text + (seq![':'] + part.name + next) =~= part.text + (seq![':']
                + part.name) + next);
        }
    }
}

/// A path with no name filled is the path with its placeholders, and one with all of them filled the
/// path with its values.
proof fn lemma_none_or_all_filled(
    parts: Seq<PathPart>,
    end: Seq<char>,
    params: JsonView,
    filled: Seq<Seq<char>>,
)
    ensures
        filled.len() == 0 ==> path_half_filled(parts, end, params, filled) == path_with_names(
            parts,
            end,
        ),
        (forall|k: int| 0 <= k < parts.len() ==> filled.contains((#[trigger] parts[k]).name))
            ==> path_half_filled(parts, end, params, filled) == path_with_values(
            parts,
            end,
            params,
        ),
    decreases parts.len(),
{
    if parts.len() > 0 {
        lemma_none_or_all_filled(parts.skip(1), end, params, filled);
        if forall|k: int| 0 <= k < parts.len() ==> filled.contains((#[trigger] parts[k]).name) {
            assert forall|k: int| 0 <= k < parts.skip(1).len() implies filled.contains(
                (#[trigger] parts.skip(1)[k]).name,
            ) by {
                assert(parts.skip(1)[k] == parts[k + 1]);
            }
            assert(filled.contains(parts[0].name));
        }
    }
}

/// The path after some names were filled, one after the other.
proof fn lemma_filled_so_far(
    parts: Seq<PathPart>,
    end: Seq<char>,
    params: JsonView,
    names: Seq<Seq<char>>,
)
    requires
        is_path(parts, end),
        forall|j: int|
            0 <= j < names.len() ==> !(#[trigger] names[j]).contains('/') && lookup(
                params,
                names[j],
            ) is Some,
        forall|j: int, k: int|
            #![trigger names[j], parts[k]]
            0 <= j < names.len() && 0 <= k < parts.len() ==> parts[k].name == names[j]
                || !begins_with(parts[k].name, names[j]),
    ensures
        filled_path(path_with_names(parts, end), names, params) == path_half_filled(
            parts,
            end,
            params,
            names,
        ),
    decreases names.len(),
{
    if names.len() == 0 {
        lemma_none_or_all_filled(parts, end, params, names);
    } else {
        let front = names.drop_last();
        assert forall|j: int| 0 <= j < front.len() implies !(#[trigger] front[j]).contains('/')
            && lookup(params, front[j]) is Some by {
            assert(front[j] == names[j]);
        }
        assert forall|j: int, k: int|
            #![trigger front[j], parts[k]]
            0 <= j < front.len() && 0 <= k < parts.len() implies parts[k].name == front[j]
            || !begins_with(parts[k].name, front[j]) by {
            assert(front[j] == names[j]);
        }
        lemma_filled_so_far(parts, end, params, front);
        let last = names[names.len() - 1];
        assert(!last.contains('/'));
        assert forall|k: int| 0 <= k < parts.len() implies (#[trigger] parts[k]).name == last
            || !begins_with(parts[k].name, last) by {}
        lemma_one_more_filled(parts, end, params, front, last);
        assert(front.push(last) =~= names);
    }
}

/// Every placeholder of a path is filled with the encoded value of its own parameter, and nothing
/// else changes: whatever the order of the parameters, and however many there are. No parameter may
/// have a name that begins the name of another.
pub proof fn law_placeholders_are_filled(
    parts: Seq<PathPart>,
    end: Seq<char>,
    names: Seq<Seq<char>>,
    params: JsonView,
)
    requires
        is_path(parts, end),
        forall|j: int|
            0 <= j < names.len() ==> !(#[trigger] names[j]).contains('/') && lookup(
                params,
                names[j],
            ) is Some,
        forall|k: int| 0 <= k < parts.len() ==> names.contains((#[trigger] parts[k]).name),
        forall|j: int, k: int|
            #![trigger names[j], parts[k]]
            0 <= j < names.len() && 0 <= k < parts.len() ==> parts[k].name == names[j]
                || !begins_with(parts[k].name, names[j]),
    ensures
        filled_path(path_with_names(parts, end), names, params) == path_with_values(
            parts,
            end,
            params,
        ),
{
    lemma_filled_so_far(parts, end, params, names);
    lemma_none_or_all_filled(parts, end, params, names);
}

/// The text of a parameter in a path: a string as it is, an integer in decimal, a boolean by its
/// name, anything else as compact JSON.
pub proof fn law_parameter_texts(t: Seq<char>, n: u64, z: i64, b: bool, other: JsonView)
    ensures
        param_text(JsonView::Text(t)) == t,
        param_text(JsonView::Number(NumberView::PosInt(n))) == decimal(n as nat),
        z < 0 ==> param_text(JsonView::Number(NumberView::NegInt(z))) == seq!['-'] + decimal(
            (-z) as nat,
        ),
        param_text(JsonView::Number(NumberView::Float(t))) == t,
        param_text(JsonView::Bool(b)) == (if b {
            "true"@
        } else {
            "false"@
        }),
        other is Null || other is Array || other is Object ==> param_text(other) == json_text(
            other,
        ),
{
}

/// Bytes that stand for themselves are encoded as themselves.
proof fn lemma_percent_all_plain(bytes: Seq<u8>, s: Seq<char>)
    requires
        bytes.len() == s.len(),
        forall|i: int| 0 <= i < s.len() ==> unreserved(#[trigger] s[i]) && bytes[i] == s[i] as u8,
    ensures
        percent_all(bytes) == s,
    decreases s.len(),
{
    if s.len() > 0 {
        let front = s.drop_last();
        assert forall|i: int| 0 <= i < front.len() implies unreserved(#[trigger] front[i])
            && bytes.drop_last()[i] == front[i] as u8 by {
            assert(front[i] == s[i]);
        }
        lemma_percent_all_plain(bytes.drop_last(), front);
        let c = s[s.len() - 1];
        assert(unreserved(c));
        assert(bytes.last() == c as u8);
        assert(c as u8 as char == c);
        assert(percent(bytes.last()) =~= seq![c]);
        assert(front + seq![c] =~= s);
    }
}

/// Letters, digits, `-`, `_`, `.` and `~` stand for themselves in a path: a value that is made of
/// them, such as a number, stands there as it is.
pub proof fn law_plain_values_stand_as_they_are(s: Seq<char>)
    requires
        forall|i: int|
            0 <= i < s.len() ==> '0' <= #[trigger] s[i] <= '9' || 'a' <= s[i] <= 'z' || 'A' <= s[i]
                <= 'Z' || s[i] == '-' || s[i] == '_' || s[i] == '.' || s[i] == '~',
    ensures
        url_encoded(s) == s,
{
    assert(is_ascii_chars(s));
    is_ascii_chars_encode_utf8(s);
    assert forall|i: int| 0 <= i < s.len() implies unreserved(#[trigger] s[i]) && encode_utf8(s)[i]
        == s[i] as u8 by {}
    lemma_percent_all_plain(encode_utf8(s), s);
}

/// Any other ASCII character is a percent sign and two hexadecimal digits of its own.
pub proof fn law_other_characters_are_escaped(c: char)
    requires
        (c as u32) < 128,
        !('0' <= c <= '9' || 'a' <= c <= 'z' || 'A' <= c <= 'Z' || c == '-' || c == '_' || c == '.'
            || c == '~'),
    ensures
        url_encoded(seq![c]).len() == 3,
        url_encoded(seq![c])[0] == '%',
        c == ' ' ==> url_encoded(seq![c]) == seq!['%', '2', '0'],
        c == '/' ==> url_encoded(seq![c]) == seq!['%', '2', 'F'],
        c == '?' ==> url_encoded(seq![c]) == seq!['%', '3', 'F'],
        c == '#' ==> url_encoded(seq![c]) == seq!['%', '2', '3'],
        c == ':' ==> url_encoded(seq![c]) == seq!['%', '3', 'A'],
        c == '%' ==> url_encoded(seq![c]) == seq!['%', '2', '5'],
{
    let s = seq![c];
    assert(is_ascii_chars(s));
    is_ascii_chars_encode_utf8(s);
    let bytes = encode_utf8(s);
    assert(s[0] == c);
    assert(bytes.len() == 1 && bytes[0] == c as u8);
    assert(bytes.drop_last() =~= Seq::<u8>::empty());
    assert(percent_all(bytes.drop_last()) =~= Seq::<char>::empty());
    assert(bytes[0] as char == c);
    assert(percent_all(bytes) =~= percent(bytes[0]));
}

// ---------------------------------------------------------------------------------------------
// Which calls are refused
// ---------------------------------------------------------------------------------------------

/// A parameter is given as a string, a number or a boolean; nothing else, and nothing at all, will
/// do.
pub proof fn law_given_parameters(params: JsonView, name: Seq<char>)
    ensures
        is_given(params, name) <==> lookup(params, name) is Some && (lookup(params, name)->0 is Text
            || lookup(params, name)->0 is Number || lookup(params, name)->0 is Bool),
{
}

/// A call of a tool of the menu is let through exactly where every path parameter is given, none of
/// them is `.` or `..`, and filling the path makes no dot segment. What is wrong with one that is
/// not says so.
pub proof fn law_valid_calls_are_let_through(
    tools: Seq<ToolView>,
    name: Seq<char>,
    tool: ToolView,
    params: JsonView,
    k: int,
)
    requires
        tool_named(tools, name) == Some(tool),
    ensures
        (forall|j: int|
            0 <= j < tool.params.len() ==> is_given(params, #[trigger] tool.params[j]) && param_text(
                lookup(params, tool.params[j])->0,
            ) != seq!['.'] && param_text(lookup(params, tool.params[j])->0) != seq!['.', '.'])
            && !has_dot_segment(filled_path(tool.path, tool.params, params)) ==> call_fault(
            tools,
            name,
            params,
        ) is None,
        0 <= k < tool.params.len() && !is_given(params, tool.params[k]) && (forall|j: int|
            0 <= j < k ==> is_given(params, #[trigger] tool.params[j])) ==> call_fault(
            tools,
            name,
            params,
        ) == Some("Missing parameter for "@ + name + ": "@ + tool.params[k]),
        (forall|j: int| 0 <= j < tool.params.len() ==> is_given(params, #[trigger] tool.params[j]))
            && 0 <= k < tool.params.len() && is_dots(params, tool.params[k]) && (forall|j: int|
            0 <= j < k ==> !is_dots(params, #[trigger] tool.params[j])) ==> call_fault(
            tools,
            name,
            params,
        ) == Some("Invalid parameter for "@ + name + ": "@ + tool.params[k]),
{
    let names = tool.params;
    law_missing_parameters_are_found(names, params);
    law_dots_are_found(names, params);
    if (forall|j: int|
        0 <= j < names.len() ==> is_given(params, #[trigger] names[j]) && param_text(
            lookup(params, names[j])->0,
        ) != seq!['.'] && param_text(lookup(params, names[j])->0) != seq!['.', '.']) {
        assert forall|j: int| 0 <= j < names.len() implies !is_dots(params, #[trigger] names[j]) by {
            assert(is_given(params, names[j]));
        }
    }
    if 0 <= k < names.len() && !is_given(params, names[k]) && (forall|j: int|
        0 <= j < k ==> is_given(params, #[trigger] names[j])) {
        lemma_first_not_given(names, params, k);
    }
    if 0 <= k < names.len() && is_dots(params, names[k]) && (forall|j: int|
        0 <= j < k ==> !is_dots(params, #[trigger] names[j])) {
        lemma_first_dots(names, params, k);
    }
}

/// The first parameter that is not given is the one that is found.
proof fn lemma_first_not_given(names: Seq<Seq<char>>, params: JsonView, k: int)
    requires
        0 <= k < names.len(),
        !is_given(params, names[k]),
        forall|j: int| 0 <= j < k ==> is_given(params, #[trigger] names[j]),
    ensures
        first_not_given(names, params) == Some(names[k]),
    decreases k,
{
    if k > 0 {
        assert(is_given(params, names[0]));
        assert forall|j: int| 0 <= j < k - 1 implies is_given(
            params,
            #[trigger] names.skip(1)[j],
        ) by {
            assert(names.skip(1)[j] == names[j + 1]);
        }
        lemma_first_not_given(names.skip(1), params, k - 1);
    }
}

/// The first parameter that is dots is the one that is found.
proof fn lemma_first_dots(names: Seq<Seq<char>>, params: JsonView, k: int)
    requires
        0 <= k < names.len(),
        is_dots(params, names[k]),
        forall|j: int| 0 <= j < k ==> !is_dots(params, #[trigger] names[j]),
    ensures
        first_dots(names, params) == Some(names[k]),
    decreases k,
{
    if k > 0 {
        assert(!is_dots(params, names[0]));
        assert forall|j: int| 0 <= j < k - 1 implies !is_dots(
            params,
            #[trigger] names.skip(1)[j],
        ) by {
            assert(names.skip(1)[j] == names[j + 1]);
        }
        lemma_first_dots(names.skip(1), params, k - 1);
    }
}

/// Whether a text is empty or ends a segment.
pub open spec fn goes_on_elsewhere(s: Seq<char>) -> bool {
    s.len() > 0 ==> s[0] == '/' || s[0] == '\\' || s[0] == '?' || s[0] == '#'
}

/// A path with `.` or `..` as a whole segment has a dot segment, be it the first segment, one in the
/// middle or the last. One in which no segment begins with a dot, plain or percent-encoded, has none.
pub proof fn law_dot_segments(before: Seq<char>, dots: Seq<char>, after: Seq<char>, plain: Seq<char>)
    requires
        dots == seq!['.'] || dots == seq!['.', '.'],
        goes_on_elsewhere(after),
        forall|i: int|
            0 <= i < plain.len() && (i == 0 || plain[i - 1] == '/' || plain[i - 1] == '\\' || plain[i
                - 1] == '?' || plain[i - 1] == '#') ==> #[trigger] plain[i] != '.' && plain[i]
                != '%',
    ensures
        has_dot_segment(before + seq!['/'] + dots + after),
        has_dot_segment(dots + after),
        !has_dot_segment(plain),
{
    let s = before + seq!['/'] + dots + after;
    let at: int = before.len() as int + 1;
    assert(s[at - 1] == '/');
    assert(s[at] == '.');
    if dots.len() == 2 {
        assert(s[at + 1] == '.');
    }
    if after.len() > 0 {
        assert(s[at + dots.len()] == after[0]);
    }
    assert(dot_segment_at(s, at));
    let t = dots + after;
    assert(t[0] == '.');
    if after.len() > 0 {
        assert(t[dots.len() as int] == after[0]);
    }
    assert(dot_segment_at(t, 0));
    assert forall|i: int| 0 <= i < plain.len() implies !#[trigger] dot_segment_at(plain, i) by {
        if i == 0 || plain[i - 1] == '/' || plain[i - 1] == '\\' || plain[i - 1] == '?' || plain[i
            - 1] == '#' {
            assert(plain[i] != '.' && plain[i] != '%');
        }
    }
}

} // verus!
