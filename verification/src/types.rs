//! The values that routing passes around, and what each of them means.

use vstd::prelude::*;
use vstd::string::*;

use crate::json::{optional_json, Json, JsonNumber, JsonView, NumberView};
use crate::text::{copy_list, optional_text, texts};

verus! {

/// Compact tool entry for the routing prompt.
#[derive(Debug)]
pub struct ToolMenuEntry {
    pub name: String,
    pub description: String,
    pub method: String,
    pub path: String,
    pub params: Vec<String>,
}

/// Routing result from the LLM.
#[derive(Debug)]
pub struct RoutingResult {
    pub tool: Option<String>,
    pub params: Option<Json>,
    pub error: Option<String>,
    /// How sure the LLM is of its pick, where it says so.
    pub confidence: Option<JsonNumber>,
}

/// A tool that was chosen for an instruction, by a model or by keyword, whether or not it was
/// called in the end.
#[derive(Debug)]
pub struct Choice {
    pub tool: String,
    pub params: Json,
    pub confidence: Option<JsonNumber>,
}

/// Full CEO response returned to the caller.
#[derive(Debug)]
pub struct CeoResponse {
    pub tool_used: Option<String>,
    pub params: Option<Json>,
    pub result: Option<Json>,
    pub error: Option<String>,
    pub suggestion: Option<String>,
    pub routing_model: Option<String>,
    pub routing_latency_ms: Option<u64>,
}

/// What a tool entry says.
pub struct ToolView {
    pub name: Seq<char>,
    pub description: Seq<char>,
    pub method: Seq<char>,
    pub path: Seq<char>,
    pub params: Seq<Seq<char>>,
}

/// What a routing result says.
pub struct RoutingView {
    pub tool: Option<Seq<char>>,
    pub params: Option<JsonView>,
    pub error: Option<Seq<char>>,
    pub confidence: Option<NumberView>,
}

/// What a choice says.
pub struct ChoiceView {
    pub tool: Seq<char>,
    pub params: JsonView,
    pub confidence: Option<NumberView>,
}

/// What a response says.
pub struct ResponseView {
    pub tool_used: Option<Seq<char>>,
    pub params: Option<JsonView>,
    pub result: Option<JsonView>,
    pub error: Option<Seq<char>>,
    pub suggestion: Option<Seq<char>>,
    pub routing_model: Option<Seq<char>>,
    pub routing_latency_ms: Option<u64>,
}

impl View for ToolMenuEntry {
    type V = ToolView;

    open spec fn view(&self) -> ToolView {
        ToolView {
            name: self.name@,
            description: self.description@,
            method: self.method@,
            path: self.path@,
            params: texts(self.params@),
        }
    }
}

impl View for RoutingResult {
    type V = RoutingView;

    open spec fn view(&self) -> RoutingView {
        RoutingView {
            tool: optional_text(self.tool),
            params: optional_json(self.params),
            error: optional_text(self.error),
            confidence: optional_number(self.confidence),
        }
    }
}

impl View for Choice {
    type V = ChoiceView;

    open spec fn view(&self) -> ChoiceView {
        ChoiceView {
            tool: self.tool@,
            params: self.params@,
            confidence: optional_number(self.confidence),
        }
    }
}

/// What an optional number says.
pub open spec fn optional_number(number: Option<JsonNumber>) -> Option<NumberView> {
    match number {
        Some(n) => Some(n@),
        None => None,
    }
}

/// What an optional choice says.
pub open spec fn optional_choice(choice: Option<Choice>) -> Option<ChoiceView> {
    match choice {
        Some(c) => Some(c@),
        None => None,
    }
}

impl View for CeoResponse {
    type V = ResponseView;

    open spec fn view(&self) -> ResponseView {
        ResponseView {
            tool_used: optional_text(self.tool_used),
            params: optional_json(self.params),
            result: optional_json(self.result),
            error: optional_text(self.error),
            suggestion: optional_text(self.suggestion),
            routing_model: optional_text(self.routing_model),
            routing_latency_ms: self.routing_latency_ms,
        }
    }
}

/// What the entries of a tool menu say.
pub open spec fn menu_view(tools: Seq<ToolMenuEntry>) -> Seq<ToolView> {
    Seq::new(tools.len(), |i: int| tools[i]@)
}

impl Clone for ToolMenuEntry {
    fn clone(&self) -> (r: Self)
        ensures
            r@ == self@,
    {
        ToolMenuEntry {
            name: self.name.clone(),
            description: self.description.clone(),
            method: self.method.clone(),
            path: self.path.clone(),
            params: copy_list(self.params.as_slice()),
        }
    }
}

/// A copy of an optional string.
pub fn copy_text(text: &Option<String>) -> (r: Option<String>)
    ensures
        optional_text(r) == optional_text(*text),
{
    match text {
        Some(t) => Some(t.clone()),
        None => None,
    }
}

/// A copy of an optional value.
pub fn copy_value(value: &Option<Json>) -> (r: Option<Json>)
    ensures
        optional_json(r) == optional_json(*value),
{
    match value {
        Some(v) => Some(v.clone()),
        None => None,
    }
}

/// A copy of an optional number.
pub fn copy_number(number: &Option<JsonNumber>) -> (r: Option<JsonNumber>)
    ensures
        optional_number(r) == optional_number(*number),
{
    match number {
        Some(n) => Some(n.clone()),
        None => None,
    }
}

/// A copy of a tool menu.
pub fn copy_menu(tools: &[ToolMenuEntry]) -> (r: Vec<ToolMenuEntry>)
    ensures
        menu_view(r@) == menu_view(tools@),
{
    let mut copy: Vec<ToolMenuEntry> = Vec::new();
    for i in 0..tools.len()
        invariant
            menu_view(copy@) == menu_view(tools@).take(i as int),
    {
        let ghost before = menu_view(copy@);
        copy.push(tools[i].clone());
        assert(menu_view(copy@) =~= before.push(tools@[i as int]@));
        assert(menu_view(copy@) =~= menu_view(tools@).take(i + 1));
    }
    assert(menu_view(copy@) =~= menu_view(tools@));
    copy
}

impl Clone for RoutingResult {
    fn clone(&self) -> (r: Self)
        ensures
            r@ == self@,
    {
        RoutingResult {
            tool: copy_text(&self.tool),
            params: copy_value(&self.params),
            error: copy_text(&self.error),
            confidence: copy_number(&self.confidence),
        }
    }
}

impl Clone for CeoResponse {
    fn clone(&self) -> (r: Self)
        ensures
            r@ == self@,
    {
        CeoResponse {
            tool_used: copy_text(&self.tool_used),
            params: copy_value(&self.params),
            result: copy_value(&self.result),
            error: copy_text(&self.error),
            suggestion: copy_text(&self.suggestion),
            routing_model: copy_text(&self.routing_model),
            routing_latency_ms: self.routing_latency_ms,
        }
    }
}

} // verus!
