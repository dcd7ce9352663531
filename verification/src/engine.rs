//! CEO routing engine: routes natural-language instructions to tools of the daemon via an LLM.
//!
//! Flow: build tool menu, prompt the LLM, parse its JSON, validate the parameters, dispatch, report
//! the usage, take the decision down. The engine does not talk to the daemon itself. It says which
//! request to send next, and goes on from what came of it.

use vstd::prelude::*;
use vstd::string::*;

use crate::ceo_audit::{decision_record, routing_record, RecordView, RoutingRecord};
use crate::ceo_dispatch::{call_fault, check_call, dispatch_call, plan_dispatch, planned_view};
use crate::ceo_fallback::{keyword_route, keyword_routing};
use crate::ceo_helpers::{
    build_routing_prompt, build_tool_menu_prompt, find_suggestion, lowercase, menu_prompt,
    parse_routing_response, parse_tool_defs, parsed_view, reply_parses_to, reply_result,
    routing_prompt, search_entries, suggestion, takes_any_text, tool_defs,
};
use crate::http::{
    daemon_request, request_to, HttpMethod, HttpOutcome, HttpRequest, OutcomeView, RequestView,
};
use crate::json::{
    lookup, members_view, nat_number, optional_ref, put, Json, JsonNumber, JsonView,
    NumberView,
};
use crate::text::{decimal, optional_str, optional_text, write_decimal};
use crate::types::{
    copy_menu, copy_text, menu_view, optional_choice, CeoResponse, Choice, ChoiceView,
    ResponseView, RoutingResult, RoutingView, ToolMenuEntry, ToolView,
};

verus! {

/// CEO engine configuration.
#[derive(Debug)]
pub struct CeoEngine {
    pub daemon_url: String,
    pub api_token: Option<String>,
    tool_menu: Vec<ToolMenuEntry>,
    tool_menu_prompt: String,
}

/// What an engine knows.
pub struct EngineView {
    pub daemon_url: Seq<char>,
    pub api_token: Option<Seq<char>>,
    pub tool_menu: Seq<ToolView>,
    pub tool_menu_prompt: Seq<char>,
}

impl View for CeoEngine {
    type V = EngineView;

    closed spec fn view(&self) -> EngineView {
        EngineView {
            daemon_url: self.daemon_url@,
            api_token: optional_text(self.api_token),
            tool_menu: menu_view(self.tool_menu@),
            tool_menu_prompt: self.tool_menu_prompt@,
        }
    }
}

impl Clone for CeoEngine {
    fn clone(&self) -> (r: Self)
        ensures
            r@ == self@,
    {
        CeoEngine {
            daemon_url: self.daemon_url.clone(),
            api_token: copy_text(&self.api_token),
            tool_menu: copy_menu(self.tool_menu.as_slice()),
            tool_menu_prompt: self.tool_menu_prompt.clone(),
        }
    }
}

/// Which model is asked.
#[derive(Debug, Clone, Copy, PartialEq, Eq)]
pub enum Tier {
    /// The routing model.
    Routing,
    /// The local model, which stands in where the routing model cannot be asked.
    Local,
}

/// What a request in flight is for, and the instruction that it serves.
#[derive(Debug)]
pub struct Pending {
    pub instruction: String,
    pub stage: Stage,
}

/// What a request in flight is for.
#[derive(Debug)]
pub enum Stage {
    /// The first call of the routing model.
    Inference { prompt: String },
    /// The first call of the local model, after the routing model failed with an error.
    Local { prompt: String, error: String },
    /// The second call of the model, after a first reply that could not be used; with the tool that
    /// the reply chose, if it could be parsed and chose one.
    Retry { model: String, chosen: Option<Choice> },
    /// The call of a tool that was chosen by keyword.
    KeywordDispatch { choice: Choice },
    /// The call of a tool that the model chose.
    Dispatch { choice: Choice, model: String, latency_ms: u64 },
    /// The report of the routing; the response is ready. It may leave out the tool that was chosen.
    Usage { response: CeoResponse, chosen: Option<Choice> },
}

/// What to do next about an instruction.
#[derive(Debug)]
pub enum RouteStep {
    /// Send a request, and go on with what comes of it.
    Send { request: HttpRequest, pending: Pending },
    /// Store the record in the audit log and return the response.
    Done { response: CeoResponse, record: RoutingRecord },
}

/// Which of the two calls of a model a reply belongs to.
#[derive(Debug)]
pub enum Attempt {
    /// The first, with the prompt that it was sent, the reply, and the model that gave it.
    First { prompt: String, content: String, tier: Tier },
    /// The second, and last, with the tool that the first reply chose, if it chose one.
    Second { chosen: Option<Choice> },
}

/// What a pending request says.
pub struct PendingView {
    pub instruction: Seq<char>,
    pub stage: StageView,
}

/// What a stage says.
pub enum StageView {
    Inference { prompt: Seq<char> },
    Local { prompt: Seq<char>, error: Seq<char> },
    Retry { model: Seq<char>, chosen: Option<ChoiceView> },
    KeywordDispatch { choice: ChoiceView },
    Dispatch { choice: ChoiceView, model: Seq<char>, latency_ms: u64 },
    Usage { response: ResponseView, chosen: Option<ChoiceView> },
}

/// What a step says.
pub enum StepView {
    Send { request: RequestView, pending: PendingView },
    Done { response: ResponseView, record: RecordView },
}

/// What an attempt says.
pub enum AttemptView {
    First { prompt: Seq<char>, content: Seq<char>, tier: Tier },
    Second { chosen: Option<ChoiceView> },
}

impl View for Stage {
    type V = StageView;

    open spec fn view(&self) -> StageView {
        match *self {
            Stage::Inference { prompt } => StageView::Inference { prompt: prompt@ },
            Stage::Local { prompt, error } => StageView::Local { prompt: prompt@, error: error@ },
            Stage::Retry { model, chosen } => StageView::Retry {
                model: model@,
                chosen: optional_choice(chosen),
            },
            Stage::KeywordDispatch { choice } => StageView::KeywordDispatch { choice: choice@ },
            Stage::Dispatch { choice, model, latency_ms } => StageView::Dispatch {
                choice: choice@,
                model: model@,
                latency_ms,
            },
            Stage::Usage { response, chosen } => StageView::Usage {
                response: response@,
                chosen: optional_choice(chosen),
            },
        }
    }
}

impl View for Pending {
    type V = PendingView;

    open spec fn view(&self) -> PendingView {
        PendingView { instruction: self.instruction@, stage: self.stage@ }
    }
}

impl View for RouteStep {
    type V = StepView;

    open spec fn view(&self) -> StepView {
        match *self {
            RouteStep::Send { request, pending } => StepView::Send {
                request: request@,
                pending: pending@,
            },
            RouteStep::Done { response, record } => StepView::Done {
                response: response@,
                record: record@,
            },
        }
    }
}

impl View for Attempt {
    type V = AttemptView;

    open spec fn view(&self) -> AttemptView {
        match *self {
            Attempt::First { prompt, content, tier } => AttemptView::First {
                prompt: prompt@,
                content: content@,
                tier,
            },
            Attempt::Second { chosen } => AttemptView::Second { chosen: optional_choice(chosen) },
        }
    }
}

// ---------------------------------------------------------------------------------------------
// Requests to the daemon, and the reading of its answers
// ---------------------------------------------------------------------------------------------

/// The request for the tool registry.
pub open spec fn registry_request(daemon_url: Seq<char>, api_token: Option<Seq<char>>) -> RequestView {
    daemon_request(HttpMethod::Get, daemon_url, "/api/meta/mcp-tools"@, api_token, None)
}

/// The tools of a registry document; none where it could not be had.
pub open spec fn registered_tools(registry: Option<JsonView>) -> Seq<ToolView> {
    match registry {
        Some(body) => tool_defs(body),
        None => Seq::empty(),
    }
}

/// The name of a model among those that the daemon can ask.
pub open spec fn tier_hint(tier: Tier) -> Seq<char> {
    match tier {
        Tier::Routing => "t1"@,
        Tier::Local => "mlx"@,
    }
}

/// The body of a call of the model.
pub open spec fn inference_body(prompt: Seq<char>, tier: Tier) -> JsonView {
    JsonView::Object(
        seq![
            ("agent_id"@, JsonView::Text("ceo-router"@)),
            ("max_tokens"@, nat_number(256)),
            ("prompt"@, JsonView::Text(prompt)),
            ("tier_hint"@, JsonView::Text(tier_hint(tier))),
        ],
    )
}

/// The request that calls the model.
pub open spec fn inference_request(
    engine: EngineView,
    prompt: Seq<char>,
    tier: Tier,
) -> RequestView {
    daemon_request(
        HttpMethod::Post,
        engine.daemon_url,
        "/api/inference/complete"@,
        engine.api_token,
        Some(inference_body(prompt, tier)),
    )
}

/// The body of a report of a routing.
pub open spec fn usage_body(model: Option<Seq<char>>, latency_ms: u64) -> JsonView {
    JsonView::Object(
        seq![
            ("agent"@, JsonView::Text("ceo-router"@)),
            ("cost_usd"@, JsonView::Number(NumberView::Float("0.0001"@))),
            (
                "execution_host"@,
                JsonView::Text("ceo-routing-"@ + decimal(latency_ms as nat) + "ms"@),
            ),
            ("input_tokens"@, nat_number(256)),
            (
                "model"@,
                JsonView::Text(
                    match model {
                        Some(m) => m,
                        None => "unknown"@,
                    },
                ),
            ),
            ("output_tokens"@, nat_number(64)),
        ],
    )
}

/// The request that reports a routing.
pub open spec fn usage_request(
    engine: EngineView,
    model: Option<Seq<char>>,
    latency_ms: u64,
) -> RequestView {
    daemon_request(
        HttpMethod::Post,
        engine.daemon_url,
        "/api/tracking/tokens"@,
        engine.api_token,
        Some(usage_body(model, latency_ms)),
    )
}

/// A string member of an answer, or the default where it has none.
pub open spec fn string_or(body: JsonView, key: Seq<char>, default: Seq<char>) -> Seq<char> {
    match lookup(body, key) {
        Some(JsonView::Text(t)) => t,
        _ => default,
    }
}

/// What a call of the model gave: the reply and the model's name, or an error.
pub open spec fn inference_answer(outcome: OutcomeView) -> Result<(Seq<char>, Seq<char>), Seq<char>> {
    match outcome {
        OutcomeView::SendFailed(e) => Err(e),
        OutcomeView::StatusError(e) => Err("inference HTTP error: "@ + e),
        OutcomeView::BodyUnreadable(e) => Err(e),
        OutcomeView::Body(body) => Ok(
            (string_or(body, "content"@, ""@), string_or(body, "model_used"@, "unknown"@)),
        ),
    }
}

/// What the call of a tool gave: its result, or an error.
pub open spec fn dispatch_answer(outcome: OutcomeView) -> Result<JsonView, Seq<char>> {
    match outcome {
        OutcomeView::SendFailed(e) => Err(e),
        OutcomeView::StatusError(e) => Err("dispatch HTTP error: "@ + e),
        OutcomeView::BodyUnreadable(e) => Err(e),
        OutcomeView::Body(body) => Ok(body),
    }
}

/// The view of an answer of the model.
pub open spec fn inference_view(answer: Result<(String, String), String>) -> Result<
    (Seq<char>, Seq<char>),
    Seq<char>,
> {
    match answer {
        Ok((content, model)) => Ok((content@, model@)),
        Err(e) => Err(e@),
    }
}

/// The view of an answer of a tool.
pub open spec fn dispatch_view(answer: Result<Json, String>) -> Result<JsonView, Seq<char>> {
    match answer {
        Ok(value) => Ok(value@),
        Err(e) => Err(e@),
    }
}

/// A message behind a note of what failed.
fn prefixed(note: &str, message: &str) -> (r: String)
    ensures
        r@ == note@ + message@,
{
    let mut r = note.to_owned();
    r.append(message);
    r
}

/// A string member of an answer, or the default where it has none.
fn read_string(body: &Json, key: &str, default: &str) -> (r: String)
    ensures
        r@ == string_or(body@, key@, default@),
{
    match body.get(key) {
        Some(Json::Text(t)) => t.clone(),
        _ => default.to_owned(),
    }
}

/// What a call of the model gave.
pub fn read_inference(outcome: &HttpOutcome) -> (r: Result<(String, String), String>)
    ensures
        inference_view(r) == inference_answer(outcome@),
{
    match outcome {
        HttpOutcome::SendFailed(e) => Err(e.clone()),
        HttpOutcome::StatusError(e) => Err(prefixed("inference HTTP error: ", e.as_str())),
        HttpOutcome::BodyUnreadable(e) => Err(e.clone()),
        HttpOutcome::Body(body) => Ok(
            (read_string(body, "content", ""), read_string(body, "model_used", "unknown")),
        ),
    }
}

/// What the call of a tool gave.
pub fn read_dispatch(outcome: HttpOutcome) -> (r: Result<Json, String>)
    ensures
        dispatch_view(r) == dispatch_answer(outcome@),
{
    match outcome {
        HttpOutcome::SendFailed(e) => Err(e),
        HttpOutcome::StatusError(e) => Err(prefixed("dispatch HTTP error: ", e.as_str())),
        HttpOutcome::BodyUnreadable(e) => Err(e),
        HttpOutcome::Body(body) => Ok(body),
    }
}

// ---------------------------------------------------------------------------------------------
// Responses
// ---------------------------------------------------------------------------------------------

/// The response that reports an error.
pub open spec fn error_answer(
    error: Seq<char>,
    model: Option<Seq<char>>,
    elapsed_ms: u64,
) -> ResponseView {
    ResponseView {
        tool_used: None,
        params: None,
        result: None,
        error: Some(error),
        suggestion: None,
        routing_model: model,
        routing_latency_ms: Some(elapsed_ms),
    }
}

/// The response where the keywords lead nowhere: the full tool list, for the client to pick from.
pub open spec fn listing_answer(
    engine: EngineView,
    error: Seq<char>,
    model: Option<Seq<char>>,
    elapsed_ms: u64,
) -> ResponseView {
    ResponseView {
        suggestion: Some(engine.tool_menu_prompt),
        ..error_answer(error, model, elapsed_ms)
    }
}

/// The suggested correction of an instruction: the tools that come close, or else the full tool
/// list.
pub open spec fn correction(engine: EngineView, instruction: Seq<char>) -> Seq<char> {
    match suggestion(lowercase(instruction), search_entries(engine.tool_menu)) {
        Some(text) => text,
        None => engine.tool_menu_prompt,
    }
}

/// The response where the retry failed: its error, with a suggested correction.
pub open spec fn corrected_answer(
    engine: EngineView,
    instruction: Seq<char>,
    error: Seq<char>,
    model: Seq<char>,
    elapsed_ms: u64,
) -> ResponseView {
    ResponseView {
        suggestion: Some(correction(engine, instruction)),
        ..error_answer(error, Some(model), elapsed_ms)
    }
}

/// The response where the model picked no tool: its reason, and the tools that come close.
pub open spec fn unmatched_answer(
    engine: EngineView,
    instruction: Seq<char>,
    reason: Option<Seq<char>>,
    model: Seq<char>,
    elapsed_ms: u64,
) -> ResponseView {
    ResponseView {
        tool_used: None,
        params: None,
        result: None,
        error: Some(
            match reason {
                Some(r) => r,
                None => "No matching tool"@,
            },
        ),
        suggestion: suggestion(lowercase(instruction), search_entries(engine.tool_menu)),
        routing_model: Some(model),
        routing_latency_ms: Some(elapsed_ms),
    }
}

/// The response to the call of a tool that the model picked.
pub open spec fn dispatched_answer(
    tool: Seq<char>,
    params: JsonView,
    answer: Result<JsonView, Seq<char>>,
    model: Seq<char>,
    latency_ms: u64,
) -> ResponseView {
    ResponseView {
        tool_used: Some(tool),
        params: Some(params),
        result: match answer {
            Ok(value) => Some(value),
            Err(_) => None,
        },
        error: match answer {
            Ok(_) => None,
            Err(e) => Some("Dispatch failed: "@ + e),
        },
        suggestion: None,
        routing_model: Some(model),
        routing_latency_ms: Some(latency_ms),
    }
}

/// The response to the call of a tool that was found by keyword.
pub open spec fn keyword_answer(
    tool: Seq<char>,
    params: JsonView,
    answer: Result<JsonView, Seq<char>>,
    elapsed_ms: u64,
) -> ResponseView {
    match answer {
        Ok(value) => ResponseView {
            tool_used: Some(tool),
            params: Some(params),
            result: Some(value),
            error: None,
            suggestion: None,
            routing_model: Some("keyword"@),
            routing_latency_ms: Some(elapsed_ms),
        },
        Err(e) => error_answer(e, Some("keyword"@), elapsed_ms),
    }
}

// ---------------------------------------------------------------------------------------------
// Steps
// ---------------------------------------------------------------------------------------------

/// The prompt of the second call of the model, after a reply that could not be parsed.
pub open spec fn retry_prompt(prompt: Seq<char>, content: Seq<char>) -> Seq<char> {
    prompt + "\n\nPrevious response was invalid JSON: "@ + content
        + "\n\nRespond ONLY with valid JSON."@
}

/// The prompt of the second call of the model, after a reply that was not valid.
pub open spec fn fault_prompt(prompt: Seq<char>, content: Seq<char>, fault: Seq<char>) -> Seq<
    char,
> {
    prompt + "\n\nPrevious response was invalid: "@ + content + "\n\n"@ + fault
        + "\n\nRespond ONLY with valid JSON."@
}

/// The step that asks a model.
pub open spec fn ask_step(
    engine: EngineView,
    instruction: Seq<char>,
    prompt: Seq<char>,
    tier: Tier,
    stage: StageView,
) -> StepView {
    StepView::Send {
        request: inference_request(engine, prompt, tier),
        pending: PendingView { instruction, stage },
    }
}

/// The step that reports the routing, with the response ready.
pub open spec fn usage_step(
    engine: EngineView,
    instruction: Seq<char>,
    response: ResponseView,
    chosen: Option<ChoiceView>,
) -> StepView {
    StepView::Send {
        request: usage_request(
            engine,
            response.routing_model,
            match response.routing_latency_ms {
                Some(n) => n,
                None => 0,
            },
        ),
        pending: PendingView { instruction, stage: StageView::Usage { response, chosen } },
    }
}

/// The first step: the model is asked to pick a tool, unless the circuit breaker is open.
pub open spec fn first_step(
    engine: EngineView,
    instruction: Seq<char>,
    context: Option<JsonView>,
    circuit_open: bool,
) -> StepView {
    if circuit_open {
        keyword_step(engine, instruction, "Circuit breaker open"@, 0)
    } else {
        let prompt = routing_prompt(engine.tool_menu_prompt, instruction, context);
        ask_step(engine, instruction, prompt, Tier::Routing, StageView::Inference { prompt })
    }
}

/// The call of a tool, validated: an error where the call has a fault or the menu does not have the
/// tool.
pub open spec fn valid_call(engine: EngineView, tool: Seq<char>, params: JsonView) -> Result<
    RequestView,
    Seq<char>,
> {
    match call_fault(engine.tool_menu, tool, params) {
        Some(fault) => Err(fault),
        None => dispatch_call(
            engine.tool_menu,
            tool,
            params,
            engine.daemon_url,
            engine.api_token,
        ),
    }
}

/// The tool that the keywords of an instruction choose.
pub open spec fn keyword_choice(instruction: Seq<char>) -> Option<ChoiceView> {
    match keyword_routing(instruction) {
        Some((tool, params)) => Some(ChoiceView { tool, params, confidence: None }),
        None => None,
    }
}

/// The step to the tool that the keywords of the instruction choose, where no model could be asked.
pub open spec fn keyword_step(
    engine: EngineView,
    instruction: Seq<char>,
    error: Seq<char>,
    elapsed_ms: u64,
) -> StepView {
    match keyword_choice(instruction) {
        Some(choice) => match valid_call(engine, choice.tool, choice.params) {
            Ok(request) => StepView::Send {
                request,
                pending: PendingView { instruction, stage: StageView::KeywordDispatch { choice } },
            },
            Err(e) => usage_step(
                engine,
                instruction,
                listing_answer(engine, e, Some("keyword"@), elapsed_ms),
                Some(choice),
            ),
        },
        None => usage_step(
            engine,
            instruction,
            listing_answer(engine, error, None, elapsed_ms),
            None,
        ),
    }
}

/// The parameters that the model gave: an empty object where it gave none.
pub open spec fn given_params(routing: RoutingView) -> JsonView {
    match routing.params {
        Some(value) => value,
        None => JsonView::Object(Seq::empty()),
    }
}

/// The tool that the model chose.
pub open spec fn model_choice(routing: RoutingView) -> Option<ChoiceView> {
    match routing.tool {
        Some(tool) => Some(
            ChoiceView { tool, params: given_params(routing), confidence: routing.confidence },
        ),
        None => None,
    }
}

/// The step from what the model picked: the call of the tool, or one retry where the call would not
/// be valid.
pub open spec fn routed_step(
    engine: EngineView,
    instruction: Seq<char>,
    attempt: AttemptView,
    routing: RoutingView,
    model: Seq<char>,
    elapsed_ms: u64,
) -> StepView {
    match model_choice(routing) {
        None => usage_step(
            engine,
            instruction,
            unmatched_answer(engine, instruction, routing.error, model, elapsed_ms),
            None,
        ),
        Some(choice) => match call_fault(engine.tool_menu, choice.tool, choice.params) {
            Some(fault) => match attempt {
                AttemptView::First { prompt, content, tier } => ask_step(
                    engine,
                    instruction,
                    fault_prompt(prompt, content, fault),
                    tier,
                    StageView::Retry { model, chosen: Some(choice) },
                ),
                AttemptView::Second { .. } => usage_step(
                    engine,
                    instruction,
                    corrected_answer(engine, instruction, fault, model, elapsed_ms),
                    Some(choice),
                ),
            },
            None => match dispatch_call(
                engine.tool_menu,
                choice.tool,
                choice.params,
                engine.daemon_url,
                engine.api_token,
            ) {
                Ok(request) => StepView::Send {
                    request,
                    pending: PendingView {
                        instruction,
                        stage: StageView::Dispatch { choice, model, latency_ms: elapsed_ms },
                    },
                },
                Err(e) => usage_step(
                    engine,
                    instruction,
                    dispatched_answer(choice.tool, choice.params, Err(e), model, elapsed_ms),
                    Some(choice),
                ),
            },
        },
    }
}

/// The step from what a reply of the model says: one retry where it cannot be parsed.
pub open spec fn parsed_step(
    engine: EngineView,
    instruction: Seq<char>,
    attempt: AttemptView,
    model: Seq<char>,
    parsed: Result<RoutingView, Seq<char>>,
    elapsed_ms: u64,
) -> StepView {
    match parsed {
        Ok(routing) => routed_step(engine, instruction, attempt, routing, model, elapsed_ms),
        Err(e) => match attempt {
            AttemptView::First { prompt, content, tier } => ask_step(
                engine,
                instruction,
                retry_prompt(prompt, content),
                tier,
                StageView::Retry { model, chosen: None },
            ),
            AttemptView::Second { chosen } => usage_step(
                engine,
                instruction,
                corrected_answer(engine, instruction, e, model, elapsed_ms),
                chosen,
            ),
        },
    }
}

/// Whether a request asks a model.
pub open spec fn asks_model(stage: StageView) -> bool {
    stage is Inference || stage is Local || stage is Retry
}

/// The reply of the model that an outcome holds, where the pending request asked for one.
pub open spec fn reply_in(stage: StageView, outcome: OutcomeView) -> Option<Seq<char>> {
    match inference_answer(outcome) {
        Ok((content, _)) => if asks_model(stage) {
            Some(content)
        } else {
            None
        },
        Err(_) => None,
    }
}

/// What the call of the routing model tells the circuit breaker: whether the model could be asked.
/// Nothing where the request was for something else.
pub open spec fn breaker_news(stage: StageView, outcome: OutcomeView) -> Option<bool> {
    if stage is Inference {
        Some(inference_answer(outcome) is Ok)
    } else {
        None
    }
}

/// The step from what came of a request. Where the outcome holds a reply of the model, `parsed` is
/// what the JSON parser made of it.
pub open spec fn next_step(
    engine: EngineView,
    pending: PendingView,
    outcome: OutcomeView,
    parsed: Result<RoutingView, Seq<char>>,
    elapsed_ms: u64,
) -> StepView {
    let instruction = pending.instruction;
    match pending.stage {
        StageView::Inference { prompt } => match inference_answer(outcome) {
            Err(error) => ask_step(
                engine,
                instruction,
                prompt,
                Tier::Local,
                StageView::Local { prompt, error },
            ),
            Ok((content, model)) => parsed_step(
                engine,
                instruction,
                AttemptView::First { prompt, content, tier: Tier::Routing },
                model,
                reply_result(content, parsed),
                elapsed_ms,
            ),
        },
        StageView::Local { prompt, error } => match inference_answer(outcome) {
            Err(_) => keyword_step(engine, instruction, error, elapsed_ms),
            Ok((content, model)) => parsed_step(
                engine,
                instruction,
                AttemptView::First { prompt, content, tier: Tier::Local },
                model,
                reply_result(content, parsed),
                elapsed_ms,
            ),
        },
        StageView::Retry { model, chosen } => match inference_answer(outcome) {
            Err(e) => usage_step(
                engine,
                instruction,
                corrected_answer(engine, instruction, e, model, elapsed_ms),
                chosen,
            ),
            Ok((content, _)) => parsed_step(
                engine,
                instruction,
                AttemptView::Second { chosen },
                model,
                reply_result(content, parsed),
                elapsed_ms,
            ),
        },
        StageView::KeywordDispatch { choice } => usage_step(
            engine,
            instruction,
            keyword_answer(choice.tool, choice.params, dispatch_answer(outcome), elapsed_ms),
            Some(choice),
        ),
        StageView::Dispatch { choice, model, latency_ms } => usage_step(
            engine,
            instruction,
            dispatched_answer(
                choice.tool,
                choice.params,
                dispatch_answer(outcome),
                model,
                latency_ms,
            ),
            Some(choice),
        ),
        StageView::Usage { response, chosen } => StepView::Done {
            response,
            record: decision_record(instruction, chosen, response),
        },
    }
}

/// Whether `parsed` is what the JSON parser makes of the reply that an outcome holds, if it holds
/// one. The parser gets the JSON text in the reply.
pub open spec fn reads_as<P: Fn(&str) -> Result<RoutingResult, String>>(
    parse: P,
    stage: StageView,
    outcome: OutcomeView,
    parsed: Result<RoutingView, Seq<char>>,
) -> bool {
    reply_in(stage, outcome) matches Some(content) ==> reply_parses_to(parse, content, parsed)
}

/// The tools of a registry document.
fn read_registry(registry: Option<&Json>) -> (r: Vec<ToolMenuEntry>)
    ensures
        menu_view(r@) == registered_tools(optional_ref(registry)),
{
    match registry {
        Some(body) => parse_tool_defs(body),
        None => {
            let none: Vec<ToolMenuEntry> = Vec::new();
            assert(menu_view(none@) =~= Seq::empty());
            none
        },
    }
}

/// The request for the tool registry.
pub fn menu_request(daemon_url: &str, api_token: &Option<String>) -> (r: HttpRequest)
    ensures
        r@ == registry_request(daemon_url@, optional_text(*api_token)),
{
    request_to(HttpMethod::Get, daemon_url, "/api/meta/mcp-tools", api_token, None)
}

impl Pending {
    /// What the outcome of the pending request tells the circuit breaker.
    pub fn news(&self, outcome: &HttpOutcome) -> (r: Option<bool>)
        ensures
            r == breaker_news(self@.stage, outcome@),
    {
        match self.stage {
            Stage::Inference { .. } => match read_inference(outcome) {
                Ok(_) => Some(true),
                Err(_) => Some(false),
            },
            _ => None,
        }
    }
}

impl CeoEngine {
    /// Whether the menu prompt lists the tools of the menu.
    pub open spec fn wf(self) -> bool {
        self@.tool_menu_prompt == menu_prompt(self@.tool_menu)
    }

    /// The engine for a daemon, with the tools of its registry document; without tools where that
    /// could not be had.
    pub fn new(daemon_url: &str, api_token: Option<&str>, registry: Option<&Json>) -> (r: CeoEngine)
        ensures
            r.wf(),
            r@.daemon_url == daemon_url@,
            r@.api_token == optional_str(api_token),
            r@.tool_menu == registered_tools(optional_ref(registry)),
    {
        let tool_menu = read_registry(registry);
        let tool_menu_prompt = build_tool_menu_prompt(tool_menu.as_slice());
        CeoEngine {
            daemon_url: daemon_url.to_owned(),
            api_token: match api_token {
                Some(t) => Some(t.to_owned()),
                None => None,
            },
            tool_menu,
            tool_menu_prompt,
        }
    }

    /// Takes the tools of a registry document in place of those that the engine had.
    pub fn refresh_tool_menu(&mut self, registry: Option<&Json>)
        ensures
            final(self).wf(),
            final(self)@.daemon_url == old(self)@.daemon_url,
            final(self)@.api_token == old(self)@.api_token,
            final(self)@.tool_menu == registered_tools(optional_ref(registry)),
    {
        let tools = read_registry(registry);
        self.tool_menu_prompt = build_tool_menu_prompt(tools.as_slice());
        self.tool_menu = tools;
    }

    /// The number of tools in the menu.
    pub fn tool_count(&self) -> (r: usize)
        ensures
            r == self@.tool_menu.len(),
    {
        self.tool_menu.len()
    }

    /// The request that calls the model.
    pub fn call_inference(&self, prompt: &str, tier: Tier) -> (r: HttpRequest)
        ensures
            r@ == inference_request(self@, prompt@, tier),
    {
        let hint = match tier {
            Tier::Routing => "t1",
            Tier::Local => "mlx",
        };
        let mut members: Vec<(String, Json)> = Vec::new();
        put(&mut members, "agent_id", Json::Text("ceo-router".to_owned()));
        put(&mut members, "max_tokens", Json::from_nat(256));
        put(&mut members, "prompt", Json::Text(prompt.to_owned()));
        put(&mut members, "tier_hint", Json::Text(hint.to_owned()));
        assert(members_view(members@) =~= inference_body(prompt@, tier)->Object_0);
        request_to(
            HttpMethod::Post,
            self.daemon_url.as_str(),
            "/api/inference/complete",
            &self.api_token,
            Some(Json::Object(members)),
        )
    }

    /// The request that reports a routing.
    pub fn record_usage(&self, model: &Option<String>, latency_ms: u64) -> (r: HttpRequest)
        ensures
            r@ == usage_request(self@, optional_text(*model), latency_ms),
    {
        let mut host = "ceo-routing-".to_owned();
        let digits = write_decimal(latency_ms);
        host.append(digits.as_str());
        host.append("ms");
        let name = match model {
            Some(m) => m.clone(),
            None => "unknown".to_owned(),
        };
        let mut members: Vec<(String, Json)> = Vec::new();
        put(&mut members, "agent", Json::Text("ceo-router".to_owned()));
        put(&mut members, "cost_usd", Json::Number(JsonNumber::Float("0.0001".to_owned())));
        put(&mut members, "execution_host", Json::Text(host));
        put(&mut members, "input_tokens", Json::from_nat(256));
        put(&mut members, "model", Json::Text(name));
        put(&mut members, "output_tokens", Json::from_nat(64));
        assert(members_view(members@) =~= usage_body(optional_text(*model), latency_ms)->Object_0);
        request_to(
            HttpMethod::Post,
            self.daemon_url.as_str(),
            "/api/tracking/tokens",
            &self.api_token,
            Some(Json::Object(members)),
        )
    }

    /// The request that calls a tool; an error where the menu does not have it.
    pub fn dispatch(&self, tool_name: &str, params: &Json) -> (r: Result<HttpRequest, String>)
        ensures
            planned_view(r) == dispatch_call(
                self@.tool_menu,
                tool_name@,
                params@,
                self@.daemon_url,
                self@.api_token,
            ),
    {
        plan_dispatch(
            self.tool_menu.as_slice(),
            tool_name,
            params,
            self.daemon_url.as_str(),
            &self.api_token,
        )
    }

    /// The response that reports an error.
    pub fn error_response(&self, error: String, model: Option<String>, elapsed_ms: u64) -> (r:
        CeoResponse)
        ensures
            r@ == error_answer(error@, optional_text(model), elapsed_ms),
    {
        CeoResponse {
            tool_used: None,
            params: None,
            result: None,
            error: Some(error),
            suggestion: None,
            routing_model: model,
            routing_latency_ms: Some(elapsed_ms),
        }
    }

    /// The response that reports an error, with what the client may try in its place.
    fn failed_response(
        &self,
        error: String,
        suggestion: String,
        model: Option<String>,
        elapsed_ms: u64,
    ) -> (r: CeoResponse)
        ensures
            r@ == (ResponseView {
                suggestion: Some(suggestion@),
                ..error_answer(error@, optional_text(model), elapsed_ms)
            }),
    {
        CeoResponse {
            tool_used: None,
            params: None,
            result: None,
            error: Some(error),
            suggestion: Some(suggestion),
            routing_model: model,
            routing_latency_ms: Some(elapsed_ms),
        }
    }

    /// The suggested correction of an instruction.
    pub fn suggest_correction(&self, instruction: &str) -> (r: String)
        ensures
            r@ == correction(self@, instruction@),
    {
        match find_suggestion(instruction, self.tool_menu.as_slice()) {
            Some(text) => text,
            None => self.tool_menu_prompt.clone(),
        }
    }

    /// The step that asks a model.
    fn ask(&self, instruction: String, prompt: &str, tier: Tier, stage: Stage) -> (r: RouteStep)
        ensures
            r@ == ask_step(self@, instruction@, prompt@, tier, stage@),
    {
        RouteStep::Send {
            request: self.call_inference(prompt, tier),
            pending: Pending { instruction, stage },
        }
    }

    /// The step that reports the routing, with the response ready.
    fn report_usage(
        &self,
        instruction: String,
        response: CeoResponse,
        chosen: Option<Choice>,
    ) -> (r: RouteStep)
        ensures
            r@ == usage_step(self@, instruction@, response@, optional_choice(chosen)),
    {
        let latency_ms: u64 = match response.routing_latency_ms {
            Some(n) => n,
            None => 0,
        };
        let request = self.record_usage(&response.routing_model, latency_ms);
        RouteStep::Send {
            request,
            pending: Pending { instruction, stage: Stage::Usage { response, chosen } },
        }
    }

    /// The step where the retry failed.
    fn give_up(
        &self,
        instruction: String,
        error: String,
        model: String,
        elapsed_ms: u64,
        chosen: Option<Choice>,
    ) -> (r: RouteStep)
        ensures
            r@ == usage_step(
                self@,
                instruction@,
                corrected_answer(self@, instruction@, error@, model@, elapsed_ms),
                optional_choice(chosen),
            ),
    {
        let text = self.suggest_correction(instruction.as_str());
        let response = self.failed_response(error, text, Some(model), elapsed_ms);
        self.report_usage(instruction, response, chosen)
    }

    /// Route a natural-language instruction to the correct tool and dispatch: the first step, given
    /// what the circuit breaker says.
    pub fn route_instruction(
        &self,
        instruction: &str,
        context: Option<&Json>,
        circuit_open: bool,
    ) -> (r: RouteStep)
        ensures
            r@ == first_step(self@, instruction@, optional_ref(context), circuit_open),
    {
        let instruction = instruction.to_owned();
        if circuit_open {
            self.fall_back(instruction, "Circuit breaker open".to_owned(), 0)
        } else {
            let prompt = build_routing_prompt(
                self.tool_menu_prompt.as_str(),
                instruction.as_str(),
                context,
            );
            let sent = prompt.clone();
            self.ask(instruction, sent.as_str(), Tier::Routing, Stage::Inference { prompt })
        }
    }

    /// The call of a tool, validated.
    pub fn plan_valid(&self, tool: &str, params: &Json) -> (r: Result<HttpRequest, String>)
        ensures
            planned_view(r) == valid_call(self@, tool@, params@),
    {
        match check_call(self.tool_menu.as_slice(), tool, params) {
            Some(fault) => Err(fault),
            None => self.dispatch(tool, params),
        }
    }

    /// The step to the tool that the keywords of the instruction choose.
    fn fall_back(&self, instruction: String, error: String, elapsed_ms: u64) -> (r: RouteStep)
        ensures
            r@ == keyword_step(self@, instruction@, error@, elapsed_ms),
    {
        let menu = self.tool_menu_prompt.clone();
        match keyword_route(instruction.as_str()) {
            Some((tool, params)) => {
                let choice = Choice { tool, params, confidence: None };
                match self.plan_valid(choice.tool.as_str(), &choice.params) {
                    Ok(request) => RouteStep::Send {
                        request,
                        pending: Pending { instruction, stage: Stage::KeywordDispatch { choice } },
                    },
                    Err(e) => {
                        let model = Some("keyword".to_owned());
                        let response = self.failed_response(e, menu, model, elapsed_ms);
                        self.report_usage(instruction, response, Some(choice))
                    },
                }
            },
            None => {
                let response = self.failed_response(error, menu, None, elapsed_ms);
                self.report_usage(instruction, response, None)
            },
        }
    }

    /// The step from what the model picked: the call of the tool, or one retry where the call would
    /// not be valid.
    pub fn follow_routing(
        &self,
        instruction: String,
        attempt: Attempt,
        routing: RoutingResult,
        model: String,
        elapsed_ms: u64,
    ) -> (r: RouteStep)
        ensures
            r@ == routed_step(self@, instruction@, attempt@, routing@, model@, elapsed_ms),
    {
        match routing.tool {
            None => {
                let error = match routing.error {
                    Some(reason) => reason,
                    None => "No matching tool".to_owned(),
                };
                let response = CeoResponse {
                    tool_used: None,
                    params: None,
                    result: None,
                    error: Some(error),
                    suggestion: find_suggestion(instruction.as_str(), self.tool_menu.as_slice()),
                    routing_model: Some(model),
                    routing_latency_ms: Some(elapsed_ms),
                };
                self.report_usage(instruction, response, None)
            },
            Some(tool) => {
                let params = match routing.params {
                    Some(value) => value,
                    None => Json::empty_object(),
                };
                let choice = Choice { tool, params, confidence: routing.confidence };
                let name = choice.tool.as_str();
                match check_call(self.tool_menu.as_slice(), name, &choice.params) {
                    Some(fault) => match attempt {
                        Attempt::First { prompt, content, tier } => {
                            let mut again = prompt;
                            again.append("\n\nPrevious response was invalid: ");
                            again.append(content.as_str());
                            again.append("\n\n");
                            again.append(fault.as_str());
                            again.append("\n\nRespond ONLY with valid JSON.");
                            let stage = Stage::Retry { model, chosen: Some(choice) };
                            self.ask(instruction, again.as_str(), tier, stage)
                        },
                        Attempt::Second { .. } => {
                            self.give_up(instruction, fault, model, elapsed_ms, Some(choice))
                        },
                    },
                    None => match self.dispatch(name, &choice.params) {
                        Ok(request) => RouteStep::Send {
                            request,
                            pending: Pending {
                                instruction,
                                stage: Stage::Dispatch { choice, model, latency_ms: elapsed_ms },
                            },
                        },
                        Err(e) => {
                            let response = dispatched_response(&choice, Err(e), model, elapsed_ms);
                            self.report_usage(instruction, response, Some(choice))
                        },
                    },
                }
            },
        }
    }

    /// The step from what a reply of the model says: one retry where it cannot be parsed.
    pub fn follow_parse(
        &self,
        instruction: String,
        attempt: Attempt,
        model: String,
        parsed: Result<RoutingResult, String>,
        elapsed_ms: u64,
    ) -> (r: RouteStep)
        ensures
            r@ == parsed_step(
                self@,
                instruction@,
                attempt@,
                model@,
                parsed_view(parsed),
                elapsed_ms,
            ),
    {
        match parsed {
            Ok(routing) => self.follow_routing(instruction, attempt, routing, model, elapsed_ms),
            Err(e) => match attempt {
                Attempt::First { prompt, content, tier } => {
                    let mut again = prompt;
                    again.append("\n\nPrevious response was invalid JSON: ");
                    again.append(content.as_str());
                    again.append("\n\nRespond ONLY with valid JSON.");
                    let stage = Stage::Retry { model, chosen: None };
                    self.ask(instruction, again.as_str(), tier, stage)
                },
                Attempt::Second { chosen } => {
                    self.give_up(instruction, e, model, elapsed_ms, chosen)
                },
            },
        }
    }

    /// The step from what came of the request that was pending. The JSON parser reads the replies
    /// of the model, and is called for nothing else.
    pub fn advance<P: Fn(&str) -> Result<RoutingResult, String>>(
        &self,
        pending: Pending,
        outcome: HttpOutcome,
        elapsed_ms: u64,
        parse: &P,
    ) -> (r: RouteStep)
        requires
            takes_any_text(*parse),
        ensures
            exists|parsed: Result<RoutingView, Seq<char>>| #[trigger]
                reads_as(*parse, pending@.stage, outcome@, parsed) && r@ == next_step(
                    self@,
                    pending@,
                    outcome@,
                    parsed,
                    elapsed_ms,
                ),
    {
        let ghost asked = pending@.stage;
        let ghost came = outcome@;
        proof {
            if reply_in(asked, came) is None {
                assert(reads_as(*parse, asked, came, Err(Seq::empty())));
            }
        }
        let Pending { instruction, stage } = pending;
        match stage {
            Stage::Inference { prompt } => match read_inference(&outcome) {
                Err(error) => {
                    let sent = prompt.clone();
                    let stage = Stage::Local { prompt, error };
                    self.ask(instruction, sent.as_str(), Tier::Local, stage)
                },
                Ok((content, model)) => {
                    let parsed = parse_routing_response(content.as_str(), parse);
                    proof {
                        let found = choose|p: Result<RoutingView, Seq<char>>| #[trigger]
                            reply_parses_to(*parse, content@, p) && parsed_view(parsed)
                                == reply_result(content@, p);
                        assert(reads_as(*parse, asked, came, found));
                    }
                    let attempt = Attempt::First { prompt, content, tier: Tier::Routing };
                    self.follow_parse(instruction, attempt, model, parsed, elapsed_ms)
                },
            },
            Stage::Local { prompt, error } => match read_inference(&outcome) {
                Err(_) => self.fall_back(instruction, error, elapsed_ms),
                Ok((content, model)) => {
                    let parsed = parse_routing_response(content.as_str(), parse);
                    proof {
                        let found = choose|p: Result<RoutingView, Seq<char>>| #[trigger]
                            reply_parses_to(*parse, content@, p) && parsed_view(parsed)
                                == reply_result(content@, p);
                        assert(reads_as(*parse, asked, came, found));
                    }
                    let attempt = Attempt::First { prompt, content, tier: Tier::Local };
                    self.follow_parse(instruction, attempt, model, parsed, elapsed_ms)
                },
            },
            Stage::Retry { model, chosen } => match read_inference(&outcome) {
                Err(e) => self.give_up(instruction, e, model, elapsed_ms, chosen),
                Ok((content, _)) => {
                    let parsed = parse_routing_response(content.as_str(), parse);
                    proof {
                        let found = choose|p: Result<RoutingView, Seq<char>>| #[trigger]
                            reply_parses_to(*parse, content@, p) && parsed_view(parsed)
                                == reply_result(content@, p);
                        assert(reads_as(*parse, asked, came, found));
                    }
                    let attempt = Attempt::Second { chosen };
                    self.follow_parse(instruction, attempt, model, parsed, elapsed_ms)
                },
            },
            Stage::KeywordDispatch { choice } => {
                let model = Some("keyword".to_owned());
                let response = match read_dispatch(outcome) {
                    Ok(value) => CeoResponse {
                        tool_used: Some(choice.tool.clone()),
                        params: Some(choice.params.clone()),
                        result: Some(value),
                        error: None,
                        suggestion: None,
                        routing_model: model,
                        routing_latency_ms: Some(elapsed_ms),
                    },
                    Err(e) => self.error_response(e, model, elapsed_ms),
                };
                self.report_usage(instruction, response, Some(choice))
            },
            Stage::Dispatch { choice, model, latency_ms } => {
                let answer = read_dispatch(outcome);
                let response = dispatched_response(&choice, answer, model, latency_ms);
                self.report_usage(instruction, response, Some(choice))
            },
            Stage::Usage { response, chosen } => {
                let record = routing_record(instruction.as_str(), &chosen, &response);
                RouteStep::Done { response, record }
            },
        }
    }
}

/// The response to the call of a tool that the model chose.
fn dispatched_response(
    choice: &Choice,
    answer: Result<Json, String>,
    model: String,
    latency_ms: u64,
) -> (r: CeoResponse)
    ensures
        r@ == dispatched_answer(
            choice@.tool,
            choice@.params,
            dispatch_view(answer),
            model@,
            latency_ms,
        ),
{
    let (result, error) = match answer {
        Ok(value) => (Some(value), None),
        Err(e) => (None, Some(prefixed("Dispatch failed: ", e.as_str()))),
    };
    CeoResponse {
        tool_used: Some(choice.tool.clone()),
        params: Some(choice.params.clone()),
        result,
        error,
        suggestion: None,
        routing_model: Some(model),
        routing_latency_ms: Some(latency_ms),
    }
}

} // verus!
