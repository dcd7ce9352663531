//! What holds of routing: what is sent to the daemon, what is read out of its answers, and what the
//! client gets.

use vstd::prelude::*;

use crate::ceo_audit::decision_record;
use crate::ceo_dispatch::{call_fault, tool_call, tool_named};
use crate::ceo_fallback::keyword_routing;
use crate::ceo_helpers::{
    lowercase, reply_result, routing_json, search_entries, suggestion, ROUTER_ROLE, ROUTER_RULES,
};
use crate::ceo_routes::response_body;
use crate::engine::{
    breaker_news, dispatch_answer, first_step, inference_answer, inference_request, next_step, registered_tools,
    registry_request, reply_in, usage_request, EngineView, PendingView, StageView, StepView, Tier,
};
use crate::http::{HttpMethod, OutcomeView, RequestView};
use crate::json::{json_text, lookup, member, JsonView, NumberView};
use crate::laws::{law_json_is_found_between_other_text, law_tools_are_found_by_name};
use crate::text::decimal;
use crate::types::{ChoiceView, ResponseView, RoutingView, ToolView};

verus! {

// ---------------------------------------------------------------------------------------------
// What the model says
// ---------------------------------------------------------------------------------------------

/// The reply of the model is the string under `content`, character for character, over all of its
/// lines; the name of the model is the string under `model_used`.
pub proof fn law_reply_is_read_whole(
    body: JsonView,
    content: Seq<char>,
    model: Seq<char>,
    instruction: Seq<char>,
    prompt: Seq<char>,
    error: Seq<char>,
    chosen: Option<ChoiceView>,
)
    requires
        lookup(body, "content"@) == Some(JsonView::Text(content)),
    ensures
        inference_answer(OutcomeView::Body(body)) matches Ok((read, _)) && read == content,
        lookup(body, "model_used"@) == Some(JsonView::Text(model)) ==> inference_answer(
            OutcomeView::Body(body),
        ) == Ok::<(Seq<char>, Seq<char>), Seq<char>>((content, model)),
        reply_in(StageView::Inference { prompt }, OutcomeView::Body(body)) == Some(content),
        reply_in(StageView::Local { prompt, error }, OutcomeView::Body(body)) == Some(content),
        reply_in(StageView::Retry { model, chosen }, OutcomeView::Body(body)) == Some(content),
{
}

/// Where the answer of the model leaves something out, or gives it as something else than a string,
/// the reply is empty and the name of the model `unknown`.
pub proof fn law_incomplete_answers_have_defaults(body: JsonView)
    ensures
        lookup(body, "content"@) is None || lookup(body, "content"@)->0 !is Text ==> (
        inference_answer(OutcomeView::Body(body)) matches Ok((read, _)) && read.len() == 0),
        lookup(body, "model_used"@) is None || lookup(body, "model_used"@)->0 !is Text ==> (
        inference_answer(OutcomeView::Body(body)) matches Ok((_, model)) && model == "unknown"@),
{
    reveal_strlit("");
}

/// A call of the model that brings no JSON is an error that says what failed.
pub proof fn law_failed_inference_says_why(e: Seq<char>)
    ensures
        inference_answer(OutcomeView::SendFailed(e)) == Err::<(Seq<char>, Seq<char>), Seq<char>>(e),
        inference_answer(OutcomeView::BodyUnreadable(e)) == Err::<
            (Seq<char>, Seq<char>),
            Seq<char>,
        >(e),
        inference_answer(OutcomeView::StatusError(e)) == Err::<(Seq<char>, Seq<char>), Seq<char>>(
            "inference HTTP error: "@ + e,
        ),
{
}

/// The JSON object in a reply is what the parser gets, whatever stands around it, such as a code
/// fence over several lines.
pub proof fn law_parser_gets_the_object_of_the_reply(
    body: JsonView,
    before: Seq<char>,
    object: Seq<char>,
    after: Seq<char>,
    instruction: Seq<char>,
    prompt: Seq<char>,
)
    requires
        lookup(body, "content"@) == Some(JsonView::Text(before + object + after)),
        object.len() > 0,
        object[0] == '{',
        object.last() == '}',
        !before.contains('{'),
        !after.contains('}'),
    ensures
        reply_in(StageView::Inference { prompt }, OutcomeView::Body(body)) matches Some(content)
            && routing_json(content) == Some(object),
{
    law_json_is_found_between_other_text(before, object, after);
}

/// What the parser says of the JSON text of a reply is what is gone by; its error is reported behind
/// a note.
pub proof fn law_parser_decides(
    content: Seq<char>,
    routing: RoutingView,
    e: Seq<char>,
)
    requires
        routing_json(content) is Some,
    ensures
        reply_result(content, Ok(routing)) == Ok::<RoutingView, Seq<char>>(routing),
        reply_result(content, Err(e)) == Err::<RoutingView, Seq<char>>("JSON parse error: "@ + e),
{
}

/// The first call of a model for an instruction.
pub open spec fn first_ask(
    instruction: Seq<char>,
    tier: Tier,
    prompt: Seq<char>,
    error: Seq<char>,
) -> PendingView {
    PendingView {
        instruction,
        stage: match tier {
            Tier::Routing => StageView::Inference { prompt },
            Tier::Local => StageView::Local { prompt, error },
        },
    }
}

/// The tool that the model picks is the one that is called: where its reply names a tool of the menu
/// and the call has no fault, the next request calls that tool with the parameters of the reply, or
/// with none where it gave none. After a retry the model that was asked first is the one that is
/// named.
pub proof fn law_picked_tool_is_called(
    engine: EngineView,
    instruction: Seq<char>,
    tier: Tier,
    prompt: Seq<char>,
    error: Seq<char>,
    body: JsonView,
    content: Seq<char>,
    model: Seq<char>,
    asked_first: Seq<char>,
    routing: RoutingView,
    name: Seq<char>,
    tool: ToolView,
    params: JsonView,
    chosen: Option<ChoiceView>,
    elapsed_ms: u64,
)
    requires
        lookup(body, "content"@) == Some(JsonView::Text(content)),
        lookup(body, "model_used"@) == Some(JsonView::Text(model)),
        routing_json(content) is Some,
        routing.tool == Some(name),
        match routing.params {
            Some(given) => params == given,
            None => params == JsonView::Object(Seq::empty()),
        },
        tool_named(engine.tool_menu, name) == Some(tool),
        call_fault(engine.tool_menu, name, params) is None,
    ensures
        next_step(
            engine,
            first_ask(instruction, tier, prompt, error),
            OutcomeView::Body(body),
            Ok(routing),
            elapsed_ms,
        ) == (StepView::Send {
            request: tool_call(tool, params, engine.daemon_url, engine.api_token),
            pending: PendingView {
                instruction,
                stage: StageView::Dispatch {
                    choice: ChoiceView { tool: name, params, confidence: routing.confidence },
                    model,
                    latency_ms: elapsed_ms,
                },
            },
        }),
        next_step(
            engine,
            PendingView { instruction, stage: StageView::Retry { model: asked_first, chosen } },
            OutcomeView::Body(body),
            Ok(routing),
            elapsed_ms,
        ) == (StepView::Send {
            request: tool_call(tool, params, engine.daemon_url, engine.api_token),
            pending: PendingView {
                instruction,
                stage: StageView::Dispatch {
                    choice: ChoiceView { tool: name, params, confidence: routing.confidence },
                    model: asked_first,
                    latency_ms: elapsed_ms,
                },
            },
        }),
{
}

/// The response that is ready after a step, if it reports a routing.
pub open spec fn response_after(step: StepView) -> Option<ResponseView> {
    match step {
        StepView::Send { pending, .. } => match pending.stage {
            StageView::Usage { response, .. } => Some(response),
            _ => None,
        },
        StepView::Done { .. } => None,
    }
}

/// Where the model names no tool, no tool is called: the response gives the model's reason, or says
/// that no tool matches, and suggests the tools that come close to the instruction.
pub proof fn law_no_tool_gives_the_reason(
    engine: EngineView,
    instruction: Seq<char>,
    tier: Tier,
    prompt: Seq<char>,
    error: Seq<char>,
    body: JsonView,
    content: Seq<char>,
    model: Seq<char>,
    asked_first: Seq<char>,
    chosen: Option<ChoiceView>,
    routing: RoutingView,
    elapsed_ms: u64,
)
    requires
        lookup(body, "content"@) == Some(JsonView::Text(content)),
        lookup(body, "model_used"@) == Some(JsonView::Text(model)),
        routing_json(content) is Some,
        routing.tool is None,
    ensures
        response_after(
            next_step(
                engine,
                first_ask(instruction, tier, prompt, error),
                OutcomeView::Body(body),
                Ok(routing),
                elapsed_ms,
            ),
        ) == Some(
            ResponseView {
                tool_used: None,
                params: None,
                result: None,
                error: Some(
                    if routing.error is Some {
                        routing.error->0
                    } else {
                        "No matching tool"@
                    },
                ),
                suggestion: suggestion(lowercase(instruction), search_entries(engine.tool_menu)),
                routing_model: Some(model),
                routing_latency_ms: Some(elapsed_ms),
            },
        ),
        response_after(
            next_step(
                engine,
                PendingView {
                    instruction,
                    stage: StageView::Retry { model: asked_first, chosen },
                },
                OutcomeView::Body(body),
                Ok(routing),
                elapsed_ms,
            ),
        ) == Some(
            ResponseView {
                tool_used: None,
                params: None,
                result: None,
                error: Some(
                    if routing.error is Some {
                        routing.error->0
                    } else {
                        "No matching tool"@
                    },
                ),
                suggestion: suggestion(lowercase(instruction), search_entries(engine.tool_menu)),
                routing_model: Some(asked_first),
                routing_latency_ms: Some(elapsed_ms),
            },
        ),
{
}

/// A tool that the menu does not have is not called: the response names it and says that it is
/// unknown.
pub proof fn law_unknown_tool_is_reported(
    engine: EngineView,
    instruction: Seq<char>,
    tier: Tier,
    prompt: Seq<char>,
    error: Seq<char>,
    body: JsonView,
    content: Seq<char>,
    model: Seq<char>,
    asked_first: Seq<char>,
    chosen: Option<ChoiceView>,
    routing: RoutingView,
    name: Seq<char>,
    elapsed_ms: u64,
)
    requires
        lookup(body, "content"@) == Some(JsonView::Text(content)),
        lookup(body, "model_used"@) == Some(JsonView::Text(model)),
        routing_json(content) is Some,
        routing.tool == Some(name),
        forall|i: int|
            0 <= i < engine.tool_menu.len() ==> (#[trigger] engine.tool_menu[i]).name != name,
    ensures
        response_after(
            next_step(
                engine,
                first_ask(instruction, tier, prompt, error),
                OutcomeView::Body(body),
                Ok(routing),
                elapsed_ms,
            ),
        ) == Some(
            ResponseView {
                tool_used: Some(name),
                params: Some(
                    if routing.params is Some {
                        routing.params->0
                    } else {
                        JsonView::Object(Seq::empty())
                    },
                ),
                result: None,
                error: Some("Dispatch failed: "@ + ("Unknown tool: "@ + name)),
                suggestion: None,
                routing_model: Some(model),
                routing_latency_ms: Some(elapsed_ms),
            },
        ),
        response_after(
            next_step(
                engine,
                PendingView {
                    instruction,
                    stage: StageView::Retry { model: asked_first, chosen },
                },
                OutcomeView::Body(body),
                Ok(routing),
                elapsed_ms,
            ),
        ) == Some(
            ResponseView {
                tool_used: Some(name),
                params: Some(
                    if routing.params is Some {
                        routing.params->0
                    } else {
                        JsonView::Object(Seq::empty())
                    },
                ),
                result: None,
                error: Some("Dispatch failed: "@ + ("Unknown tool: "@ + name)),
                suggestion: None,
                routing_model: Some(asked_first),
                routing_latency_ms: Some(elapsed_ms),
            },
        ),
{
    law_tools_are_found_by_name(engine.tool_menu, name);
}

/// The prompt of a retry: the first prompt, the reply that was rejected, and what was wrong with it.
pub proof fn law_retry_prompts_are_spelled_out(
    engine: EngineView,
    instruction: Seq<char>,
    tier: Tier,
    prompt: Seq<char>,
    failure: Seq<char>,
    body: JsonView,
    content: Seq<char>,
    routing: RoutingView,
    name: Seq<char>,
    e: Seq<char>,
    fault: Seq<char>,
    elapsed_ms: u64,
)
    requires
        lookup(body, "content"@) == Some(JsonView::Text(content)),
    ensures
        next_step(
            engine,
            first_ask(instruction, tier, prompt, failure),
            OutcomeView::Body(body),
            Err(e),
            elapsed_ms,
        ) matches StepView::Send { request, .. } && request == inference_request(
            engine,
            prompt + "\n\nPrevious response was invalid JSON: "@ + content
                + "\n\nRespond ONLY with valid JSON."@,
            tier,
        ),
        routing_json(content) is Some && routing.tool == Some(name) && call_fault(
            engine.tool_menu,
            name,
            if routing.params is Some {
                routing.params->0
            } else {
                JsonView::Object(Seq::empty())
            },
        ) == Some(fault) ==> {
            next_step(
                engine,
                first_ask(instruction, tier, prompt, failure),
                OutcomeView::Body(body),
                Ok(routing),
                elapsed_ms,
            ) matches StepView::Send { request, .. } && request == inference_request(
                engine,
                prompt + "\n\nPrevious response was invalid: "@ + content + "\n\n"@ + fault
                    + "\n\nRespond ONLY with valid JSON."@,
                tier,
            )
        },
{
}

/// The response after a failed retry says what failed: the error of the model, of the parser, or the
/// fault of the call. It suggests the tools that come close, or else the whole menu.
pub proof fn law_failed_retry_says_why(
    engine: EngineView,
    instruction: Seq<char>,
    model: Seq<char>,
    chosen: Option<ChoiceView>,
    outcome: OutcomeView,
    parsed: Result<RoutingView, Seq<char>>,
    why: Seq<char>,
    elapsed_ms: u64,
)
    requires
        match inference_answer(outcome) {
            Err(e) => why == e,
            Ok((content, _)) => routing_json(content) is Some && match parsed {
                Err(e) => why == "JSON parse error: "@ + e,
                Ok(routing) => routing.tool is Some && call_fault(
                    engine.tool_menu,
                    routing.tool->0,
                    if routing.params is Some {
                        routing.params->0
                    } else {
                        JsonView::Object(Seq::empty())
                    },
                ) == Some(why),
            },
        },
    ensures
        response_after(
            next_step(
                engine,
                PendingView { instruction, stage: StageView::Retry { model, chosen } },
                outcome,
                parsed,
                elapsed_ms,
            ),
        ) == Some(
            ResponseView {
                tool_used: None,
                params: None,
                result: None,
                error: Some(why),
                suggestion: {
                    let close = suggestion(
                        lowercase(instruction),
                        search_entries(engine.tool_menu),
                    );
                    if close is Some {
                        close
                    } else {
                        Some(engine.tool_menu_prompt)
                    }
                },
                routing_model: Some(model),
                routing_latency_ms: Some(elapsed_ms),
            },
        ),
{
}

// ---------------------------------------------------------------------------------------------
// What the tool says
// ---------------------------------------------------------------------------------------------

/// The result of a tool comes back to the client as it is: where the call of a tool, chosen by the
/// model or by keyword, brings a JSON body, the response has that very body as its result, with the
/// tool and its parameters, and no error.
pub proof fn law_result_comes_back(
    engine: EngineView,
    instruction: Seq<char>,
    choice: ChoiceView,
    model: Seq<char>,
    latency_ms: u64,
    body: JsonView,
    parsed: Result<RoutingView, Seq<char>>,
    elapsed_ms: u64,
)
    ensures
        response_after(
            next_step(
                engine,
                PendingView {
                    instruction,
                    stage: StageView::Dispatch { choice, model, latency_ms },
                },
                OutcomeView::Body(body),
                parsed,
                elapsed_ms,
            ),
        ) == Some(
            ResponseView {
                tool_used: Some(choice.tool),
                params: Some(choice.params),
                result: Some(body),
                error: None,
                suggestion: None,
                routing_model: Some(model),
                routing_latency_ms: Some(latency_ms),
            },
        ),
        response_after(
            next_step(
                engine,
                PendingView { instruction, stage: StageView::KeywordDispatch { choice } },
                OutcomeView::Body(body),
                parsed,
                elapsed_ms,
            ),
        ) == Some(
            ResponseView {
                tool_used: Some(choice.tool),
                params: Some(choice.params),
                result: Some(body),
                error: None,
                suggestion: None,
                routing_model: Some("keyword"@),
                routing_latency_ms: Some(elapsed_ms),
            },
        ),
        dispatch_answer(OutcomeView::Body(body)) == Ok::<JsonView, Seq<char>>(body),
{
}

/// What is said of a call of a tool that brought no JSON.
pub open spec fn call_error(outcome: OutcomeView) -> Seq<char> {
    match outcome {
        OutcomeView::SendFailed(e) => e,
        OutcomeView::StatusError(e) => "dispatch HTTP error: "@ + e,
        OutcomeView::BodyUnreadable(e) => e,
        OutcomeView::Body(_) => Seq::empty(),
    }
}

/// A call of a tool that brings no JSON gives no result, and an error that says what failed.
pub proof fn law_failed_call_says_why(
    engine: EngineView,
    instruction: Seq<char>,
    choice: ChoiceView,
    model: Seq<char>,
    latency_ms: u64,
    outcome: OutcomeView,
    parsed: Result<RoutingView, Seq<char>>,
    elapsed_ms: u64,
)
    requires
        outcome !is Body,
    ensures
        response_after(
            next_step(
                engine,
                PendingView {
                    instruction,
                    stage: StageView::Dispatch { choice, model, latency_ms },
                },
                outcome,
                parsed,
                elapsed_ms,
            ),
        ) == Some(
            ResponseView {
                tool_used: Some(choice.tool),
                params: Some(choice.params),
                result: None,
                error: Some("Dispatch failed: "@ + call_error(outcome)),
                suggestion: None,
                routing_model: Some(model),
                routing_latency_ms: Some(latency_ms),
            },
        ),
        response_after(
            next_step(
                engine,
                PendingView { instruction, stage: StageView::KeywordDispatch { choice } },
                outcome,
                parsed,
                elapsed_ms,
            ),
        ) == Some(
            ResponseView {
                tool_used: None,
                params: None,
                result: None,
                error: Some(call_error(outcome)),
                suggestion: None,
                routing_model: Some("keyword"@),
                routing_latency_ms: Some(elapsed_ms),
            },
        ),
{
}

/// The response that is ready is the one that the client gets, whatever comes of the report.
pub proof fn law_ready_response_is_returned(
    engine: EngineView,
    instruction: Seq<char>,
    response: ResponseView,
    chosen: Option<ChoiceView>,
    outcome: OutcomeView,
    parsed: Result<RoutingView, Seq<char>>,
    elapsed_ms: u64,
)
    ensures
        next_step(
            engine,
            PendingView { instruction, stage: StageView::Usage { response, chosen } },
            outcome,
            parsed,
            elapsed_ms,
        ) == (StepView::Done {
            response,
            record: decision_record(instruction, chosen, response),
        }),
{
}

// ---------------------------------------------------------------------------------------------
// What is sent
// ---------------------------------------------------------------------------------------------

/// The first member with a key is the one that is looked up.
proof fn lemma_member_at(m: Seq<(Seq<char>, JsonView)>, key: Seq<char>, i: int)
    requires
        0 <= i < m.len(),
        m[i].0 == key,
        forall|j: int| 0 <= j < i ==> (#[trigger] m[j]).0 != key,
    ensures
        member(m, key) == Some(m[i].1),
    decreases i,
{
    if i > 0 {
        assert(m[0].0 != key);
        assert forall|j: int| 0 <= j < i - 1 implies (#[trigger] m.skip(1)[j]).0 != key by {
            assert(m.skip(1)[j] == m[j + 1]);
        }
        lemma_member_at(m.skip(1), key, i - 1);
    }
}

/// A key that no member has is not looked up.
proof fn lemma_member_absent(m: Seq<(Seq<char>, JsonView)>, key: Seq<char>)
    requires
        forall|j: int| 0 <= j < m.len() ==> (#[trigger] m[j]).0 != key,
    ensures
        member(m, key) is None,
    decreases m.len(),
{
    if m.len() > 0 {
        assert forall|j: int| 0 <= j < m.skip(1).len() implies (#[trigger] m.skip(1)[j]).0
            != key by {
            assert(m.skip(1)[j] == m[j + 1]);
        }
        lemma_member_absent(m.skip(1), key);
        assert(m[0].0 != key);
    }
}

/// Looking a key up gives the value of the first member with that key, nothing where no member has
/// it, and nothing in anything but an object.
pub proof fn law_lookup_finds_the_first_member(
    members: Seq<(Seq<char>, JsonView)>,
    key: Seq<char>,
    i: int,
    other: JsonView,
)
    ensures
        0 <= i < members.len() && members[i].0 == key && (forall|j: int|
            0 <= j < i ==> (#[trigger] members[j]).0 != key) ==> lookup(
            JsonView::Object(members),
            key,
        ) == Some(members[i].1),
        (forall|j: int| 0 <= j < members.len() ==> (#[trigger] members[j]).0 != key) ==> lookup(
            JsonView::Object(members),
            key,
        ) is None,
        other !is Object ==> lookup(other, key) is None,
{
    if 0 <= i < members.len() && members[i].0 == key && (forall|j: int|
        0 <= j < i ==> (#[trigger] members[j]).0 != key) {
        lemma_member_at(members, key, i);
    }
    if forall|j: int| 0 <= j < members.len() ==> (#[trigger] members[j]).0 != key {
        lemma_member_absent(members, key);
    }
}

/// Whether a request goes to a path of the daemon with the token of the engine.
pub open spec fn goes_to(
    request: RequestView,
    method: HttpMethod,
    engine: EngineView,
    path: Seq<char>,
) -> bool {
    &&& request.method == method
    &&& request.url == engine.daemon_url + path
    &&& request.authorization == (if engine.api_token is Some {
        Some("Bearer "@ + engine.api_token->0)
    } else {
        None
    })
}

/// A call of a model posts the whole prompt, for the routing model or for the local one.
pub proof fn law_prompt_is_sent_whole(engine: EngineView, prompt: Seq<char>, tier: Tier)
    ensures
        ({
            let request = inference_request(engine, prompt, tier);
            &&& goes_to(request, HttpMethod::Post, engine, "/api/inference/complete"@)
            &&& request.body is Some
            &&& lookup(request.body->0, "prompt"@) == Some(JsonView::Text(prompt))
            &&& lookup(request.body->0, "agent_id"@) == Some(JsonView::Text("ceo-router"@))
            &&& lookup(request.body->0, "max_tokens"@) == Some(
                JsonView::Number(NumberView::PosInt(256)),
            )
            &&& lookup(request.body->0, "tier_hint"@) == Some(
                JsonView::Text(
                    match tier {
                        Tier::Routing => "t1"@,
                        Tier::Local => "mlx"@,
                    },
                ),
            )
        }),
{
    let request = inference_request(engine, prompt, tier);
    let m = request.body->0->Object_0;
    reveal_strlit("agent_id");
    reveal_strlit("max_tokens");
    reveal_strlit("prompt");
    reveal_strlit("tier_hint");
    assert(m[0].0.len() == 8 && m[1].0.len() == 10 && m[2].0.len() == 6 && m[3].0.len() == 9);
    lemma_member_at(m, "agent_id"@, 0);
    lemma_member_at(m, "max_tokens"@, 1);
    lemma_member_at(m, "prompt"@, 2);
    lemma_member_at(m, "tier_hint"@, 3);
}

/// A report posts the model, or `unknown`, and the latency, under the names that the tracker knows.
pub proof fn law_usage_is_reported_in_full(
    engine: EngineView,
    model: Option<Seq<char>>,
    latency_ms: u64,
)
    ensures
        ({
            let request = usage_request(engine, model, latency_ms);
            &&& goes_to(request, HttpMethod::Post, engine, "/api/tracking/tokens"@)
            &&& request.body is Some
            &&& lookup(request.body->0, "agent"@) == Some(JsonView::Text("ceo-router"@))
            &&& lookup(request.body->0, "model"@) == Some(
                JsonView::Text(
                    if model is Some {
                        model->0
                    } else {
                        "unknown"@
                    },
                ),
            )
            &&& lookup(request.body->0, "execution_host"@) == Some(
                JsonView::Text("ceo-routing-"@ + decimal(latency_ms as nat) + "ms"@),
            )
            &&& lookup(request.body->0, "input_tokens"@) == Some(
                JsonView::Number(NumberView::PosInt(256)),
            )
            &&& lookup(request.body->0, "output_tokens"@) == Some(
                JsonView::Number(NumberView::PosInt(64)),
            )
            &&& lookup(request.body->0, "cost_usd"@) == Some(
                JsonView::Number(NumberView::Float("0.0001"@)),
            )
        }),
{
    let request = usage_request(engine, model, latency_ms);
    let m = request.body->0->Object_0;
    reveal_strlit("agent");
    reveal_strlit("cost_usd");
    reveal_strlit("execution_host");
    reveal_strlit("input_tokens");
    reveal_strlit("model");
    reveal_strlit("output_tokens");
    assert(m[0].0.len() == 5 && m[0].0[0] == 'a');
    assert(m[1].0.len() == 8 && m[2].0.len() == 14 && m[3].0.len() == 12);
    assert(m[4].0.len() == 5 && m[4].0[0] == 'm');
    assert(m[5].0.len() == 13);
    lemma_member_at(m, "agent"@, 0);
    lemma_member_at(m, "cost_usd"@, 1);
    lemma_member_at(m, "execution_host"@, 2);
    lemma_member_at(m, "input_tokens"@, 3);
    lemma_member_at(m, "model"@, 4);
    lemma_member_at(m, "output_tokens"@, 5);
}

/// Whatever the response, the report of a routing says which model routed it, and how long that
/// took.
pub proof fn law_report_speaks_of_its_response(
    engine: EngineView,
    pending: PendingView,
    outcome: OutcomeView,
    parsed: Result<RoutingView, Seq<char>>,
    elapsed_ms: u64,
)
    ensures
        next_step(engine, pending, outcome, parsed, elapsed_ms) matches StepView::Send {
            request,
            pending: next,
        } ==> (next.stage matches StageView::Usage { response, .. } ==> {
            &&& response.routing_latency_ms is Some
            &&& request == usage_request(
                engine,
                response.routing_model,
                response.routing_latency_ms->0,
            )
        }),
{
}

/// The registry is asked for its tools, with the token; they are the tools of the document that it
/// answers with, and none without one.
pub proof fn law_registry_is_asked(engine: EngineView)
    ensures
        goes_to(
            registry_request(engine.daemon_url, engine.api_token),
            HttpMethod::Get,
            engine,
            "/api/meta/mcp-tools"@,
        ),
        registry_request(engine.daemon_url, engine.api_token).body is None,
        registered_tools(None).len() == 0,
{
}

// ---------------------------------------------------------------------------------------------
// What the client gets
// ---------------------------------------------------------------------------------------------

/// The answer that is sent back holds every field of the response under its own name, `null` where
/// there is none.
pub proof fn law_answer_holds_the_whole_response(response: ResponseView)
    ensures
        ({
            let answer = response_body(response);
            &&& lookup(answer, "tool_used"@) == Some(
                if response.tool_used is Some {
                    JsonView::Text(response.tool_used->0)
                } else {
                    JsonView::Null
                },
            )
            &&& lookup(answer, "params"@) == Some(
                if response.params is Some {
                    response.params->0
                } else {
                    JsonView::Null
                },
            )
            &&& lookup(answer, "result"@) == Some(
                if response.result is Some {
                    response.result->0
                } else {
                    JsonView::Null
                },
            )
            &&& lookup(answer, "error"@) == Some(
                if response.error is Some {
                    JsonView::Text(response.error->0)
                } else {
                    JsonView::Null
                },
            )
            &&& lookup(answer, "suggestion"@) == Some(
                if response.suggestion is Some {
                    JsonView::Text(response.suggestion->0)
                } else {
                    JsonView::Null
                },
            )
            &&& lookup(answer, "routing_model"@) == Some(
                if response.routing_model is Some {
                    JsonView::Text(response.routing_model->0)
                } else {
                    JsonView::Null
                },
            )
            &&& lookup(answer, "routing_latency_ms"@) == Some(
                if response.routing_latency_ms is Some {
                    JsonView::Number(NumberView::PosInt(response.routing_latency_ms->0))
                } else {
                    JsonView::Null
                },
            )
        }),
{
    let m = response_body(response)->Object_0;
    reveal_strlit("error");
    reveal_strlit("params");
    reveal_strlit("result");
    reveal_strlit("routing_latency_ms");
    reveal_strlit("routing_model");
    reveal_strlit("suggestion");
    reveal_strlit("tool_used");
    assert(m[0].0.len() == 5);
    assert(m[1].0.len() == 6 && m[1].0[0] == 'p');
    assert(m[2].0.len() == 6 && m[2].0[0] == 'r');
    assert(m[3].0.len() == 18 && m[4].0.len() == 13 && m[5].0.len() == 10 && m[6].0.len() == 9);
    lemma_member_at(m, "error"@, 0);
    lemma_member_at(m, "params"@, 1);
    lemma_member_at(m, "result"@, 2);
    lemma_member_at(m, "routing_latency_ms"@, 3);
    lemma_member_at(m, "routing_model"@, 4);
    lemma_member_at(m, "suggestion"@, 5);
    lemma_member_at(m, "tool_used"@, 6);
}

// ---------------------------------------------------------------------------------------------
// Where no model is asked
// ---------------------------------------------------------------------------------------------

/// The first prompt holds the role and the rules of the router, the whole menu, the whole
/// instruction and the whole context, in this order and with nothing else.
pub proof fn law_first_prompt_is_spelled_out(
    engine: EngineView,
    instruction: Seq<char>,
    context: Option<JsonView>,
)
    ensures
        ({
            let prompt = ROUTER_ROLE@ + engine.tool_menu_prompt + ROUTER_RULES@ + "\nInstruction: "@
                + instruction + (if context is Some {
                "\n\nContext: "@ + json_text(context->0)
            } else {
                Seq::empty()
            });
            first_step(engine, instruction, context, false) == (StepView::Send {
                request: inference_request(engine, prompt, Tier::Routing),
                pending: PendingView { instruction, stage: StageView::Inference { prompt } },
            })
        }),
{
}

/// The step that keywords give in place of the models: with an open circuit at first, or after both
/// models could not be asked.
pub open spec fn keywords_in_place(
    engine: EngineView,
    instruction: Seq<char>,
    context: Option<JsonView>,
    prompt: Seq<char>,
    error: Seq<char>,
    outcome: OutcomeView,
    parsed: Result<RoutingView, Seq<char>>,
    elapsed_ms: u64,
    circuit_open: bool,
) -> StepView {
    if circuit_open {
        first_step(engine, instruction, context, true)
    } else {
        next_step(
            engine,
            PendingView { instruction, stage: StageView::Local { prompt, error } },
            outcome,
            parsed,
            elapsed_ms,
        )
    }
}

/// Where keywords stand in for the models, the tool that they choose is called with the parameters
/// that they give; where the call has a fault, or the menu does not have the tool, or they choose
/// none, the response says so and carries the whole menu.
pub proof fn law_keywords_decide_in_place(
    engine: EngineView,
    instruction: Seq<char>,
    context: Option<JsonView>,
    prompt: Seq<char>,
    error: Seq<char>,
    outcome: OutcomeView,
    parsed: Result<RoutingView, Seq<char>>,
    elapsed_ms: u64,
    circuit_open: bool,
)
    requires
        inference_answer(outcome) is Err,
    ensures
        ({
            let step = keywords_in_place(
                engine,
                instruction,
                context,
                prompt,
                error,
                outcome,
                parsed,
                elapsed_ms,
                circuit_open,
            );
            let passed: u64 = if circuit_open {
                0
            } else {
                elapsed_ms
            };
            match keyword_routing(instruction) {
                Some((name, params)) => match (
                    tool_named(engine.tool_menu, name),
                    call_fault(engine.tool_menu, name, params),
                ) {
                    (Some(tool), None) => step == (StepView::Send {
                        request: tool_call(tool, params, engine.daemon_url, engine.api_token),
                        pending: PendingView {
                            instruction,
                            stage: StageView::KeywordDispatch {
                                choice: ChoiceView { tool: name, params, confidence: None },
                            },
                        },
                    }),
                    (Some(_), Some(fault)) => response_after(step) == Some(
                        whole_menu(engine, fault, Some("keyword"@), passed),
                    ),
                    (None, _) => response_after(step) == Some(
                        whole_menu(engine, "Unknown tool: "@ + name, Some("keyword"@), passed),
                    ),
                },
                None => response_after(step) == Some(
                    whole_menu(
                        engine,
                        if circuit_open {
                            "Circuit breaker open"@
                        } else {
                            error
                        },
                        None,
                        passed,
                    ),
                ),
            }
        }),
{
}

/// A response that says what failed and carries the whole menu.
pub open spec fn whole_menu(
    engine: EngineView,
    error: Seq<char>,
    model: Option<Seq<char>>,
    elapsed_ms: u64,
) -> ResponseView {
    ResponseView {
        tool_used: None,
        params: None,
        result: None,
        error: Some(error),
        suggestion: Some(engine.tool_menu_prompt),
        routing_model: model,
        routing_latency_ms: Some(elapsed_ms),
    }
}

/// The circuit breaker hears of the first call of the routing model alone: a success where the
/// daemon answered it with JSON, a failure where not.
pub proof fn law_breaker_hears_of_the_routing_model(
    stage: StageView,
    outcome: OutcomeView,
)
    ensures
        stage is Inference ==> breaker_news(stage, outcome) == Some(outcome is Body),
        stage !is Inference ==> breaker_news(stage, outcome) is None,
{
}

} // verus!
