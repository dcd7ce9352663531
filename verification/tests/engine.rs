//! Routing from the instruction to the response.

use convergio_ceo::ceo_audit::RoutingRecord;
use convergio_ceo::ceo_routes::render_response;
use convergio_ceo::engine::{menu_request, read_dispatch, read_inference, Pending, RouteStep, Stage};
use convergio_ceo::http::{HttpMethod, HttpOutcome, HttpRequest};
use convergio_ceo::json::{single, Json, JsonNumber};
use convergio_ceo::{CeoEngine, CeoResponse, RoutingResult};

fn text(s: &str) -> Json {
    Json::Text(s.to_string())
}

fn object(members: &[(&str, Json)]) -> Json {
    Json::Object(members.iter().map(|(k, v)| (k.to_string(), v.clone())).collect())
}

fn definition(name: &str, description: &str, method: &str, path: &str, params: &[&str]) -> Json {
    object(&[
        ("name", text(name)),
        ("description", text(description)),
        ("method", text(method)),
        ("path", text(path)),
        ("path_params", Json::Array(params.iter().map(|p| text(p)).collect())),
    ])
}

fn registry() -> Json {
    single(
        "tools",
        Json::Array(vec![
            definition("cvg_start_plan", "Start a plan", "POST", "/plan/:plan_id", &["plan_id"]),
            definition("cvg_health", "Health check", "GET", "/health", &[]),
        ]),
    )
}

fn engine() -> CeoEngine {
    CeoEngine::new("http://d", Some("tok"), Some(&registry()))
}

/// A parser that knows the replies of these tests.
fn parse(json: &str) -> Result<RoutingResult, String> {
    let routing = |tool: Option<&str>, params: Option<Json>, error: Option<&str>| RoutingResult {
        tool: tool.map(|t| t.to_string()),
        params,
        error: error.map(|e| e.to_string()),
        confidence: None,
    };
    match json {
        "{sure}" => Ok(RoutingResult {
            confidence: Some(JsonNumber::Float("0.75".into())),
            ..routing(Some("cvg_health"), None, None)
        }),
        "{dots}" => Ok(routing(
            Some("cvg_start_plan"),
            Some(object(&[("plan_id", text(".."))])),
            None,
        )),
        "{start}" => Ok(routing(
            Some("cvg_start_plan"),
            Some(object(&[("plan_id", Json::from_int(7)), ("fast", Json::Bool(true))])),
            None,
        )),
        "{partial}" => Ok(routing(
            Some("cvg_start_plan"),
            Some(object(&[("fast", Json::Bool(true))])),
            None,
        )),
        "{health}" => Ok(routing(Some("cvg_health"), None, None)),
        "{unknown}" => Ok(routing(Some("nope"), None, Some("ignored"))),
        "{none}" => Ok(routing(None, None, None)),
        "{reason}" => Ok(routing(None, Some(Json::Null), Some("too vague"))),
        other => Err(format!("cannot parse {other}")),
    }
}

fn reply(content: &str) -> HttpOutcome {
    HttpOutcome::Body(object(&[("content", text(content)), ("model_used", text("haiku"))]))
}

fn sent(step: RouteStep) -> (HttpRequest, Pending) {
    match step {
        RouteStep::Send { request, pending } => (request, pending),
        RouteStep::Done { response, .. } => panic!("done: {response:?}"),
    }
}

/// The response and the record at the end.
fn done(step: RouteStep) -> (CeoResponse, RoutingRecord) {
    match step {
        RouteStep::Done { response, record } => (response, record),
        RouteStep::Send { request, .. } => panic!("sent: {request:?}"),
    }
}

/// The response and the record after the report of the routing.
fn recorded(engine: &CeoEngine, step: RouteStep) -> (CeoResponse, RoutingRecord) {
    let (request, pending) = sent(step);
    assert_eq!(request.method, HttpMethod::Post);
    assert_eq!(request.url, "http://d/api/tracking/tokens");
    assert!(matches!(pending.stage, Stage::Usage { .. }));
    let instruction = pending.instruction.clone();
    let (response, record) = done(advance(engine, pending, HttpOutcome::Body(Json::Null), 1000));
    assert_eq!(record.instruction, instruction);
    assert_eq!(record.success, i32::from(response.error.is_none()));
    if response.tool_used.is_some() {
        assert_eq!(record.tool_chosen, response.tool_used);
    }
    let body = request.body.unwrap();
    assert_eq!(
        body.get("model").unwrap().as_str(),
        Some(response.routing_model.as_deref().unwrap_or("unknown"))
    );
    (response, record)
}

/// The response after the report of the routing.
fn reported(engine: &CeoEngine, step: RouteStep) -> CeoResponse {
    recorded(engine, step).0
}

/// Asserts which tool a record holds, and the text of its parameters.
fn assert_chosen(record: &RoutingRecord, tool: &str, params: &str) {
    assert_eq!(record.tool_chosen.as_deref(), Some(tool));
    assert_eq!(record.params_json.as_deref(), Some(params));
}

/// The step after both models could not be asked.
fn unavailable(engine: &CeoEngine, instruction: &str, outcome: HttpOutcome) -> RouteStep {
    let (first, pending) = sent(route(engine, instruction));
    let (second, pending) = sent(advance(engine, pending, outcome, 1));
    assert_eq!(second.url, "http://d/api/inference/complete");
    assert_eq!(prompt_of(&second), prompt_of(&first));
    let body = second.body.unwrap();
    assert_eq!(body.get("tier_hint").unwrap().as_str(), Some("mlx"));
    assert!(matches!(pending.stage, Stage::Local { .. }));
    advance(engine, pending, HttpOutcome::SendFailed("no local model".into()), 2)
}

fn route(engine: &CeoEngine, instruction: &str) -> RouteStep {
    engine.route_instruction(instruction, None, false)
}

fn advance(engine: &CeoEngine, pending: Pending, outcome: HttpOutcome, elapsed: u64) -> RouteStep {
    engine.advance(pending, outcome, elapsed, &parse)
}

fn prompt_of(request: &HttpRequest) -> String {
    let body = request.body.as_ref().unwrap();
    body.get("prompt").unwrap().as_str().unwrap().to_string()
}

#[test]
fn registry_is_asked_for() {
    let request = menu_request("http://d", &Some("tok".to_string()));
    assert_eq!(request.method, HttpMethod::Get);
    assert_eq!(request.url, "http://d/api/meta/mcp-tools");
    assert_eq!(request.authorization, Some("Bearer tok".to_string()));
    assert_eq!(request.body, None);
}

#[test]
fn first_step_asks_the_model() {
    let engine = engine();
    let context = single("k", Json::Null);
    let (request, _) = sent(engine.route_instruction("start plan 7", Some(&context), false));
    assert_eq!(request.method, HttpMethod::Post);
    assert_eq!(request.url, "http://d/api/inference/complete");
    assert_eq!(request.authorization, Some("Bearer tok".to_string()));
    let prompt = prompt_of(&request);
    assert!(prompt.contains(
        "Available tools:\n- cvg_start_plan: Start a plan — plan_id\n\
         - cvg_health: Health check\n\nRespond with ONLY valid JSON:\n"
    ));
    assert!(prompt.ends_with("\nInstruction: start plan 7\n\nContext: {\"k\":null}"));
    let body = request.body.unwrap();
    assert_eq!(body.get("agent_id").unwrap().as_str(), Some("ceo-router"));
    assert_eq!(body.get("max_tokens"), Some(&Json::from_nat(256)));
    assert_eq!(body.get("tier_hint").unwrap().as_str(), Some("t1"));
}

#[test]
fn a_routed_instruction_is_dispatched_reported_and_taken_down() {
    let engine = engine();
    let (_, pending) = sent(route(&engine, "go"));
    let (request, pending) = sent(advance(&engine, pending, reply("```{start}```"), 12));
    assert_eq!(request.method, HttpMethod::Post);
    assert_eq!(request.url, "http://d/plan/7");
    assert_eq!(request.body, Some(single("fast", Json::Bool(true))));
    let (request, pending) = sent(advance(&engine, pending, HttpOutcome::Body(text("ok")), 99));
    assert_eq!(request.method, HttpMethod::Post);
    assert_eq!(request.url, "http://d/api/tracking/tokens");
    assert_eq!(
        request.body.unwrap().to_text(),
        "{\"agent\":\"ceo-router\",\"cost_usd\":0.0001,\"execution_host\":\"ceo-routing-12ms\",\
         \"input_tokens\":256,\"model\":\"haiku\",\"output_tokens\":64}"
    );
    let gone = HttpOutcome::SendFailed("gone".into());
    let (response, record) = done(advance(&engine, pending, gone, 100));
    assert_eq!(response.tool_used, Some("cvg_start_plan".to_string()));
    assert_eq!(response.params.unwrap().get("plan_id"), Some(&Json::from_int(7)));
    assert_eq!(response.result, Some(text("ok")));
    assert_eq!(response.error, None);
    assert_eq!(response.suggestion, None);
    assert_eq!(response.routing_model, Some("haiku".to_string()));
    assert_eq!(response.routing_latency_ms, Some(12));
    assert_eq!(record.instruction, "go");
    assert_eq!(record.tool_chosen, Some("cvg_start_plan".to_string()));
    assert_eq!(record.params_json, Some("{\"plan_id\":7,\"fast\":true}".to_string()));
    assert_eq!(record.routing_method, "haiku");
    assert_eq!(record.latency_ms, 12);
    assert_eq!(record.success, 1);
}

#[test]
fn a_failed_dispatch_is_reported() {
    let engine = engine();
    let outcomes = [
        (HttpOutcome::SendFailed("down".into()), "Dispatch failed: down"),
        (HttpOutcome::StatusError("500".into()), "Dispatch failed: dispatch HTTP error: 500"),
        (HttpOutcome::BodyUnreadable("eof".into()), "Dispatch failed: eof"),
    ];
    for (outcome, error) in outcomes {
        let (_, pending) = sent(route(&engine, "go"));
        let (request, pending) = sent(advance(&engine, pending, reply("{health}"), 3));
        assert_eq!(request.method, HttpMethod::Get);
        assert_eq!(request.url, "http://d/health");
        let response = reported(&engine, advance(&engine, pending, outcome, 4));
        assert_eq!(response.tool_used, Some("cvg_health".to_string()));
        assert_eq!(response.params, Some(Json::empty_object()));
        assert_eq!(response.result, None);
        assert_eq!(response.error, Some(error.to_string()));
        assert_eq!(response.routing_latency_ms, Some(3));
    }
}

#[test]
fn an_unknown_tool_is_not_called() {
    let engine = engine();
    let (_, pending) = sent(route(&engine, "go"));
    let response = reported(&engine, advance(&engine, pending, reply("{unknown}"), 8));
    assert_eq!(response.tool_used, Some("nope".to_string()));
    assert_eq!(response.error, Some("Dispatch failed: Unknown tool: nope".to_string()));
    assert_eq!(response.routing_latency_ms, Some(8));
}

#[test]
fn no_tool_gives_a_suggestion() {
    let engine = engine();
    let (_, pending) = sent(route(&engine, "what plan"));
    let response = reported(&engine, advance(&engine, pending, reply("{none}"), 2));
    assert_eq!(response.tool_used, None);
    assert_eq!(response.error, Some("No matching tool".to_string()));
    assert_eq!(response.suggestion, Some("Did you mean: cvg_start_plan?".to_string()));
    assert_eq!(response.routing_model, Some("haiku".to_string()));
    assert_eq!(response.routing_latency_ms, Some(2));

    let (_, pending) = sent(route(&engine, "zzz"));
    let response = reported(&engine, advance(&engine, pending, reply("{reason}"), 2));
    assert_eq!(response.error, Some("too vague".to_string()));
    assert_eq!(response.suggestion, None);
}

#[test]
fn an_unparsable_reply_is_retried_once() {
    let engine = engine();
    let (first, pending) = sent(route(&engine, "plan it"));
    let (second, pending) = sent(advance(&engine, pending, reply("sorry, no"), 1));
    assert_eq!(second.url, "http://d/api/inference/complete");
    assert_eq!(
        prompt_of(&second),
        format!(
            "{}\n\nPrevious response was invalid JSON: sorry, no\n\n\
             Respond ONLY with valid JSON.",
            prompt_of(&first)
        )
    );
    let response = reported(&engine, advance(&engine, pending, reply("no again"), 6));
    assert_eq!(
        response.error,
        Some("JSON parse error: cannot parse no again".to_string())
    );
    assert_eq!(response.tool_used, None);
    assert_eq!(response.result, None);
    assert_eq!(response.suggestion, Some("Did you mean: cvg_start_plan?".to_string()));
    assert_eq!(response.routing_model, Some("haiku".to_string()));
    assert_eq!(response.routing_latency_ms, Some(6));
}

#[test]
fn a_correction_is_suggested_even_where_nothing_comes_close() {
    let engine = engine();
    assert_eq!(engine.suggest_correction("the health"), "Did you mean: cvg_health?");
    assert_eq!(
        engine.suggest_correction("zzz"),
        "Available tools:\n- cvg_start_plan: Start a plan — plan_id\n- cvg_health: Health check\n"
    );
    let (_, pending) = sent(route(&engine, "zzz"));
    let (_, pending) = sent(advance(&engine, pending, reply("?"), 1));
    let response = reported(&engine, advance(&engine, pending, reply("?"), 2));
    assert_eq!(response.suggestion, Some(engine.suggest_correction("zzz")));
}

#[test]
fn a_missing_parameter_is_retried_once() {
    let engine = engine();
    let (first, pending) = sent(route(&engine, "begin plan"));
    let (second, pending) = sent(advance(&engine, pending, reply("{partial}"), 1));
    assert_eq!(second.url, "http://d/api/inference/complete");
    assert_eq!(
        prompt_of(&second),
        format!(
            "{}\n\nPrevious response was invalid: {{partial}}\n\n\
             Missing parameter for cvg_start_plan: plan_id\n\n\
             Respond ONLY with valid JSON.",
            prompt_of(&first)
        )
    );
    assert!(matches!(pending.stage, Stage::Retry { .. }));
    let response = reported(&engine, advance(&engine, pending, reply("{partial}"), 4));
    assert_eq!(
        response.error,
        Some("Missing parameter for cvg_start_plan: plan_id".to_string())
    );
    assert_eq!(response.suggestion, Some("Did you mean: cvg_start_plan?".to_string()));
    assert_eq!(response.tool_used, None);
    assert_eq!(response.params, None);
    assert_eq!(response.result, None);

    let (_, pending) = sent(route(&engine, "begin plan"));
    let (_, pending) = sent(advance(&engine, pending, reply("{partial}"), 1));
    let (request, _) = sent(advance(&engine, pending, reply("{start}"), 4));
    assert_eq!(request.url, "http://d/plan/7");
}

#[test]
fn a_retry_can_succeed_or_fail_to_be_asked() {
    let engine = engine();
    let (_, pending) = sent(route(&engine, "go"));
    let (_, pending) = sent(advance(&engine, pending, reply("?"), 1));
    let other = HttpOutcome::Body(object(&[
        ("content", text("{start}")),
        ("model_used", text("other")),
    ]));
    let (request, pending) = sent(advance(&engine, pending, other, 5));
    assert_eq!(request.url, "http://d/plan/7");
    let response = reported(&engine, advance(&engine, pending, HttpOutcome::Body(Json::Null), 7));
    // The first call of the model names it.
    assert_eq!(response.routing_model, Some("haiku".to_string()));
    assert_eq!(response.result, Some(Json::Null));

    let (_, pending) = sent(route(&engine, "health"));
    let (_, pending) = sent(advance(&engine, pending, reply("?"), 1));
    let limited = HttpOutcome::StatusError("429".into());
    let response = reported(&engine, advance(&engine, pending, limited, 5));
    assert_eq!(response.error, Some("inference HTTP error: 429".to_string()));
    assert_eq!(response.suggestion, Some("Did you mean: cvg_health?".to_string()));
    assert_eq!(response.routing_model, Some("haiku".to_string()));
}

#[test]
fn the_local_model_stands_in_first() {
    let engine = engine();
    let local = |content: &str| {
        HttpOutcome::Body(object(&[("content", text(content)), ("model_used", text("mlx"))]))
    };
    let off = || HttpOutcome::SendFailed("off".into());
    let (_, pending) = sent(route(&engine, "go"));
    let (_, pending) = sent(advance(&engine, pending, off(), 1));
    let (request, pending) = sent(advance(&engine, pending, local("{start}"), 5));
    assert_eq!(request.url, "http://d/plan/7");
    let response = reported(&engine, advance(&engine, pending, HttpOutcome::Body(Json::Null), 7));
    assert_eq!(response.routing_model, Some("mlx".to_string()));

    // Its reply is retried once too, with the local model.
    let (_, pending) = sent(route(&engine, "go"));
    let (_, pending) = sent(advance(&engine, pending, off(), 1));
    let (request, pending) = sent(advance(&engine, pending, local("?"), 5));
    assert_eq!(request.body.unwrap().get("tier_hint").unwrap().as_str(), Some("mlx"));
    let (request, _) = sent(advance(&engine, pending, local("{health}"), 6));
    assert_eq!(request.url, "http://d/health");
}

#[test]
fn keywords_stand_in_for_the_models() {
    let engine = engine();
    let off = HttpOutcome::SendFailed("off".into());
    let (request, pending) = sent(unavailable(&engine, " Start plan 31 ", off));
    assert_eq!(request.url, "http://d/plan/31");
    assert_eq!(request.body, Some(Json::empty_object()));
    let response = reported(&engine, advance(&engine, pending, HttpOutcome::Body(text("started")), 9));
    assert_eq!(response.tool_used, Some("cvg_start_plan".to_string()));
    assert_eq!(response.params, Some(single("plan_id", Json::from_int(31))));
    assert_eq!(response.result, Some(text("started")));
    assert_eq!(response.routing_model, Some("keyword".to_string()));
    assert_eq!(response.routing_latency_ms, Some(9));

    let off = HttpOutcome::SendFailed("off".into());
    let (_, pending) = sent(unavailable(&engine, "health", off));
    let response = reported(&engine, advance(&engine, pending, HttpOutcome::StatusError("503".into()), 4));
    assert_eq!(response.tool_used, None);
    assert_eq!(response.error, Some("dispatch HTTP error: 503".to_string()));
    assert_eq!(response.suggestion, None);
    assert_eq!(response.routing_model, Some("keyword".to_string()));
    assert_eq!(response.routing_latency_ms, Some(4));
}

#[test]
fn the_full_tool_list_comes_last() {
    let engine = engine();
    let menu = "Available tools:\n- cvg_start_plan: Start a plan — plan_id\n\
                - cvg_health: Health check\n";
    let failed = HttpOutcome::StatusError("500".into());
    let response = reported(&engine, unavailable(&engine, "do something", failed));
    assert_eq!(response.error, Some("inference HTTP error: 500".to_string()));
    assert_eq!(response.suggestion, Some(menu.to_string()));
    assert_eq!(response.result, None);
    assert_eq!(response.routing_model, None);
    assert_eq!(response.routing_latency_ms, Some(2));

    let failed = HttpOutcome::BodyUnreadable("eof".into());
    let response = reported(&engine, unavailable(&engine, "who", failed));
    assert_eq!(response.error, Some("Unknown tool: cvg_who".to_string()));
    assert_eq!(response.suggestion, Some(menu.to_string()));
    assert_eq!(response.routing_model, Some("keyword".to_string()));
}

#[test]
fn keywords_are_validated_too() {
    let defs = Json::Array(vec![definition(
        "cvg_start_plan",
        "Start a plan",
        "POST",
        "/org/:org_id/plan/:plan_id",
        &["plan_id", "org_id"],
    )]);
    let engine = CeoEngine::new("http://d", None, Some(&single("tools", defs)));
    let off = HttpOutcome::SendFailed("off".into());
    let response = reported(&engine, unavailable(&engine, "start plan 3", off));
    assert_eq!(
        response.error,
        Some("Missing parameter for cvg_start_plan: org_id".to_string())
    );
    assert_eq!(response.tool_used, None);
}

#[test]
fn the_choice_is_taken_down_where_the_call_fails() {
    let engine = engine();
    let off = || HttpOutcome::SendFailed("off".into());
    // Keywords chose the tool, and its endpoint answers with an error.
    let (_, pending) = sent(engine.route_instruction("start plan 31", None, true));
    let failed = HttpOutcome::StatusError("500".into());
    let (response, record) = recorded(&engine, advance(&engine, pending, failed, 3));
    assert_eq!(response.tool_used, None);
    assert_chosen(&record, "cvg_start_plan", "{\"plan_id\":31}");
    assert_eq!(record.routing_method, "keyword");
    assert_eq!(record.success, 0);

    // Keywords chose a tool that the menu does not have.
    let (response, record) = recorded(&engine, unavailable(&engine, "who", off()));
    assert_eq!(response.tool_used, None);
    assert_chosen(&record, "cvg_who", "{}");

    // The model chose a tool and left out a parameter twice.
    let (_, pending) = sent(route(&engine, "begin plan"));
    let (_, pending) = sent(advance(&engine, pending, reply("{partial}"), 1));
    let (response, record) = recorded(&engine, advance(&engine, pending, reply("{partial}"), 2));
    assert_eq!(response.tool_used, None);
    assert_chosen(&record, "cvg_start_plan", "{\"fast\":true}");

    // The second reply cannot be parsed, or cannot be had: the first one stands.
    for outcome in [reply("?"), off()] {
        let (_, pending) = sent(route(&engine, "begin plan"));
        let (_, pending) = sent(advance(&engine, pending, reply("{partial}"), 1));
        let (_, record) = recorded(&engine, advance(&engine, pending, outcome, 2));
        assert_chosen(&record, "cvg_start_plan", "{\"fast\":true}");
    }

    // The second reply chooses no tool, or another one: it stands.
    let (_, pending) = sent(route(&engine, "begin plan"));
    let (_, pending) = sent(advance(&engine, pending, reply("{partial}"), 1));
    let (_, record) = recorded(&engine, advance(&engine, pending, reply("{none}"), 2));
    assert_eq!(record.tool_chosen, None);
    assert_eq!(record.params_json, None);
    let (_, pending) = sent(route(&engine, "begin plan"));
    let (_, pending) = sent(advance(&engine, pending, reply("{partial}"), 1));
    let (_, record) = recorded(&engine, advance(&engine, pending, reply("{unknown}"), 2));
    assert_chosen(&record, "nope", "{}");

    // Nothing was chosen.
    let (_, record) = recorded(&engine, unavailable(&engine, "do something", off()));
    assert_eq!(record.tool_chosen, None);
    assert_eq!(record.params_json, None);
    assert_eq!(record.routing_method, "none");
}

#[test]
fn the_confidence_of_the_model_is_taken_down() {
    let engine = engine();
    let (_, pending) = sent(route(&engine, "go"));
    let (_, pending) = sent(advance(&engine, pending, reply("{sure}"), 1));
    let (_, record) = recorded(&engine, advance(&engine, pending, HttpOutcome::Body(Json::Null), 2));
    assert_chosen(&record, "cvg_health", "{}");
    assert_eq!(record.confidence, Some(JsonNumber::Float("0.75".into())));
}

#[test]
fn a_dot_segment_is_not_called() {
    let engine = engine();
    let (_, pending) = sent(route(&engine, "begin plan"));
    let (second, pending) = sent(advance(&engine, pending, reply("{dots}"), 1));
    assert_eq!(second.url, "http://d/api/inference/complete");
    assert!(prompt_of(&second).contains("Invalid parameter for cvg_start_plan: plan_id"));
    let (response, record) = recorded(&engine, advance(&engine, pending, reply("{dots}"), 2));
    assert_eq!(
        response.error,
        Some("Invalid parameter for cvg_start_plan: plan_id".to_string())
    );
    assert_chosen(&record, "cvg_start_plan", "{\"plan_id\":\"..\"}");
}

#[test]
fn an_open_circuit_asks_no_model() {
    let engine = engine();
    let (request, pending) = sent(engine.route_instruction("health", None, true));
    assert_eq!(request.url, "http://d/health");
    assert!(matches!(pending.stage, Stage::KeywordDispatch { .. }));
    let response = reported(&engine, engine.route_instruction("do something", None, true));
    assert_eq!(response.error, Some("Circuit breaker open".to_string()));
    assert!(response.suggestion.unwrap().starts_with("Available tools:\n- cvg_start_plan"));
    assert_eq!(response.routing_latency_ms, Some(0));
}

#[test]
fn the_circuit_breaker_hears_of_the_routing_model_alone() {
    let engine = engine();
    let off = || HttpOutcome::SendFailed("off".into());
    let (_, pending) = sent(route(&engine, "health"));
    assert_eq!(pending.news(&reply("?")), Some(true));
    assert_eq!(pending.news(&off()), Some(false));
    assert_eq!(pending.news(&HttpOutcome::StatusError("500".into())), Some(false));
    let (_, pending) = sent(advance(&engine, pending, off(), 1));
    assert_eq!(pending.news(&reply("?")), None);
    assert_eq!(pending.news(&off()), None);
}

#[test]
fn replies_out_of_order_are_retried() {
    let engine = engine();
    let (_, pending) = sent(route(&engine, "go"));
    let (request, pending) = sent(advance(&engine, pending, reply("} {"), 1));
    assert!(prompt_of(&request).contains("Previous response was invalid JSON: } {"));
    let response = reported(&engine, advance(&engine, pending, reply("} {"), 2));
    assert_eq!(
        response.error,
        Some("JSON parse error: braces out of order".to_string())
    );
}

#[test]
fn the_menu_is_replaced_by_a_refresh() {
    let mut engine = engine();
    assert_eq!(engine.tool_count(), 2);
    engine.refresh_tool_menu(None);
    assert_eq!(engine.tool_count(), 0);
    let (request, _) = sent(route(&engine, "go"));
    assert!(prompt_of(&request).contains("Available tools:\n\nRespond"));
    assert!(engine.dispatch("cvg_health", &Json::Null).is_err());
    engine.refresh_tool_menu(Some(&registry()));
    let (request, _) = sent(route(&engine.clone(), "go"));
    assert!(prompt_of(&request).contains("- cvg_health: Health check\n"));
    assert!(engine.dispatch("cvg_health", &Json::Null).is_ok());
    assert!(engine.plan_valid("cvg_start_plan", &Json::Null).is_err());
    assert!(engine.plan_valid("cvg_health", &Json::Null).is_ok());
}

#[test]
fn answers_of_the_daemon_are_read() {
    assert_eq!(
        read_inference(&HttpOutcome::Body(Json::Null)),
        Ok(("".to_string(), "unknown".to_string()))
    );
    assert_eq!(
        read_inference(&HttpOutcome::Body(object(&[
            ("content", Json::from_int(1)),
            ("model_used", text("m")),
        ]))),
        Ok(("".to_string(), "m".to_string()))
    );
    assert_eq!(
        read_inference(&HttpOutcome::BodyUnreadable("eof".into())),
        Err("eof".to_string())
    );
    assert_eq!(read_dispatch(HttpOutcome::Body(Json::Null)), Ok(Json::Null));
    assert_eq!(
        read_dispatch(HttpOutcome::StatusError("404".into())),
        Err("dispatch HTTP error: 404".to_string())
    );
}

#[test]
fn usage_of_an_unknown_model_is_reported() {
    let request = engine().record_usage(&None, 0);
    let body = request.body.unwrap();
    assert_eq!(body.get("model").unwrap().as_str(), Some("unknown"));
    assert_eq!(body.get("execution_host").unwrap().as_str(), Some("ceo-routing-0ms"));
}

#[test]
fn responses_are_rendered() {
    let response = engine().error_response("bad".to_string(), None, 5);
    assert_eq!(
        render_response(&response).to_text(),
        "{\"error\":\"bad\",\"params\":null,\"result\":null,\"routing_latency_ms\":5,\
         \"routing_model\":null,\"suggestion\":null,\"tool_used\":null}"
    );
    let full = CeoResponse {
        tool_used: Some("t".into()),
        params: Some(Json::empty_object()),
        result: Some(Json::Array(vec![])),
        error: None,
        suggestion: Some("s".into()),
        routing_model: Some("m".into()),
        routing_latency_ms: None,
    };
    assert_eq!(
        render_response(&full.clone()).to_text(),
        "{\"error\":null,\"params\":{},\"result\":[],\"routing_latency_ms\":null,\
         \"routing_model\":\"m\",\"suggestion\":\"s\",\"tool_used\":\"t\"}"
    );
}
