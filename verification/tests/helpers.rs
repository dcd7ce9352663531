//! Tool definitions, menu, prompts, replies, suggestions and path parameters.

use convergio_ceo::ceo_helpers::{
    build_routing_prompt, build_tool_menu_prompt, extract_json, find_suggestion,
    parse_routing_response, parse_tool_defs, strip_path_params, suggest, SearchEntry,
};
use convergio_ceo::json::{Json, JsonNumber};
use convergio_ceo::{RoutingResult, ToolMenuEntry};

/// A JSON value of the library, out of one of the parser.
fn to_json(value: &serde_json::Value) -> Json {
    match value {
        serde_json::Value::Null => Json::Null,
        serde_json::Value::Bool(b) => Json::Bool(*b),
        serde_json::Value::Number(n) => Json::Number(match (n.as_u64(), n.as_i64()) {
            (Some(u), _) => JsonNumber::PosInt(u),
            (None, Some(i)) => JsonNumber::NegInt(i),
            (None, None) => JsonNumber::Float(n.to_string()),
        }),
        serde_json::Value::String(s) => Json::Text(s.clone()),
        serde_json::Value::Array(values) => Json::Array(values.iter().map(to_json).collect()),
        serde_json::Value::Object(members) => Json::Object(
            members
                .iter()
                .map(|(key, value)| (key.clone(), to_json(value)))
                .collect(),
        ),
    }
}

fn json(text: &str) -> Json {
    to_json(&serde_json::from_str::<serde_json::Value>(text).unwrap())
}

/// An optional string member.
fn string_member(value: &serde_json::Value, key: &str) -> Result<Option<String>, String> {
    match value.get(key) {
        None | Some(serde_json::Value::Null) => Ok(None),
        Some(serde_json::Value::String(s)) => Ok(Some(s.clone())),
        Some(_) => Err(format!("invalid type for {key}")),
    }
}

/// The JSON parser that the tests hand in.
fn parse_json(text: &str) -> Result<RoutingResult, String> {
    let value: serde_json::Value = serde_json::from_str(text).map_err(|e| e.to_string())?;
    if !value.is_object() {
        return Err("not an object".to_string());
    }
    Ok(RoutingResult {
        tool: string_member(&value, "tool")?,
        params: match value.get("params") {
            None | Some(serde_json::Value::Null) => None,
            Some(params) => Some(to_json(params)),
        },
        error: string_member(&value, "error")?,
        confidence: match value.get("confidence").map(to_json) {
            Some(Json::Number(n)) => Some(n),
            _ => None,
        },
    })
}

fn parse(content: &str) -> Result<RoutingResult, String> {
    parse_routing_response(content, &parse_json)
}

fn tool(name: &str, description: &str, method: &str, path: &str, params: &[&str]) -> ToolMenuEntry {
    ToolMenuEntry {
        name: name.into(),
        description: description.into(),
        method: method.into(),
        path: path.into(),
        params: params.iter().map(|p| p.to_string()).collect(),
    }
}

fn plans_and_health() -> Vec<ToolMenuEntry> {
    vec![
        tool("cvg_list_plans", "List execution plans", "GET", "/api/plan-db/list", &[]),
        tool("cvg_health", "Health check", "GET", "/api/health", &[]),
    ]
}

// Replies of the model

#[test]
fn parse_routing_valid() {
    let input = r#"{"tool": "cvg_health", "params": {}}"#;
    let result = parse(input).unwrap();
    assert_eq!(result.tool.unwrap(), "cvg_health");
}

#[test]
fn parse_routing_null_tool() {
    let input = r#"{"tool": null, "error": "No match"}"#;
    let result = parse(input).unwrap();
    assert!(result.tool.is_none());
    assert_eq!(result.error.unwrap(), "No match");
}

#[test]
fn parse_routing_with_markdown_wrapper() {
    let input = "```json\n{\"tool\": \"cvg_list_plans\", \"params\": {}}\n```";
    let result = parse(input).unwrap();
    assert_eq!(result.tool.unwrap(), "cvg_list_plans");
}

#[test]
fn parse_routing_valid_json() {
    let input = r#"{"tool": "cvg_health", "params": {}}"#;
    let result = parse(input).unwrap();
    assert_eq!(result.tool.unwrap(), "cvg_health");
}

#[test]
fn parse_routing_null_tool_with_error() {
    let input = r#"{"tool": null, "error": "No match"}"#;
    let result = parse(input).unwrap();
    assert!(result.tool.is_none());
    assert_eq!(result.error.unwrap(), "No match");
}

#[test]
fn parse_routing_markdown_wrapped() {
    let input = "```json\n{\"tool\": \"cvg_list_plans\", \"params\": {}}\n```";
    let result = parse(input).unwrap();
    assert_eq!(result.tool.unwrap(), "cvg_list_plans");
}

#[test]
fn parse_routing_invalid_json_returns_error() {
    let result = parse("not json at all");
    assert!(result.is_err());
}

#[test]
fn parse_routing_with_params() {
    let input = r#"{"tool": "cvg_start_plan", "params": {"plan_id": 1402}}"#;
    let result = parse(input).unwrap();
    assert_eq!(result.tool.unwrap(), "cvg_start_plan");
    assert_eq!(
        result.params.unwrap().get("plan_id"),
        Some(&Json::from_int(1402))
    );
}

#[test]
fn parse_errors_are_reported_behind_a_note() {
    let fail = |text: &str| Err(format!("cannot read [{text}]"));
    let result = parse_routing_response("  so {a} it {b} is  ", &fail);
    assert_eq!(
        result.unwrap_err(),
        "JSON parse error: cannot read [{a} it {b}]"
    );
    let result = parse_routing_response(" \t no braces \n", &fail);
    assert_eq!(
        result.unwrap_err(),
        "JSON parse error: cannot read [no braces]"
    );
}

#[test]
fn json_text_is_cut_out_of_a_reply() {
    let extract = |content: &str| extract_json(content).unwrap();
    assert_eq!(extract("```json\n{\"a\": {}}\n```"), "{\"a\": {}}");
    assert_eq!(extract("{}"), "{}");
    assert_eq!(extract(" only { open "), "only { open");
    assert_eq!(extract(" only } closed "), "only } closed");
    assert_eq!(extract("}{"), "");
    assert_eq!(extract(""), "");
    assert_eq!(extract("\u{3000}é{ü}ö\u{a0}"), "{ü}");
}

#[test]
fn braces_out_of_order_are_an_error() {
    for content in ["} {", "}é{", " a } b { c ", "[\"} {\", null, null]"] {
        assert_eq!(extract_json(content), None);
        let any = |_: &str| {
            Ok(RoutingResult { tool: None, params: None, error: None, confidence: None })
        };
        assert_eq!(
            parse_routing_response(content, &any).unwrap_err(),
            "JSON parse error: braces out of order"
        );
    }
    assert!(parse("}{").is_err());
}

// Menu and prompt

#[test]
fn build_menu_includes_all_tools() {
    let tools = vec![
        tool("cvg_health", "Health check", "GET", "/api/health", &[]),
        tool(
            "cvg_start_plan",
            "Start a plan",
            "POST",
            "/api/plan-db/start/:plan_id",
            &["plan_id"],
        ),
    ];
    let menu = build_tool_menu_prompt(&tools);
    assert!(menu.contains("cvg_health"));
    assert!(menu.contains("cvg_start_plan"));
    assert!(menu.contains("plan_id"));
}

#[test]
fn build_menu_includes_params() {
    let tools = vec![tool(
        "cvg_start_plan",
        "Start a plan",
        "POST",
        "/api/plan-db/start/:plan_id",
        &["plan_id"],
    )];
    let menu = build_tool_menu_prompt(&tools);
    assert!(menu.contains("plan_id"));
    assert!(menu.contains("cvg_start_plan"));
}

#[test]
fn menu_is_spelled_out() {
    let tools = vec![
        tool("a", "First", "GET", "/a", &[]),
        tool("b", "Second", "POST", "/b/:x/:y", &["x", "y"]),
    ];
    assert_eq!(
        build_tool_menu_prompt(&tools),
        "Available tools:\n- a: First\n- b: Second — x, y\n"
    );
    assert_eq!(build_tool_menu_prompt(&[]), "Available tools:\n");
    let start = [tool(
        "cvg_start_plan",
        "Start plan execution",
        "POST",
        "/api/plan-db/start/:plan_id",
        &["plan_id"],
    )];
    assert!(build_tool_menu_prompt(&start)
        .contains("cvg_start_plan: Start plan execution — plan_id"));
}

#[test]
fn routing_prompt_is_spelled_out() {
    let role = "You are a tool router for the Convergio platform.\n\
                Given a user instruction, select the most appropriate tool and extract \
                parameters.\n\
                Tools are listed as name: description — required params.\n\n";
    let rules = "\nRespond with ONLY valid JSON:\n\
                 {\"tool\": \"tool_name\", \"params\": {\"key\": \"value\"}}\n\n\
                 If the instruction is ambiguous, pick the most likely tool.\n\
                 If no tool matches, respond: \
                 {\"tool\": null, \"error\": \"No matching tool for: <instruction>\"}\n";
    assert_eq!(
        build_routing_prompt("MENU\n", "do it", None),
        format!("{role}MENU\n{rules}\nInstruction: do it")
    );
    let context = json(r#"{"org": "x", "ids": [1, -2, 0.5, null, true]}"#);
    assert_eq!(
        build_routing_prompt("MENU\n", "do it", Some(&context)),
        format!(
            "{role}MENU\n{rules}\nInstruction: do it\n\nContext: \
             {{\"ids\":[1,-2,0.5,null,true],\"org\":\"x\"}}"
        )
    );
}

// Tool definitions

#[test]
fn tool_definitions_are_read() {
    let body = json(
        r#"{"tools": [
            {"name": "a", "description": "A", "method": "GET", "path": "/a"},
            {"name": "b", "description": "B", "method": 5, "path": "/b/:x",
             "path_params": ["x", 7, "y"]},
            {"name": "no method", "description": "C", "path": "/c"},
            {"name": 1, "description": "D", "method": "GET", "path": "/d"},
            {"name": "no path", "description": "E", "method": "GET"},
            {"name": "no description", "method": "GET", "path": "/f"},
            "not an object",
            {"name": "g", "description": "G", "method": "DELETE", "path": "/g",
             "path_params": "x"}
        ]}"#,
    );
    let tools = parse_tool_defs(&body);
    let names: Vec<&str> = tools.iter().map(|t| t.name.as_str()).collect();
    assert_eq!(names, vec!["a", "b", "g"]);
    assert_eq!(tools[0].description, "A");
    assert_eq!(tools[0].method, "GET");
    assert_eq!(tools[0].path, "/a");
    assert!(tools[0].params.is_empty());
    assert_eq!(tools[1].method, "POST");
    assert_eq!(tools[1].params, vec!["x".to_string(), "y".to_string()]);
    assert_eq!(tools[2].method, "DELETE");
    assert!(tools[2].params.is_empty());
}

#[test]
fn a_registry_without_tools_gives_none() {
    assert!(parse_tool_defs(&json("{}")).is_empty());
    assert!(parse_tool_defs(&json(r#"{"tools": {}}"#)).is_empty());
    assert!(parse_tool_defs(&json("[]")).is_empty());
    assert!(parse_tool_defs(&json(r#"{"tools": []}"#)).is_empty());
}

// Suggestions

#[test]
fn suggestion_finds_partial_match() {
    let suggestion = find_suggestion("show plans", &plans_and_health());
    assert!(suggestion.is_some());
    assert!(suggestion.unwrap().contains("cvg_list_plans"));
}

#[test]
fn suggestion_finds_plan_related() {
    let suggestion = find_suggestion("show me plans", &plans_and_health());
    assert!(suggestion.is_some());
    assert!(suggestion.unwrap().contains("cvg_list_plans"));
}

#[test]
fn suggestion_returns_none_for_no_match() {
    let tools = vec![tool("cvg_health", "Health check", "GET", "/api/health", &[])];
    let suggestion = find_suggestion("zzz_nonexistent_zzz", &tools);
    assert!(suggestion.is_none());
}

#[test]
fn suggestion_is_spelled_out_in_menu_order() {
    let tools = vec![
        tool("t1", "plan one", "GET", "/1", &[]),
        tool("t2", "other", "GET", "/2", &[]),
        tool("PLAN_t3", "x", "GET", "/3", &[]),
        tool("t4", "A PLAN", "GET", "/4", &[]),
        tool("t5", "plan five", "GET", "/5", &[]),
    ];
    assert_eq!(
        find_suggestion("  Plan\u{2003}zzz ", &tools),
        Some("Did you mean: t1, PLAN_t3, t4?".to_string())
    );
    assert_eq!(find_suggestion("", &tools), None);
    assert_eq!(find_suggestion(" \n ", &tools), None);
    assert_eq!(find_suggestion("plan", &[]), None);
}

#[test]
fn suggestion_lowers_all_of_unicode() {
    let tools = vec![tool("Éclair", "SÜSS", "GET", "/1", &[])];
    assert_eq!(
        find_suggestion("éCLAIR", &tools),
        Some("Did you mean: Éclair?".to_string())
    );
    assert_eq!(
        find_suggestion("süss", &tools),
        Some("Did you mean: Éclair?".to_string())
    );
}

#[test]
fn suggestion_from_lower_case_texts() {
    let entries = vec![
        SearchEntry {
            name: "One".into(),
            lower_name: "abc".into(),
            lower_description: "".into(),
        },
        SearchEntry {
            name: "Two".into(),
            lower_name: "".into(),
            lower_description: "xbx".into(),
        },
    ];
    assert_eq!(suggest("b", &entries), Some("Did you mean: One, Two?".to_string()));
    assert_eq!(suggest("abc", &entries), Some("Did you mean: One?".to_string()));
    assert_eq!(suggest("B", &entries), None);
}

// Path parameters

#[test]
fn strip_path_params_works() {
    let args = json(r#"{"plan_id": 42, "status": "active"}"#);
    let result = strip_path_params(&args, &["plan_id".into()]);
    assert!(result.get("plan_id").is_none());
    assert_eq!(result.get("status").unwrap().as_str(), Some("active"));
}

#[test]
fn strip_path_params_removes_correctly() {
    let args = json(r#"{"plan_id": 42, "status": "active"}"#);
    let result = strip_path_params(&args, &["plan_id".into()]);
    assert!(result.get("plan_id").is_none());
    assert_eq!(result.get("status").unwrap().as_str(), Some("active"));
}

#[test]
fn stripping_keeps_the_rest_in_order() {
    let args = json(r#"{"a": 1, "b": [2], "c": {"a": 3}, "d": null}"#);
    let stripped = strip_path_params(&args, &["b".into(), "x".into(), "d".into()]);
    assert_eq!(stripped, json(r#"{"a": 1, "c": {"a": 3}}"#));
    assert_eq!(
        strip_path_params(&stripped, &["b".into(), "x".into(), "d".into()]),
        stripped
    );
    assert_eq!(strip_path_params(&json("[1]"), &[]), json("{}"));
    assert_eq!(strip_path_params(&json("null"), &["a".into()]), json("{}"));
}

#[test]
fn suggestions_do_not_depend_on_word_order() {
    let tools = plans_and_health();
    for (a, b) in [("plans", "health"), ("zzz", "health"), ("List the", "check"), ("", "plans")] {
        let forth = find_suggestion(&format!("{a} {b}"), &tools);
        assert_eq!(forth, find_suggestion(&format!("{b} {a}"), &tools));
        assert!(forth.is_some());
    }
    assert_eq!(find_suggestion("zzz yyy", &tools), None);
}

#[test]
fn more_words_keep_a_suggestion() {
    let tools = plans_and_health();
    assert!(find_suggestion("health", &tools).is_some());
    assert!(find_suggestion("health zzz", &tools).is_some());
    assert!(find_suggestion("zzz health", &tools).is_some());
}

#[test]
fn suggestions_look_at_names_and_descriptions() {
    let tools = plans_and_health();
    let others = vec![
        tool("cvg_list_plans", "List execution plans", "PUT", "/health/:a", &["health"]),
        tool("cvg_health", "Health check", "DELETE", "/plans", &["plans", "b"]),
    ];
    for text in ["health", "plans", "check list", "put", "zzz"] {
        assert_eq!(find_suggestion(text, &tools), find_suggestion(text, &others));
    }
}
