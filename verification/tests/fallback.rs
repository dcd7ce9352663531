//! Keyword routing.

use convergio_ceo::ceo_fallback::{keyword_route, patterns, route_from_matches, Extract};
use convergio_ceo::json::Json;

fn group(text: &str) -> Option<Vec<Option<String>>> {
    Some(vec![Some(format!("whole {text}")), Some(text.to_string())])
}

#[test]
fn routes_health() {
    let (tool, _) = keyword_route("health check").unwrap();
    assert_eq!(tool, "cvg_health");
}

#[test]
fn routes_start_plan() {
    let (tool, params) = keyword_route("start plan 1402").unwrap();
    assert_eq!(tool, "cvg_start_plan");
    assert_eq!(params.get("plan_id"), Some(&Json::from_int(1402)));
}

#[test]
fn routes_list_plans() {
    let (tool, _) = keyword_route("list plans").unwrap();
    assert_eq!(tool, "cvg_list_plans");
}

#[test]
fn routes_spawn() {
    let (tool, params) = keyword_route("spawn baccio").unwrap();
    assert_eq!(tool, "cvg_spawn_agent");
    assert_eq!(params.get("agent_name").unwrap().as_str(), Some("baccio"));
}

#[test]
fn routes_search() {
    let (tool, params) = keyword_route("search auth middleware").unwrap();
    assert_eq!(tool, "cvg_knowledge_search");
    assert_eq!(params.get("query").unwrap().as_str(), Some("auth middleware"));
}

#[test]
fn no_match_returns_none() {
    assert!(keyword_route("do something random and weird").is_none());
}

#[test]
fn case_insensitive() {
    let (tool, _) = keyword_route("HEALTH").unwrap();
    assert_eq!(tool, "cvg_health");
}

#[test]
fn keyword_routes_health() {
    let (tool, _) = keyword_route("health check").unwrap();
    assert_eq!(tool, "cvg_health");
}

#[test]
fn keyword_routes_list_plans() {
    let (tool, _) = keyword_route("list plans").unwrap();
    assert_eq!(tool, "cvg_list_plans");
}

#[test]
fn keyword_routes_start_plan_with_id() {
    let (tool, params) = keyword_route("start plan 1402").unwrap();
    assert_eq!(tool, "cvg_start_plan");
    assert_eq!(params.get("plan_id"), Some(&Json::from_int(1402)));
}

#[test]
fn keyword_ambiguous_instruction_returns_none() {
    assert!(keyword_route("do something random").is_none());
}

#[test]
fn keyword_routes_spawn_with_name() {
    let (tool, params) = keyword_route("spawn baccio").unwrap();
    assert_eq!(tool, "cvg_spawn_agent");
    assert_eq!(params.get("agent_name").unwrap().as_str(), Some("baccio"));
}

#[test]
fn keyword_routes_search_with_query() {
    let (tool, params) = keyword_route("search auth middleware").unwrap();
    assert_eq!(tool, "cvg_knowledge_search");
    assert_eq!(params.get("query").unwrap().as_str(), Some("auth middleware"));
}

#[test]
fn keyword_case_insensitive() {
    let (tool, _) = keyword_route("HEALTH").unwrap();
    assert_eq!(tool, "cvg_health");
    let (tool, _) = keyword_route("List Plans").unwrap();
    assert_eq!(tool, "cvg_list_plans");
}

#[test]
fn every_row_of_the_table_is_reached() {
    let cases = [
        ("health", "cvg_health", "{}"),
        ("Doctor now", "cvg_doctor_run", "{}"),
        ("list plan", "cvg_list_plans", "{}"),
        ("start  plan 7", "cvg_start_plan", "{\"plan_id\":7}"),
        ("cancel plan 8", "cvg_cancel_plan", "{\"plan_id\":8}"),
        ("resume plan 009", "cvg_resume_plan", "{\"plan_id\":9}"),
        ("get plan 10", "cvg_get_plan", "{\"plan_id\":10}"),
        ("validate plan 11!", "cvg_validate_plan", "{\"plan_id\":11}"),
        ("spawn Baccio now", "cvg_spawn_agent", "{\"agent_name\":\"Baccio\"}"),
        ("list agents", "cvg_list_agent_catalog", "{}"),
        ("list org", "cvg_list_orgs", "{}"),
        ("search \"x\" y", "cvg_knowledge_search", "{\"query\":\"\\\"x\\\" y\"}"),
        ("who am I", "cvg_who", "{}"),
        ("status", "cvg_health", "{}"),
        ("cost?", "cvg_cost_summary", "{}"),
    ];
    assert_eq!(patterns().len(), cases.len());
    for (instruction, tool, params) in cases {
        let route = keyword_route(instruction).unwrap();
        assert_eq!(route.0, tool);
        assert_eq!(route.1.to_text(), params);
    }
}

#[test]
fn keyword_stands_at_the_start_and_ends_at_a_boundary() {
    assert!(keyword_route("healthy").is_none());
    assert!(keyword_route("my health").is_none());
    assert!(keyword_route("start plan x").is_none());
    assert!(keyword_route("").is_none());
}

#[test]
fn white_space_around_an_instruction_does_not_matter() {
    let (tool, params) = keyword_route(" \n\u{3000}start plan 5\t ").unwrap();
    assert_eq!(tool, "cvg_start_plan");
    assert_eq!(params.to_text(), "{\"plan_id\":5}");
    let (_, params) = keyword_route("search  a b  ").unwrap();
    assert_eq!(params.to_text(), "{\"query\":\"a b\"}");
}

#[test]
fn a_plan_number_out_of_range_counts_as_zero() {
    let (_, params) = keyword_route("start plan 9223372036854775807").unwrap();
    assert_eq!(params.get("plan_id"), Some(&Json::from_int(i64::MAX)));
    let (_, params) = keyword_route("start plan 9223372036854775808").unwrap();
    assert_eq!(params.get("plan_id"), Some(&Json::from_int(0)));
}

#[test]
fn first_row_with_a_match_wins() {
    let mut found: Vec<Option<Vec<Option<String>>>> = Vec::new();
    for _ in 0..15 {
        found.push(None);
    }
    assert!(route_from_matches(&found).is_none());
    found[14] = Some(vec![Some("cost".to_string())]);
    assert_eq!(route_from_matches(&found).unwrap().0, "cvg_cost_summary");
    found[11] = group("q");
    found[3] = group("-12");
    let (tool, params) = route_from_matches(&found).unwrap();
    assert_eq!(tool, "cvg_start_plan");
    assert_eq!(params, Json::Object(vec![("plan_id".to_string(), Json::from_int(-12))]));
}

#[test]
fn params_come_from_the_first_group() {
    let groups = vec![Some("w".to_string()), Some("g".to_string()), Some("h".to_string())];
    let bare = vec![Some("w".to_string())];
    let absent = vec![Some("w".to_string()), None];
    assert_eq!(Extract::Nothing.params(&groups).to_text(), "{}");
    assert_eq!(Extract::AgentName.params(&groups).to_text(), "{\"agent_name\":\"g\"}");
    assert_eq!(Extract::AgentName.params(&bare).to_text(), "{\"agent_name\":\"\"}");
    assert_eq!(Extract::Query.params(&groups).to_text(), "{\"query\":\"g\"}");
    assert_eq!(Extract::Query.params(&absent).to_text(), "{\"query\":\"\"}");
    assert_eq!(Extract::PlanId.params(&groups).to_text(), "{\"plan_id\":0}");
    assert_eq!(Extract::PlanId.params(&absent).to_text(), "{\"plan_id\":0}");
}
