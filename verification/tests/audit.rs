//! The audit log.

use convergio_ceo::ceo_audit::{
    ceo_audit_migrations, log_limit, record_routing, routing_record, show_log, LogOutcome, LogRow,
};
use convergio_ceo::json::{single, Json, JsonNumber};
use convergio_ceo::types::Choice;
use convergio_ceo::CeoResponse;

fn row(id: i64, success: i32) -> LogRow {
    LogRow {
        id,
        timestamp: "2026-01-01 00:00:00".into(),
        instruction: "do \"it\"".into(),
        tool_chosen: None,
        params_json: Some("{}".into()),
        routing_method: "keyword".into(),
        latency_ms: -1,
        success,
    }
}

#[test]
fn the_schema_is_one_table() {
    let steps = ceo_audit_migrations();
    assert_eq!(steps.len(), 1);
    assert_eq!(steps[0].version, 43);
    assert_eq!(steps[0].description, "CEO routing audit log");
    assert!(steps[0].up.starts_with("CREATE TABLE IF NOT EXISTS ceo_routing_log ("));
    for column in [
        "id INTEGER PRIMARY KEY AUTOINCREMENT",
        "timestamp TEXT NOT NULL DEFAULT (datetime('now'))",
        "instruction TEXT NOT NULL",
        "tool_chosen TEXT,",
        "params_json TEXT,",
        "routing_method TEXT NOT NULL",
        "latency_ms INTEGER NOT NULL",
        "success INTEGER NOT NULL DEFAULT 1",
        "confidence REAL",
    ] {
        assert!(steps[0].up.contains(column));
    }
}

#[test]
fn a_decision_is_taken_down() {
    let params = single("plan_id", Json::from_int(3));
    let record = record_routing("go", Some("t"), Some(&params), "llm", 12, true);
    assert_eq!(record.instruction, "go");
    assert_eq!(record.tool_chosen, Some("t".to_string()));
    assert_eq!(record.params_json, Some("{\"plan_id\":3}".to_string()));
    assert_eq!(record.routing_method, "llm");
    assert_eq!(record.latency_ms, 12);
    assert_eq!(record.success, 1);
    assert_eq!(record.confidence, None);
    let record = record_routing("go", None, None, "llm", u64::MAX, false);
    assert_eq!(record.tool_chosen, None);
    assert_eq!(record.params_json, None);
    assert_eq!(record.success, 0);
}

#[test]
fn a_routing_is_taken_down() {
    let used = CeoResponse {
        tool_used: Some("t".into()),
        params: Some(single("a", Json::Bool(true))),
        result: Some(Json::Null),
        error: None,
        suggestion: None,
        routing_model: Some("haiku".into()),
        routing_latency_ms: Some(31),
    };
    let chosen = Choice {
        tool: "t".into(),
        params: single("a", Json::Bool(true)),
        confidence: Some(JsonNumber::Float("0.9".into())),
    };
    let record = routing_record("go", &Some(chosen), &used);
    assert_eq!(record.instruction, "go");
    assert_eq!(record.tool_chosen, Some("t".to_string()));
    assert_eq!(record.params_json, Some("{\"a\":true}".to_string()));
    assert_eq!(record.routing_method, "haiku");
    assert_eq!(record.latency_ms, 31);
    assert_eq!(record.success, 1);
    assert_eq!(record.confidence, Some(JsonNumber::Float("0.9".into())));
    let failed = CeoResponse {
        tool_used: None,
        params: None,
        result: None,
        error: Some("no".into()),
        suggestion: None,
        routing_model: None,
        routing_latency_ms: None,
    };
    let chosen = Choice { tool: "u".into(), params: Json::Null, confidence: None };
    let record = routing_record("stop", &Some(chosen), &failed);
    assert_eq!(record.tool_chosen, Some("u".to_string()));
    assert_eq!(record.params_json, Some("null".to_string()));
    assert_eq!(record.success, 0);
    assert_eq!(record.confidence, None);
    let record = routing_record("stop", &None, &failed);
    assert_eq!(record.tool_chosen, None);
    assert_eq!(record.params_json, None);
    assert_eq!(record.routing_method, "none");
    assert_eq!(record.latency_ms, 0);
    assert_eq!(record.success, 0);
}

#[test]
fn what_was_taken_down_is_shown_newest_first() {
    let rows = [("second", false), ("first", true)].iter().enumerate().map(|(j, (name, ok))| {
        let params = single("n", Json::from_nat(7));
        let record = record_routing(name, Some("t"), Some(&params), "llm", 5, *ok);
        Some(LogRow {
            id: 2 - j as i64,
            timestamp: "now".into(),
            instruction: record.instruction,
            tool_chosen: record.tool_chosen,
            params_json: record.params_json,
            routing_method: record.routing_method,
            latency_ms: record.latency_ms,
            success: record.success,
        })
    });
    let answer = show_log(LogOutcome::Rows(rows.collect()));
    assert_eq!(answer.get("count"), Some(&Json::from_nat(2)));
    let entries = match answer.get("entries") {
        Some(Json::Array(entries)) => entries,
        other => panic!("{other:?}"),
    };
    for (entry, (name, ok)) in entries.iter().zip([("second", false), ("first", true)]) {
        assert_eq!(entry.get("instruction").unwrap().as_str(), Some(name));
        assert_eq!(entry.get("tool_chosen").unwrap().as_str(), Some("t"));
        assert_eq!(entry.get("params_json").unwrap().as_str(), Some("{\"n\":7}"));
        assert_eq!(entry.get("routing_method").unwrap().as_str(), Some("llm"));
        assert_eq!(entry.get("latency_ms"), Some(&Json::from_int(5)));
        assert_eq!(entry.get("success"), Some(&Json::Bool(ok)));
    }
}

#[test]
fn latencies_wrap_like_a_cast() {
    for n in [0u64, 1, i64::MAX as u64, i64::MAX as u64 + 1, u64::MAX - 1, u64::MAX] {
        assert_eq!(record_routing("", None, None, "", n, true).latency_ms, n as i64);
    }
}

#[test]
fn the_number_of_entries_is_limited() {
    assert_eq!(log_limit(None), 50);
    assert_eq!(log_limit(Some(10)), 10);
    assert_eq!(log_limit(Some(200)), 200);
    assert_eq!(log_limit(Some(201)), 200);
    assert_eq!(log_limit(Some(-1)), -1);
}

#[test]
fn entries_are_shown() {
    let answer = show_log(LogOutcome::Rows(vec![Some(row(2, 1)), None, Some(row(1, 0))]));
    let entry = |id: i64, success: bool| {
        format!(
            "{{\"id\":{id},\"instruction\":\"do \\\"it\\\"\",\"latency_ms\":-1,\
             \"params_json\":\"{{}}\",\"routing_method\":\"keyword\",\"success\":{success},\
             \"timestamp\":\"2026-01-01 00:00:00\",\"tool_chosen\":null}}"
        )
    };
    assert_eq!(
        answer.to_text(),
        format!("{{\"count\":2,\"entries\":[{},{}]}}", entry(2, true), entry(1, false))
    );
}

#[test]
fn failures_are_shown() {
    assert_eq!(
        show_log(LogOutcome::Unavailable("locked".into())).to_text(),
        "{\"error\":\"locked\"}"
    );
    assert_eq!(
        show_log(LogOutcome::QueryFailed).to_text(),
        "{\"count\":0,\"entries\":[]}"
    );
}
