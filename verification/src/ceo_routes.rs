//! CEO routes: the answer of `POST /api/ceo`.

use vstd::prelude::*;

use crate::ceo_audit::{text_or_null, write_text_or_null};
use crate::json::{members_view, nat_number, optional_json, put, Json, JsonView};
use crate::types::{CeoResponse, ResponseView};

verus! {

/// A value, or `null`.
pub open spec fn value_or_null(value: Option<JsonView>) -> JsonView {
    match value {
        Some(v) => v,
        None => JsonView::Null,
    }
}

/// A response as it is sent.
pub open spec fn response_body(response: ResponseView) -> JsonView {
    JsonView::Object(
        seq![
            ("error"@, text_or_null(response.error)),
            ("params"@, value_or_null(response.params)),
            ("result"@, value_or_null(response.result)),
            (
                "routing_latency_ms"@,
                match response.routing_latency_ms {
                    Some(n) => nat_number(n),
                    None => JsonView::Null,
                },
            ),
            ("routing_model"@, text_or_null(response.routing_model)),
            ("suggestion"@, text_or_null(response.suggestion)),
            ("tool_used"@, text_or_null(response.tool_used)),
        ],
    )
}

/// A value, or `null`.
fn write_value_or_null(value: &Option<Json>) -> (r: Json)
    ensures
        r@ == value_or_null(optional_json(*value)),
{
    match value {
        Some(v) => v.clone(),
        None => Json::Null,
    }
}

/// A response as it is sent.
pub fn render_response(response: &CeoResponse) -> (r: Json)
    ensures
        r@ == response_body(response@),
{
    let latency = match response.routing_latency_ms {
        Some(n) => Json::from_nat(n),
        None => Json::Null,
    };
    let mut members: Vec<(String, Json)> = Vec::new();
    put(&mut members, "error", write_text_or_null(&response.error));
    put(&mut members, "params", write_value_or_null(&response.params));
    put(&mut members, "result", write_value_or_null(&response.result));
    put(&mut members, "routing_latency_ms", latency);
    put(&mut members, "routing_model", write_text_or_null(&response.routing_model));
    put(&mut members, "suggestion", write_text_or_null(&response.suggestion));
    put(&mut members, "tool_used", write_text_or_null(&response.tool_used));
    assert(members_view(members@) =~= response_body(response@)->Object_0);
    Json::Object(members)
}

} // verus!
