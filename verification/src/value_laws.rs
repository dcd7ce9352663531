//! What holds of texts, numbers and the values that routing passes around.

use vstd::prelude::*;
use vstd::utf8::encode_utf8;

use crate::ceo_audit::{
    decision_record, log_answer, log_entries, log_entry, record_of, row_views, shown_at_most,
    CircuitBreaker, LogOutcome, LogRow, LogRowView, RoutingRecord,
};
use crate::ceo_dispatch::{percent_all, planned_view, url_encoded};
use crate::ceo_fallback::{
    extracted, groups_view, match_views, pattern_views, route_view, Extract, KeywordPattern,
};
use crate::ceo_helpers::{
    menu_prompt, parsed_view, reply_parses_to, reply_result, routing_json, search_views,
    strings_among, tool_defs, SearchEntry,
};
use crate::engine::{
    dispatch_view, error_answer, inference_view, reads_as, registered_tools, CeoEngine, Pending,
    RouteStep, Stage, StageView, StepView,
};
use crate::http::{HttpOutcome, HttpRequest, OutcomeView, RequestView};
use crate::json::{
    escape, escaped, int_number, json_text, lookup, member, nat_number, optional_json, optional_ref,
    string_of, Json, JsonNumber, JsonView, NumberView,
};
use crate::menu_laws::{is_word, lemma_words_of_word};
use crate::text::{
    all_digits, decimal, digits_value, drop_white, int_value,
    law_trim_ignores_surrounding_white_space, lemma_decimal, lemma_occurs_between, occurs,
    optional_str, optional_text, signed_decimal, skip_white, stands_at, texts, trimmed,
    unsigned_part, white, words,
};
use crate::types::{
    menu_view, CeoResponse, Choice, ChoiceView, ResponseView, RoutingResult, RoutingView,
    ToolMenuEntry,
};

verus! {

// ---------------------------------------------------------------------------------------------
// Texts and numbers
// ---------------------------------------------------------------------------------------------

/// White space is what Unicode calls so.
pub proof fn law_white_space_is_that_of_unicode(c: char)
    ensures
        white(c) <==> (c == '\t' || c == '\n' || c == '\u{b}' || c == '\u{c}' || c == '\r' || c
            == ' ' || c == '\u{85}' || c == '\u{a0}' || c == '\u{1680}' || c == '\u{2000}' || c
            == '\u{2001}' || c == '\u{2002}' || c == '\u{2003}' || c == '\u{2004}' || c
            == '\u{2005}' || c == '\u{2006}' || c == '\u{2007}' || c == '\u{2008}' || c
            == '\u{2009}' || c == '\u{200a}' || c == '\u{2028}' || c == '\u{2029}' || c
            == '\u{202f}' || c == '\u{205f}' || c == '\u{3000}'),
{
}

/// Trimming takes the white space at either end, and nothing else.
pub proof fn law_trimming_takes_white_space_only(
    before: Seq<char>,
    s: Seq<char>,
    after: Seq<char>,
)
    requires
        s.len() > 0,
        !white(s[0]),
        !white(s.last()),
        forall|i: int| 0 <= i < before.len() ==> white(#[trigger] before[i]),
        forall|i: int| 0 <= i < after.len() ==> white(#[trigger] after[i]),
    ensures
        trimmed(before + s + after) == s,
        trimmed(before + after).len() == 0,
{
    law_trim_ignores_surrounding_white_space(before, s, after);
    assert(skip_white(s) == s);
    assert(drop_white(s) == s);
    law_trim_ignores_surrounding_white_space(before, Seq::empty(), after);
    assert(before + Seq::<char>::empty() + after =~= before + after);
    assert(skip_white(Seq::<char>::empty()).len() == 0);
}

/// A text stands in another exactly where the other is that text with something around it.
pub proof fn law_occurring_is_being_part(hay: Seq<char>, needle: Seq<char>)
    ensures
        occurs(hay, needle) <==> exists|before: Seq<char>, after: Seq<char>|
            hay == #[trigger] around(before, needle, after),
{
    if occurs(hay, needle) {
        let at = choose|at: int| stands_at(hay, needle, at);
        let before = hay.take(at);
        let after = hay.skip(at + needle.len());
        assert(hay =~= around(before, needle, after));
    }
    if exists|before: Seq<char>, after: Seq<char>| hay == #[trigger] around(before, needle, after) {
        let (before, after) = choose|before: Seq<char>, after: Seq<char>|
            hay == #[trigger] around(before, needle, after);
        lemma_occurs_between(before, needle, after);
    }
}

/// A text with something around it.
pub open spec fn around(before: Seq<char>, s: Seq<char>, after: Seq<char>) -> Seq<char> {
    before + s + after
}

/// The decimal text of a number is one digit for each power of ten, the last one for the units; it
/// begins with a zero for the number zero alone.
pub proof fn law_decimal_digits(n: nat)
    ensures
        decimal(n).len() > 0,
        decimal(n).last() as u32 == 48 + n % 10,
        n >= 10 ==> decimal(n).drop_last() == decimal(n / 10),
        n < 10 ==> decimal(n).len() == 1,
        n > 0 ==> decimal(n)[0] != '0',
    decreases n,
{
    if n >= 10 {
        law_decimal_digits(n / 10);
        assert(decimal(n).drop_last() =~= decimal(n / 10));
        assert(decimal(n)[0] == decimal(n / 10)[0]);
    }
}

/// The value of digits does not depend on leading zeros.
proof fn lemma_leading_zero(s: Seq<char>)
    ensures
        digits_value(seq!['0'] + s) == digits_value(s),
    decreases s.len(),
{
    let longer = seq!['0'] + s;
    if s.len() == 0 {
        assert(longer.drop_last() =~= Seq::<char>::empty());
        assert(digits_value(Seq::<char>::empty()) == 0);
    } else {
        assert(longer.drop_last() =~= seq!['0'] + s.drop_last());
        assert(longer.last() == s.last());
        lemma_leading_zero(s.drop_last());
    }
}

/// A number is read with or without a sign and with any leading zeros; what holds anything but
/// digits behind the sign, or no digit, or does not fit, is no number.
pub proof fn law_numbers_are_read(n: int, s: Seq<char>)
    requires
        0 <= n <= i64::MAX,
    ensures
        int_value(decimal(n as nat)) == Some(n),
        int_value(seq!['+'] + decimal(n as nat)) == Some(n),
        int_value(seq!['-'] + decimal(n as nat)) == Some(-n),
        all_digits(s) ==> int_value(seq!['0'] + s) == int_value(s),
        s.len() == 0 ==> int_value(s) is None,
        (exists|i: int| 0 < i < s.len() && !('0' <= #[trigger] s[i] <= '9')) ==> int_value(
            s,
        ) is None,
        s.len() > 0 && !('0' <= s[0] <= '9') && s[0] != '-' && s[0] != '+' ==> int_value(s) is None,
{
    let digits = decimal(n as nat);
    lemma_decimal(n as nat);
    assert('0' <= digits[0] <= '9');
    assert(unsigned_part(digits) == digits);
    assert((seq!['+'] + digits).skip(1) =~= digits);
    assert((seq!['-'] + digits).skip(1) =~= digits);
    assert((seq!['+'] + digits)[0] == '+');
    assert((seq!['-'] + digits)[0] == '-');
    if all_digits(s) {
        let longer = seq!['0'] + s;
        lemma_leading_zero(s);
        assert('0' <= s[0] <= '9');
        assert(longer[0] == '0');
        assert forall|i: int| 0 <= i < longer.len() implies '0' <= #[trigger] longer[i] <= '9' by {
            if i > 0 {
                assert(longer[i] == s[i - 1]);
            }
        }
    }
    if exists|i: int| 0 < i < s.len() && !('0' <= #[trigger] s[i] <= '9') {
        let i = choose|i: int| 0 < i < s.len() && !('0' <= #[trigger] s[i] <= '9');
        let part = unsigned_part(s);
        if part.len() < s.len() {
            assert(part[i - 1] == s[i]);
        } else {
            assert(part[i] == s[i]);
        }
    }
}

/// An integer is the JSON number of that integer.
pub proof fn law_integers_are_json_numbers(n: int, u: u64)
    requires
        i64::MIN <= n <= i64::MAX,
    ensures
        n < 0 ==> int_number(n) == JsonView::Number(NumberView::NegInt(n as i64)),
        n >= 0 ==> int_number(n) == JsonView::Number(NumberView::PosInt(n as u64)),
        nat_number(u) == JsonView::Number(NumberView::PosInt(u)),
        n < 0 ==> signed_decimal(n) == seq!['-'] + decimal((-n) as nat),
        n >= 0 ==> signed_decimal(n) == decimal(n as nat),
{
}

/// Encoded bytes put one behind the other.
proof fn lemma_percent_all_concat(a: Seq<u8>, b: Seq<u8>)
    ensures
        percent_all(a + b) == percent_all(a) + percent_all(b),
    decreases b.len(),
{
    if b.len() == 0 {
        assert(a + b =~= a);
        assert(percent_all(a) + Seq::<char>::empty() =~= percent_all(a));
    } else {
        assert((a + b).drop_last() =~= a + b.drop_last());
        assert((a + b).last() == b.last());
        lemma_percent_all_concat(a, b.drop_last());
        assert(percent_all(a + b) =~= percent_all(a) + percent_all(b));
    }
}

/// The bytes of two texts put one behind the other.
proof fn lemma_utf8_concat(a: Seq<char>, b: Seq<char>)
    ensures
        encode_utf8(a + b) == encode_utf8(a) + encode_utf8(b),
    decreases a.len(),
{
    if a.len() == 0 {
        assert(a + b =~= b);
        assert(encode_utf8(a) + encode_utf8(b) =~= encode_utf8(b));
    } else {
        assert((a + b)[0] == a[0]);
        assert((a + b).drop_first() =~= a.drop_first() + b);
        lemma_utf8_concat(a.drop_first(), b);
        assert(encode_utf8(a + b) =~= encode_utf8(a) + encode_utf8(b));
    }
}

/// A text is encoded character by character: what one character gives does not depend on those
/// around it, and none is lost.
pub proof fn law_encoding_goes_character_by_character(a: Seq<char>, b: Seq<char>)
    ensures
        url_encoded(a + b) == url_encoded(a) + url_encoded(b),
        url_encoded(Seq::empty()).len() == 0,
{
    lemma_utf8_concat(a, b);
    lemma_percent_all_concat(encode_utf8(a), encode_utf8(b));
}

/// A text is quoted character by character, and a control character by an escape.
pub proof fn law_quoting_goes_character_by_character(s: Seq<char>, c: char)
    ensures
        escaped(s.push(c)) == escaped(s) + escaped(seq![c]),
        escaped(Seq::empty()).len() == 0,
        (c as u32) < 0x20 ==> escaped(seq![c]).len() >= 2 && escaped(seq![c])[0] == '\\',
        c == '\t' ==> escaped(seq![c]) == seq!['\\', 't'],
        c == '\r' ==> escaped(seq![c]) == seq!['\\', 'r'],
{
    assert(s.push(c).drop_last() =~= s);
    let one = seq![c];
    assert(one.drop_last() =~= Seq::<char>::empty());
    assert(escaped(one.drop_last()) =~= Seq::<char>::empty());
    assert(one.last() == c);
    assert(escaped(one) =~= escape(c));
}

// ---------------------------------------------------------------------------------------------
// Readings
// ---------------------------------------------------------------------------------------------

/// A string is read as the text that it spells, and nothing else is.
pub proof fn law_strings_are_read(value: JsonView, t: Seq<char>, values: Seq<JsonView>)
    ensures
        string_of(JsonView::Text(t)) == Some(t),
        value !is Text ==> string_of(value) is None,
        strings_among(Seq::empty()).len() == 0,
        strings_among(values.push(JsonView::Text(t))) == strings_among(values).push(t),
        value !is Text ==> strings_among(values.push(value)) == strings_among(values),
{
    assert(values.push(JsonView::Text(t)).drop_last() =~= values);
    assert(values.push(value).drop_last() =~= values);
}

/// What a reply is gone by is what the parser said of exactly the JSON text in it: some call of the
/// parser on that text gave it. A reply without JSON text is an error.
pub proof fn law_parser_is_asked_for_the_json_text<P: Fn(&str) -> Result<RoutingResult, String>>(
    parse: P,
    stage: StageView,
    body: JsonView,
    content: Seq<char>,
    text: Seq<char>,
    parsed: Result<RoutingView, Seq<char>>,
)
    ensures
        routing_json(content) == Some(text) && reply_parses_to(parse, content, parsed)
            ==> exists|t: &str, out: Result<RoutingResult, String>|
            t@ == text && #[trigger] call_ensures(parse, (t,), out) && match out {
                Ok(routing) => parsed == Ok::<RoutingView, Seq<char>>(routing@),
                Err(e) => parsed == Err::<RoutingView, Seq<char>>(e@),
            },
        lookup(body, "content"@) == Some(JsonView::Text(content)) && (stage is Inference
            || stage is Local || stage is Retry) && reads_as(
            parse,
            stage,
            OutcomeView::Body(body),
            parsed,
        ) ==> reply_parses_to(parse, content, parsed),
        routing_json(content) is None ==> reply_result(content, parsed) == Err::<
            RoutingView,
            Seq<char>,
        >("JSON parse error: braces out of order"@),
{
    if routing_json(content) == Some(text) && reply_parses_to(parse, content, parsed) {
        let (t, out) = choose|t: &str, out: Result<RoutingResult, String>|
            t@ == text && #[trigger] call_ensures(parse, (t,), out) && parsed_view(out) == parsed;
        assert(call_ensures(parse, (t,), out));
    }
}

/// The parameters that keywords give: the number of a plan, or zero where an `i64` cannot hold it;
/// the name and the query as they were written; and none at all where none are asked for.
pub proof fn law_groups_become_parameters(
    whole: Option<Seq<char>>,
    group: Seq<char>,
    groups: Seq<Option<Seq<char>>>,
)
    ensures
        extracted(Extract::Nothing, groups) == JsonView::Object(Seq::empty()),
        extracted(Extract::AgentName, seq![whole, Some(group)]) == JsonView::Object(
            seq![("agent_name"@, JsonView::Text(group))],
        ),
        extracted(Extract::Query, seq![whole, Some(group)]) == JsonView::Object(
            seq![("query"@, JsonView::Text(group))],
        ),
        int_value(group) is None ==> extracted(Extract::PlanId, seq![whole, Some(group)])
            == JsonView::Object(seq![("plan_id"@, JsonView::Number(NumberView::PosInt(0)))]),
{
    assert(seq![whole, Some(group)][1] == Some(group));
}

/// The registry document gives the tools that are defined in it.
pub proof fn law_registry_gives_its_tools(body: JsonView)
    ensures
        registered_tools(Some(body)) == tool_defs(body),
{
}

/// The response that reports an error says nothing else, but which model was asked and how long it
/// took.
pub proof fn law_error_answer(error: Seq<char>, model: Option<Seq<char>>, elapsed_ms: u64)
    ensures
        error_answer(error, model, elapsed_ms) == (ResponseView {
            tool_used: None,
            params: None,
            result: None,
            error: Some(error),
            suggestion: None,
            routing_model: model,
            routing_latency_ms: Some(elapsed_ms),
        }),
{
}

/// The record of a routing holds what routed it, or `none`, how long it took where an `i64` can hold
/// that, and the choice, whatever the response says.
pub proof fn law_record_holds_the_routing(
    instruction: Seq<char>,
    chosen: Option<ChoiceView>,
    response: ResponseView,
)
    ensures
        ({
            let record = decision_record(instruction, chosen, response);
            &&& record.instruction == instruction
            &&& chosen is Some ==> record.tool_chosen == Some(chosen->0.tool) && record.params_json
                == Some(json_text(chosen->0.params)) && record.confidence == chosen->0.confidence
            &&& chosen is None ==> record.tool_chosen is None && record.params_json is None
                && record.confidence is None
            &&& record.routing_method == (if response.routing_model is Some {
                response.routing_model->0
            } else {
                "none"@
            })
            &&& response.routing_latency_ms is Some && response.routing_latency_ms->0 <= i64::MAX
                ==> record.latency_ms == response.routing_latency_ms->0
            &&& response.routing_latency_ms is None ==> record.latency_ms == 0
            &&& record.success == (if response.error is None {
                1int
            } else {
                0int
            })
        }),
{
}

/// The log shows each row that could be read, in order, and nothing in place of one that could not.
pub proof fn law_log_shows_rows_in_order(rows: Seq<Option<LogRowView>>, row: LogRowView)
    ensures
        log_entries(Seq::empty()).len() == 0,
        log_entries(rows.push(Some(row))) == log_entries(rows).push(log_entry(row)),
        log_entries(rows.push(None)) == log_entries(rows),
{
    assert(rows.push(Some(row)).drop_last() =~= rows);
    assert(rows.push(None).drop_last() =~= rows);
}

/// As many entries are shown as asked for, but no more than two hundred, and fifty where no number
/// was asked for.
pub proof fn law_number_of_entries(n: i64)
    ensures
        shown_at_most(None) == 50,
        n <= 200 ==> shown_at_most(Some(n)) == n,
        n > 200 ==> shown_at_most(Some(n)) == 200,
{
}

// ---------------------------------------------------------------------------------------------
// What the values say
// ---------------------------------------------------------------------------------------------

/// What an optional string says is what it spells.
pub open spec fn spelled(text: Option<String>) -> Option<Seq<char>> {
    if text is Some {
        Some(text->0@)
    } else {
        None
    }
}

/// What an optional value says.
pub open spec fn said(value: Option<Json>) -> Option<JsonView> {
    if value is Some {
        Some(value->0@)
    } else {
        None
    }
}

/// A JSON value says what it holds: every value of an array and every member of an object, in order.
pub proof fn law_json_says_what_it_holds(
    b: bool,
    n: u64,
    z: i64,
    t: String,
    values: Vec<Json>,
    members: Vec<(String, Json)>,
    i: int,
)
    ensures
        Json::Null@ == JsonView::Null,
        Json::Bool(b)@ == JsonView::Bool(b),
        Json::Number(JsonNumber::PosInt(n))@ == JsonView::Number(NumberView::PosInt(n)),
        Json::Number(JsonNumber::NegInt(z))@ == JsonView::Number(NumberView::NegInt(z)),
        Json::Number(JsonNumber::Float(t))@ == JsonView::Number(NumberView::Float(t@)),
        Json::Text(t)@ == JsonView::Text(t@),
        Json::Array(values)@ is Array,
        Json::Array(values)@->Array_0.len() == values@.len(),
        0 <= i < values@.len() ==> Json::Array(values)@->Array_0[i] == values@[i]@,
        Json::Object(members)@ is Object,
        Json::Object(members)@->Object_0.len() == members@.len(),
        0 <= i < members@.len() ==> Json::Object(members)@->Object_0[i] == (
            members@[i].0@,
            members@[i].1@,
        ),
{
}

/// A response, a routing result, a choice, a tool entry and a record each say what their fields hold.
pub proof fn law_values_say_what_they_hold(
    response: CeoResponse,
    routing: RoutingResult,
    choice: Choice,
    tool: ToolMenuEntry,
    i: int,
    record: RoutingRecord,
    row: LogRow,
    entry: SearchEntry,
)
    ensures
        response@.tool_used == spelled(response.tool_used),
        response@.params == said(response.params),
        response@.result == said(response.result),
        response@.error == spelled(response.error),
        response@.suggestion == spelled(response.suggestion),
        response@.routing_model == spelled(response.routing_model),
        response@.routing_latency_ms == response.routing_latency_ms,
        routing@.tool == spelled(routing.tool),
        routing@.params == said(routing.params),
        routing@.error == spelled(routing.error),
        routing.confidence is None ==> routing@.confidence is None,
        routing.confidence is Some ==> routing@.confidence == Some(routing.confidence->0@),
        choice@.tool == choice.tool@,
        choice@.params == choice.params@,
        choice.confidence is None ==> choice@.confidence is None,
        choice.confidence is Some ==> choice@.confidence == Some(choice.confidence->0@),
        tool@.name == tool.name@,
        tool@.description == tool.description@,
        tool@.method == tool.method@,
        tool@.path == tool.path@,
        tool@.params.len() == tool.params@.len(),
        0 <= i < tool.params@.len() ==> tool@.params[i] == tool.params@[i]@,
        record@.instruction == record.instruction@,
        record@.tool_chosen == spelled(record.tool_chosen),
        record@.params_json == spelled(record.params_json),
        record@.routing_method == record.routing_method@,
        record@.latency_ms == record.latency_ms,
        record@.success == record.success,
        record.confidence is None ==> record@.confidence is None,
        record.confidence is Some ==> record@.confidence == Some(record.confidence->0@),
        row@.id == row.id,
        row@.timestamp == row.timestamp@,
        row@.instruction == row.instruction@,
        row@.tool_chosen == spelled(row.tool_chosen),
        row@.params_json == spelled(row.params_json),
        row@.routing_method == row.routing_method@,
        row@.latency_ms == row.latency_ms,
        row@.success == row.success,
        entry@.name == entry.name@,
        entry@.lower_name == entry.lower_name@,
        entry@.lower_description == entry.lower_description@,
{
}

/// A request, an outcome and a step each say what they hold.
pub proof fn law_steps_say_what_they_hold(
    request: HttpRequest,
    e: String,
    body: Json,
    pending: Pending,
    response: CeoResponse,
    record: RoutingRecord,
    prompt: String,
    error: String,
    model: String,
    latency_ms: u64,
    choice: Choice,
    chosen: Option<Choice>,
)
    ensures
        request@.method == request.method,
        request@.url == request.url@,
        request@.authorization == spelled(request.authorization),
        request@.body == said(request.body),
        HttpOutcome::SendFailed(e)@ == OutcomeView::SendFailed(e@),
        HttpOutcome::StatusError(e)@ == OutcomeView::StatusError(e@),
        HttpOutcome::BodyUnreadable(e)@ == OutcomeView::BodyUnreadable(e@),
        HttpOutcome::Body(body)@ == OutcomeView::Body(body@),
        pending@.instruction == pending.instruction@,
        pending@.stage == pending.stage@,
        (RouteStep::Send { request, pending })@ == (StepView::Send {
            request: request@,
            pending: pending@,
        }),
        (RouteStep::Done { response, record })@ == (StepView::Done {
            response: response@,
            record: record@,
        }),
        (Stage::Inference { prompt })@ == (StageView::Inference { prompt: prompt@ }),
        (Stage::Local { prompt, error })@ == (StageView::Local { prompt: prompt@, error: error@ }),
        (Stage::KeywordDispatch { choice })@ == (StageView::KeywordDispatch { choice: choice@ }),
        (Stage::Dispatch { choice, model, latency_ms })@ == (StageView::Dispatch {
            choice: choice@,
            model: model@,
            latency_ms,
        }),
        (Stage::Retry { model, chosen })@ == (StageView::Retry {
            model: model@,
            chosen: if chosen is Some {
                Some(chosen->0@)
            } else {
                None
            },
        }),
        (Stage::Usage { response, chosen })@ == (StageView::Usage {
            response: response@,
            chosen: if chosen is Some {
                Some(chosen->0@)
            } else {
                None
            },
        }),
{
}

/// The words of a text that is one word, and of one that has none.
pub proof fn law_words_are_whole(w: Seq<char>, c: char)
    requires
        is_word(w),
        white(c),
    ensures
        words(w) == seq![w],
        words(seq![c]).len() == 0,
        words(Seq::empty()).len() == 0,
{
    lemma_words_of_word(w);
    let one = seq![c];
    assert(one[0] == c);
    assert(one.skip(1) =~= Seq::<char>::empty());
    assert(words(one.skip(1)).len() == 0);
}

/// A list says what each of its elements says, in order, and leaves none out.
pub proof fn law_lists_say_what_they_hold(
    strings: Seq<String>,
    tools: Seq<ToolMenuEntry>,
    entries: Seq<SearchEntry>,
    rows: Seq<Option<LogRow>>,
    patterns: Seq<KeywordPattern>,
    groups: Seq<Option<String>>,
    found: Seq<Option<Vec<Option<String>>>>,
    i: int,
)
    ensures
        texts(strings).len() == strings.len(),
        0 <= i < strings.len() ==> texts(strings)[i] == strings[i]@,
        menu_view(tools).len() == tools.len(),
        0 <= i < tools.len() ==> menu_view(tools)[i] == tools[i]@,
        search_views(entries).len() == entries.len(),
        0 <= i < entries.len() ==> search_views(entries)[i] == entries[i]@,
        row_views(rows).len() == rows.len(),
        0 <= i < rows.len() && rows[i] is Some ==> row_views(rows)[i] == Some(rows[i]->0@),
        0 <= i < rows.len() && rows[i] is None ==> row_views(rows)[i] is None,
        pattern_views(patterns).len() == patterns.len(),
        0 <= i < patterns.len() ==> pattern_views(patterns)[i].regex == patterns[i].regex@
            && pattern_views(patterns)[i].tool == patterns[i].tool@ && pattern_views(
            patterns,
        )[i].extract == patterns[i].extract,
        groups_view(groups).len() == groups.len(),
        0 <= i < groups.len() ==> groups_view(groups)[i] == spelled(groups[i]),
        match_views(found).len() == found.len(),
        0 <= i < found.len() && found[i] is Some ==> match_views(found)[i] == Some(
            groups_view(found[i]->0@),
        ),
        0 <= i < found.len() && found[i] is None ==> match_views(found)[i] is None,
{
}

/// The result of a function says what it holds.
pub proof fn law_results_say_what_they_hold(
    s: &str,
    t: String,
    u: String,
    value: Json,
    request: HttpRequest,
    routing: RoutingResult,
)
    ensures
        inference_view(Ok((t, u))) == Ok::<(Seq<char>, Seq<char>), Seq<char>>((t@, u@)),
        inference_view(Err(t)) == Err::<(Seq<char>, Seq<char>), Seq<char>>(t@),
        dispatch_view(Ok(value)) == Ok::<JsonView, Seq<char>>(value@),
        dispatch_view(Err(t)) == Err::<JsonView, Seq<char>>(t@),
        planned_view(Ok(request)) == Ok::<RequestView, Seq<char>>(request@),
        planned_view(Err(t)) == Err::<RequestView, Seq<char>>(t@),
        parsed_view(Ok(routing)) == Ok::<RoutingView, Seq<char>>(routing@),
        parsed_view(Err(t)) == Err::<RoutingView, Seq<char>>(t@),
        route_view(Some((t, value))) == Some((t@, value@)),
        route_view(None) is None,
        optional_text(Some(t)) == Some(t@),
        optional_text(None) is None,
        optional_str(Some(s)) == Some(s@),
        optional_str(None) is None,
        optional_json(Some(value)) == Some(value@),
        optional_json(None) is None,
        optional_ref(Some(&value)) == Some(value@),
        optional_ref(None) is None,
{
}

/// An engine that is sound shows the model its whole menu, and a breaker that is sound holds fewer
/// than a hundred calls.
pub proof fn law_sound_values(engine: CeoEngine, breaker: CircuitBreaker)
    ensures
        engine.wf() <==> engine@.tool_menu_prompt == menu_prompt(engine@.tool_menu),
        breaker.wf() <==> breaker@.calls.len() < 100,
{
}

/// The log that could be read is listed: the entries of all of its rows, and how many they are.
pub proof fn law_readable_log_is_listed(rows: Vec<Option<LogRow>>)
    requires
        log_entries(row_views(rows@)).len() <= u64::MAX,
    ensures
        ({
            let entries = log_entries(row_views(rows@));
            let answer = log_answer(LogOutcome::Rows(rows));
            &&& lookup(answer, "entries"@) == Some(JsonView::Array(entries))
            &&& lookup(answer, "count"@) == Some(
                JsonView::Number(NumberView::PosInt(entries.len() as u64)),
            )
        }),
{
    reveal_strlit("count");
    reveal_strlit("entries");
    assert("count"@.len() == 5 && "entries"@.len() == 7);
    let m = log_answer(LogOutcome::Rows(rows))->Object_0;
    assert(m.skip(1)[0] == m[1]);
    reveal_with_fuel(member, 3);
}

/// What is taken down of a decision: each part as it was, the parameters as compact text, a latency
/// that an `i64` cannot hold wrapped around.
pub proof fn law_decisions_are_taken_down_as_they_are(
    instruction: Seq<char>,
    tool: Option<Seq<char>>,
    params: JsonView,
    method: Seq<char>,
    latency_ms: u64,
    success: bool,
)
    ensures
        ({
            let record = record_of(instruction, tool, Some(params), method, latency_ms, success);
            &&& record.instruction == instruction
            &&& record.tool_chosen == tool
            &&& record.params_json == Some(json_text(params))
            &&& record_of(
                instruction,
                tool,
                None,
                method,
                latency_ms,
                success,
            ).params_json is None
            &&& record.routing_method == method
            &&& latency_ms <= i64::MAX ==> record.latency_ms == latency_ms
            &&& latency_ms > i64::MAX ==> record.latency_ms == latency_ms - 18446744073709551616
            &&& success ==> record.success == 1
            &&& !success ==> record.success == 0
        }),
{
}

} // verus!
