//! What holds of the library as a whole: laws that relate several of its functions, stated over
//! the mathematical functions that their contracts speak of.

use vstd::prelude::*;
use vstd::utf8::encode_utf8;

use crate::ceo_audit::{
    asked, closed, counted, decision_record, evaluated, holds_back, is_recent, log_entries,
    log_entry, log_listing, params_text, probe_due, recent_calls, recent_errors, record_of, settled,
    shown_at_most, text_or_null, BreakerView, Call, LogRowView, RecordView,
};
use crate::ceo_dispatch::{
    call_body, call_fault, filled_path, first_dots, first_not_given, has_dot_segment, is_dots,
    is_given, missing_param, param_text, percent, percent_all, tool_call, tool_named, unreserved,
    upper_hex, url_encoded,
};
use crate::ceo_fallback::{
    extracted, first_route, keyword_matches, keyword_routing, keyword_table, Extract, KeywordView,
};
use crate::ceo_helpers::{
    at_most, context_note, hits, is_hit, lowercase, menu_line, menu_prompt, params_note,
    reply_result, routing_json, routing_prompt, search_entries, stripped, suggestion, tool_def,
    tool_defs_among, without_params, SearchView, MAX_SUGGESTIONS, ROUTER_ROLE, ROUTER_RULES,
};
use crate::ceo_routes::response_body;
use crate::engine::{
    asks_model, fault_prompt, first_step, given_params, inference_answer, inference_body,
    inference_request, keyword_choice, keyword_step, listing_answer, model_choice, next_step,
    retry_prompt, usage_body, usage_step, EngineView, PendingView, StageView, StepView, Tier,
};
use crate::http::{bearer, HttpMethod, OutcomeView, RequestView};
use crate::json::{
    int_number, json_text, lookup, member, nat_number, unique_keys, well_formed, JsonView,
};
use crate::text::{
    count, first_position, joined, last_position, law_integers_read_back,
    law_replacing_adds_no_foreign_character, law_trim_ignores_surrounding_white_space,
    law_trim_is_idempotent, law_words_are_split_by_white_space, lemma_drop_white,
    lemma_joined_holds_parts, lemma_occurs_between, lemma_occurs_within, lemma_skip_white, occurs,
    signed_decimal, skip_white, trimmed, white, words,
};
use crate::types::{ChoiceView, ResponseView, RoutingView, ToolView};

verus! {

// ---------------------------------------------------------------------------------------------
// Circuit breaker
// ---------------------------------------------------------------------------------------------

/// A closed circuit breaker that has counted nothing.
pub open spec fn fresh(origin: std::time::Instant) -> BreakerView {
    BreakerView { origin, calls: Seq::empty(), opened_at: None, probing: false }
}

/// A circuit breaker after it recorded some calls, each at its point in time.
pub open spec fn after_recording(breaker: BreakerView, calls: Seq<Call>) -> BreakerView
    decreases calls.len(),
{
    if calls.len() == 0 {
        breaker
    } else {
        let call = calls.last();
        evaluated(
            counted(after_recording(breaker, calls.drop_last()), call.success, call.at),
            call.at,
        )
    }
}

/// The number of failures among some calls.
pub open spec fn failures(calls: Seq<Call>) -> nat
    decreases calls.len(),
{
    if calls.len() == 0 {
        0
    } else {
        failures(calls.drop_last()) + if calls.last().success {
            0nat
        } else {
            1nat
        }
    }
}

/// Where every call is in the window, all of them count.
proof fn lemma_all_recent(calls: Seq<Call>, now: u128)
    requires
        forall|i: int| 0 <= i < calls.len() ==> is_recent(#[trigger] calls[i], now),
    ensures
        recent_calls(calls, now) == calls.len(),
        recent_errors(calls, now) == failures(calls),
    decreases calls.len(),
{
    reveal(Seq::filter);
    if calls.len() > 0 {
        assert forall|i: int| 0 <= i < calls.drop_last().len() implies is_recent(
            #[trigger] calls.drop_last()[i],
            now,
        ) by {
            assert(calls.drop_last()[i] == calls[i]);
        }
        lemma_all_recent(calls.drop_last(), now);
        assert(is_recent(calls[calls.len() - 1], now));
    }
}

/// Where no failed call is in the window, no error counts.
proof fn lemma_no_recent_failure(calls: Seq<Call>, now: u128)
    requires
        forall|i: int|
            0 <= i < calls.len() ==> (#[trigger] calls[i]).success || !is_recent(calls[i], now),
    ensures
        recent_errors(calls, now) == 0,
    decreases calls.len(),
{
    reveal(Seq::filter);
    if calls.len() > 0 {
        assert forall|i: int| 0 <= i < calls.drop_last().len() implies (
        #[trigger] calls.drop_last()[i]).success || !is_recent(calls.drop_last()[i], now) by {
            assert(calls.drop_last()[i] == calls[i]);
        }
        lemma_no_recent_failure(calls.drop_last(), now);
        assert(calls[calls.len() - 1] == calls.last());
    }
}

/// A closed circuit opens by being judged exactly when there are at least twenty calls in the
/// window of ten minutes and more than five percent of them failed.
pub proof fn law_opens_exactly_above_the_error_rate(breaker: BreakerView, now: u128)
    requires
        breaker.opened_at is None,
    ensures
        evaluated(breaker, now).opened_at is Some <==> recent_calls(breaker.calls, now) >= 20
            && recent_errors(breaker.calls, now) * 100 > recent_calls(breaker.calls, now) * 5,
        evaluated(breaker, now).opened_at is Some ==> evaluated(breaker, now).opened_at == Some(
            now,
        ),
{
}

/// An open circuit closes by being judged exactly when there are at least twenty calls in the
/// window and no more than five percent of them failed; else it stays as it was.
pub proof fn law_closes_exactly_at_or_below_the_error_rate(breaker: BreakerView, now: u128)
    requires
        breaker.opened_at is Some,
    ensures
        evaluated(breaker, now).opened_at is None <==> recent_calls(breaker.calls, now) >= 20
            && recent_errors(breaker.calls, now) * 100 <= recent_calls(breaker.calls, now) * 5,
        evaluated(breaker, now).opened_at is Some ==> evaluated(breaker, now) == breaker,
        evaluated(breaker, now).calls == breaker.calls,
{
}

/// Judging a circuit breaker again at the same time changes nothing.
pub proof fn law_evaluating_is_idempotent(breaker: BreakerView, now: u128)
    ensures
        evaluated(evaluated(breaker, now), now) == evaluated(breaker, now),
{
}

/// Failures that are more than ten minutes old do not count: without a later one, a closed circuit
/// stays closed.
pub proof fn law_old_failures_do_not_count(breaker: BreakerView, now: u128)
    requires
        breaker.opened_at is None,
        forall|i: int|
            0 <= i < breaker.calls.len() ==> (#[trigger] breaker.calls[i]).success || now
                - breaker.calls[i].at > 600_000_000_000,
    ensures
        evaluated(breaker, now).opened_at is None,
        recent_errors(breaker.calls, now) == 0,
{
    lemma_no_recent_failure(breaker.calls, now);
}

/// A circuit breaker that was made fresh holds the calls since its last full hundred: the counting
/// starts over every hundred calls.
pub proof fn law_counting_starts_over_every_hundred_calls(
    origin: std::time::Instant,
    calls: Seq<Call>,
)
    ensures
        after_recording(fresh(origin), calls).calls == calls.skip(calls.len() - calls.len() % 100),
        after_recording(fresh(origin), calls).calls.len() == calls.len() % 100,
        after_recording(fresh(origin), calls).origin == origin,
    decreases calls.len(),
{
    let n = calls.len() as int;
    if n == 0 {
        assert(calls.skip(0) =~= Seq::<Call>::empty());
    } else {
        let front = calls.drop_last();
        law_counting_starts_over_every_hundred_calls(origin, front);
        let before = after_recording(fresh(origin), front);
        let start = (n - 1) - (n - 1) % 100;
        if (n - 1) % 100 == 99 {
            assert(n % 100 == 0);
            assert(calls.skip(n) =~= Seq::<Call>::empty());
        } else {
            assert(n % 100 == (n - 1) % 100 + 1);
            assert(n - n % 100 == start);
            let call = calls.last();
            assert(before.calls.push(Call { at: call.at, success: call.success }) =~= calls.skip(
                start,
            ));
        }
    }
}

/// A fresh circuit breaker that recorded successes alone is closed.
pub proof fn law_successes_never_open(origin: std::time::Instant, calls: Seq<Call>)
    requires
        forall|i: int| 0 <= i < calls.len() ==> (#[trigger] calls[i]).success,
    ensures
        after_recording(fresh(origin), calls).opened_at is None,
    decreases calls.len(),
{
    if calls.len() > 0 {
        let front = calls.drop_last();
        assert forall|i: int| 0 <= i < front.len() implies (#[trigger] front[i]).success by {
            assert(front[i] == calls[i]);
        }
        law_successes_never_open(origin, front);
        law_counting_starts_over_every_hundred_calls(origin, calls);
        let now = calls.last().at;
        let held = counted(after_recording(fresh(origin), front), calls.last().success, now).calls;
        let start = calls.len() - calls.len() % 100;
        assert(held == after_recording(fresh(origin), calls).calls);
        assert forall|i: int| 0 <= i < held.len() implies (#[trigger] held[i]).success by {
            assert(held[i] == calls[start + i]);
        }
        lemma_no_recent_failure(held, now);
    }
}

/// A fresh circuit breaker that recorded at least twenty calls and fewer than a hundred, all of them
/// within ten minutes, is open where more than five percent of them failed.
pub proof fn law_high_error_rate_opens(origin: std::time::Instant, calls: Seq<Call>)
    requires
        20 <= calls.len() < 100,
        forall|i: int|
            0 <= i < calls.len() ==> calls.last().at - (#[trigger] calls[i]).at <= 600_000_000_000,
        failures(calls) * 100 > calls.len() * 5,
    ensures
        after_recording(fresh(origin), calls).opened_at is Some,
{
    law_counting_starts_over_every_hundred_calls(origin, calls);
    assert(calls.len() % 100 == calls.len());
    assert(calls.skip(0) =~= calls);
    lemma_all_recent(calls, calls.last().at);
}

/// A circuit that was closed holds no call back; its counting starts over if it was open, and goes
/// on if it was not.
pub proof fn law_closing_closes(breaker: BreakerView, now: u128)
    ensures
        !holds_back(closed(breaker), now),
        closed(closed(breaker)) == closed(breaker),
        breaker.opened_at is Some ==> closed(breaker) == fresh(breaker.origin),
        breaker.opened_at is None ==> closed(breaker) == breaker,
{
}

/// An open circuit holds calls back for five minutes; one that is not open holds none back.
pub proof fn law_open_for_five_minutes(breaker: BreakerView, now: u128)
    ensures
        breaker.opened_at matches Some(opened) ==> (now - opened < 300_000_000_000 ==> holds_back(
            breaker,
            now,
        )),
        breaker.opened_at matches Some(opened) ==> (now - opened >= 300_000_000_000
            && !breaker.probing ==> !holds_back(breaker, now)),
        breaker.opened_at is None ==> !holds_back(breaker, now),
{
}

/// One probe is let through: where an open circuit did not hold a call back, it holds back every
/// later one, whenever it is asked, until it is closed or the probe has come back.
pub proof fn law_one_probe_until_closed(breaker: BreakerView, first: u128, later: u128)
    requires
        breaker.opened_at is Some,
        !holds_back(breaker, first),
    ensures
        holds_back(asked(breaker, first), later),
        asked(asked(breaker, first), later) == asked(breaker, first),
        !holds_back(closed(asked(breaker, first)), later),
{
}

/// Asking a circuit breaker neither opens nor closes it, and counts nothing.
pub proof fn law_asking_keeps_the_circuit(breaker: BreakerView, now: u128)
    ensures
        asked(breaker, now).opened_at == breaker.opened_at,
        asked(breaker, now).calls == breaker.calls,
        holds_back(breaker, now) ==> asked(breaker, now) == breaker,
{
}

/// A probe that succeeds closes the circuit. One that fails is recorded, and where it leaves the
/// circuit open, calls are held back for another five minutes.
pub proof fn law_probe_decides(breaker: BreakerView, asked_at: u128, now: u128, later: u128)
    requires
        probe_due(breaker, asked_at),
    ensures
        settled(asked(breaker, asked_at), true, now) == fresh(breaker.origin),
        ({
            let after = settled(asked(breaker, asked_at), false, now);
            &&& after.calls == counted(breaker, false, now).calls
            &&& after.opened_at is Some ==> (holds_back(after, later) <==> later - now
                < 300_000_000_000)
        }),
{
}

// ---------------------------------------------------------------------------------------------
// Tool definitions, menu and prompt
// ---------------------------------------------------------------------------------------------

/// The definitions are read one by one: the tools of two lists put together are the tools of the
/// one, then those of the other.
pub proof fn law_definitions_are_read_one_by_one(first: Seq<JsonView>, second: Seq<JsonView>)
    ensures
        tool_defs_among(first + second) == tool_defs_among(first) + tool_defs_among(second),
    decreases second.len(),
{
    if second.len() == 0 {
        assert(first + second =~= first);
        assert(tool_defs_among(first) + Seq::<ToolView>::empty() =~= tool_defs_among(first));
    } else {
        law_definitions_are_read_one_by_one(first, second.drop_last());
        assert((first + second).drop_last() =~= first + second.drop_last());
        assert((first + second).last() == second.last());
        match tool_def(second.last()) {
            Some(tool) => {
                assert((tool_defs_among(first) + tool_defs_among(second.drop_last())).push(tool)
                    =~= tool_defs_among(first) + tool_defs_among(second.drop_last()).push(tool));
            },
            None => {},
        }
    }
}

/// Every tool of the menu came from a definition, and every definition of a tool is in the menu.
pub proof fn law_menu_holds_what_is_defined(defs: Seq<JsonView>, tool: ToolView)
    ensures
        tool_defs_among(defs).contains(tool) <==> exists|i: int|
            0 <= i < defs.len() && #[trigger] tool_def(defs[i]) == Some(tool),
    decreases defs.len(),
{
    if defs.len() > 0 {
        let front = defs.drop_last();
        let before = tool_defs_among(front);
        law_menu_holds_what_is_defined(front, tool);
        let last = tool_def(defs.last());
        if tool_defs_among(defs).contains(tool) {
            if before.contains(tool) {
                let i = choose|i: int| 0 <= i < front.len() && #[trigger] tool_def(front[i]) == Some(
                    tool,
                );
                assert(tool_def(defs[i]) == Some(tool));
            } else {
                let k = choose|k: int|
                    0 <= k < tool_defs_among(defs).len() && tool_defs_among(defs)[k] == tool;
                if k < before.len() {
                    assert(before[k] == tool);
                }
                assert(tool_def(defs[defs.len() - 1]) == Some(tool));
            }
        }
        if exists|i: int| 0 <= i < defs.len() && #[trigger] tool_def(defs[i]) == Some(tool) {
            let i = choose|i: int| 0 <= i < defs.len() && #[trigger] tool_def(defs[i]) == Some(tool);
            if i < front.len() {
                assert(tool_def(front[i]) == Some(tool));
                let k = choose|k: int| 0 <= k < before.len() && before[k] == tool;
                assert(tool_defs_among(defs)[k] == tool);
            } else {
                assert(tool_defs_among(defs)[before.len() as int] == tool);
            }
        }
    }
}

/// The line of each tool stands in the menu.
proof fn lemma_line_in_menu(tools: Seq<ToolView>, i: int)
    requires
        0 <= i < tools.len(),
    ensures
        occurs(menu_prompt(tools), menu_line(tools[i])),
    decreases tools.len(),
{
    let none = Seq::<char>::empty();
    let front = tools.drop_last();
    if i == tools.len() - 1 {
        lemma_occurs_between(menu_prompt(front), menu_line(tools[i]), none);
        assert(menu_prompt(front) + menu_line(tools[i]) + none =~= menu_prompt(tools));
    } else {
        lemma_line_in_menu(front, i);
        lemma_occurs_between(none, menu_prompt(front), menu_line(tools.last()));
        assert(none + menu_prompt(front) + menu_line(tools.last()) =~= menu_prompt(tools));
        lemma_occurs_within(menu_prompt(tools), menu_prompt(front), menu_line(tools[i]));
    }
}

/// The menu names every tool, with its description and each of its parameters, in the form
/// `name: description — parameters`.
pub proof fn law_menu_lists_every_tool(tools: Seq<ToolView>, i: int)
    requires
        0 <= i < tools.len(),
    ensures
        occurs(menu_prompt(tools), menu_line(tools[i])),
        occurs(menu_prompt(tools), tools[i].name),
        occurs(menu_prompt(tools), tools[i].description),
        tools[i].params.len() > 0 ==> occurs(
            menu_prompt(tools),
            tools[i].name + ": "@ + tools[i].description + " — "@ + joined(
                tools[i].params,
                ", "@,
            ),
        ),
        forall|k: int|
            0 <= k < tools[i].params.len() ==> occurs(
                menu_prompt(tools),
                #[trigger] tools[i].params[k],
            ),
{
    let tool = tools[i];
    let line = menu_line(tool);
    let note = params_note(tool.params);
    lemma_line_in_menu(tools, i);
    lemma_occurs_between("- "@, tool.name, ": "@ + tool.description + note + "\n"@);
    assert("- "@ + tool.name + (": "@ + tool.description + note + "\n"@) =~= line);
    lemma_occurs_within(menu_prompt(tools), line, tool.name);
    lemma_occurs_between("- "@ + tool.name + ": "@, tool.description, note + "\n"@);
    assert("- "@ + tool.name + ": "@ + tool.description + (note + "\n"@) =~= line);
    lemma_occurs_within(menu_prompt(tools), line, tool.description);
    if tool.params.len() > 0 {
        let entry = tool.name + ": "@ + tool.description + " — "@ + joined(tool.params, ", "@);
        lemma_occurs_between("- "@, entry, "\n"@);
        assert("- "@ + entry + "\n"@ =~= line);
        lemma_occurs_within(menu_prompt(tools), line, entry);
    }
    assert forall|k: int| 0 <= k < tool.params.len() implies occurs(
        menu_prompt(tools),
        #[trigger] tool.params[k],
    ) by {
        let list = joined(tool.params, ", "@);
        lemma_joined_holds_parts(tool.params, ", "@, k);
        let front = "- "@ + tool.name + ": "@ + tool.description + " — "@;
        lemma_occurs_between(front, list, "\n"@);
        assert(front + list + "\n"@ =~= line);
        lemma_occurs_within(line, list, tool.params[k]);
        lemma_occurs_within(menu_prompt(tools), line, tool.params[k]);
    }
}

/// The routing prompt holds the role and the rules, the menu, the instruction and the context.
pub proof fn law_prompt_holds_what_it_is_made_of(
    menu: Seq<char>,
    instruction: Seq<char>,
    context: Option<JsonView>,
)
    ensures
        occurs(routing_prompt(menu, instruction, context), ROUTER_ROLE@),
        occurs(routing_prompt(menu, instruction, context), ROUTER_RULES@),
        occurs(routing_prompt(menu, instruction, context), menu),
        occurs(routing_prompt(menu, instruction, context), instruction),
        context matches Some(value) ==> occurs(
            routing_prompt(menu, instruction, context),
            json_text(value),
        ),
{
    let whole = routing_prompt(menu, instruction, context);
    let none = Seq::<char>::empty();
    let label = "\nInstruction: "@;
    let note = context_note(context);
    let tail = label + instruction + note;
    lemma_occurs_between(none, ROUTER_ROLE@, menu + ROUTER_RULES@ + tail);
    assert(none + ROUTER_ROLE@ + (menu + ROUTER_RULES@ + tail) =~= whole);
    lemma_occurs_between(ROUTER_ROLE@, menu, ROUTER_RULES@ + tail);
    assert(ROUTER_ROLE@ + menu + (ROUTER_RULES@ + tail) =~= whole);
    lemma_occurs_between(ROUTER_ROLE@ + menu, ROUTER_RULES@, tail);
    assert(ROUTER_ROLE@ + menu + ROUTER_RULES@ + tail =~= whole);
    lemma_occurs_between(ROUTER_ROLE@ + menu + ROUTER_RULES@ + label, instruction, note);
    if context is Some {
        let text = json_text(context->0);
        let front = ROUTER_ROLE@ + menu + ROUTER_RULES@ + label + instruction + "\n\nContext: "@;
        lemma_occurs_between(front, text, none);
        assert(front + text + none =~= whole);
    }
}

// ---------------------------------------------------------------------------------------------
// Replies of the model
// ---------------------------------------------------------------------------------------------

/// Where the first `c` of a text stands, given what stands before it.
proof fn lemma_first_position(s: Seq<char>, c: char, at: int)
    requires
        0 <= at <= s.len(),
        forall|i: int| 0 <= i < at ==> #[trigger] s[i] != c,
        at < s.len() ==> s[at] == c,
    ensures
        first_position(s, c) == at,
    decreases s.len(),
{
    if at > 0 {
        assert forall|i: int| 0 <= i < at - 1 implies #[trigger] s.skip(1)[i] != c by {
            assert(s.skip(1)[i] == s[i + 1]);
        }
        lemma_first_position(s.skip(1), c, at - 1);
    }
}

/// Where the last `c` of a text stands, given what stands after it.
proof fn lemma_last_position(s: Seq<char>, c: char, at: int)
    requires
        -1 <= at < s.len(),
        forall|i: int| at < i < s.len() ==> #[trigger] s[i] != c,
        at >= 0 ==> s[at] == c,
    ensures
        last_position(s, c) == at,
    decreases s.len(),
{
    if at < s.len() - 1 {
        assert forall|i: int| at < i < s.len() - 1 implies #[trigger] s.drop_last()[i] != c by {
            assert(s.drop_last()[i] == s[i]);
        }
        lemma_last_position(s.drop_last(), c, at);
    }
}

/// A JSON object is found between any text that does not open a brace before it, nor close one
/// after it, such as a code fence.
#[verifier::rlimit(60)]
#[verifier::spinoff_prover]
pub proof fn law_json_is_found_between_other_text(
    before: Seq<char>,
    object: Seq<char>,
    after: Seq<char>,
)
    requires
        object.len() > 0,
        object[0] == '{',
        object.last() == '}',
        !before.contains('{'),
        !after.contains('}'),
    ensures
        routing_json(before + object + after) == Some(object),
{
    let s = before + object + after;
    let a = before.len() as int;
    let b = a + object.len();
    assert(s[a] == '{');
    assert(s[b - 1] == '}');
    let i = lemma_skip_white(s);
    assert(i <= a) by {
        if i > a {
            assert(white(s[a]));
        }
    }
    let mid = skip_white(s);
    let j = lemma_drop_white(mid);
    assert(mid[b - 1 - i] == s[b - 1]);
    assert(i + j >= b) by {
        if i + j < b {
            assert(white(mid[b - 1 - i]));
        }
    }
    let text = trimmed(s);
    assert(text =~= s.subrange(i, i + j));
    assert forall|k: int| 0 <= k < a - i implies #[trigger] text[k] != '{' by {
        assert(text[k] == before[i + k]);
        assert(before.contains(before[i + k]));
    }
    assert(text[a - i] == s[a]);
    lemma_first_position(text, '{', a - i);
    assert forall|k: int| b - 1 - i < k < text.len() implies #[trigger] text[k] != '}' by {
        assert(text[k] == after[i + k - b]);
        assert(after.contains(after[i + k - b]));
    }
    assert(text[b - 1 - i] == s[b - 1]);
    lemma_last_position(text, '}', b - 1 - i);
    assert(text.subrange(a - i, b - i) =~= object);
}

/// A reply whose last `}` stands before its first `{`, with something between them, holds no JSON
/// and is an error, whatever a parser would say.
#[verifier::rlimit(60)]
#[verifier::spinoff_prover]
pub proof fn law_braces_out_of_order_are_an_error(
    before: Seq<char>,
    between: Seq<char>,
    after: Seq<char>,
    parsed: Result<RoutingView, Seq<char>>,
)
    requires
        !before.contains('{'),
        between.len() > 0,
        !between.contains('{'),
        !between.contains('}'),
        !after.contains('}'),
    ensures
        routing_json(before + seq!['}'] + between + seq!['{'] + after) is None,
        reply_result(before + seq!['}'] + between + seq!['{'] + after, parsed) is Err,
{
    let s = before + seq!['}'] + between + seq!['{'] + after;
    let a = before.len() as int;
    let b = a + 1 + between.len();
    assert(s[a] == '}');
    assert(s[b] == '{');
    let i = lemma_skip_white(s);
    assert(i <= a) by {
        if i > a {
            assert(white(s[a]));
        }
    }
    let mid = skip_white(s);
    let j = lemma_drop_white(mid);
    assert(mid[b - i] == s[b]);
    assert(i + j > b) by {
        if i + j <= b {
            assert(white(mid[b - i]));
        }
    }
    let text = trimmed(s);
    assert(text =~= s.subrange(i, i + j));
    assert forall|k: int| 0 <= k < b - i implies #[trigger] text[k] != '{' by {
        if i + k < a {
            assert(text[k] == before[i + k]);
            assert(before.contains(before[i + k]));
        } else if i + k > a {
            assert(text[k] == between[i + k - a - 1]);
            assert(between.contains(between[i + k - a - 1]));
        }
    }
    assert(text[b - i] == s[b]);
    lemma_first_position(text, '{', b - i);
    assert forall|k: int| a - i < k < text.len() implies #[trigger] text[k] != '}' by {
        if i + k < b {
            assert(text[k] == between[i + k - a - 1]);
            assert(between.contains(between[i + k - a - 1]));
        } else if i + k > b {
            assert(text[k] == after[i + k - b - 1]);
            assert(after.contains(after[i + k - b - 1]));
        }
    }
    assert(text[a - i] == s[a]);
    lemma_last_position(text, '}', a - i);
}

// ---------------------------------------------------------------------------------------------
// Suggestions
// ---------------------------------------------------------------------------------------------

/// There is a hit exactly where some tool is hit.
proof fn lemma_hits(lower_instruction: Seq<char>, entries: Seq<SearchView>)
    ensures
        hits(lower_instruction, entries).len() == 0 <==> forall|i: int|
            0 <= i < entries.len() ==> !is_hit(lower_instruction, #[trigger] entries[i]),
    decreases entries.len(),
{
    if entries.len() > 0 {
        let front = entries.drop_last();
        lemma_hits(lower_instruction, front);
        assert(forall|i: int| 0 <= i < front.len() ==> #[trigger] front[i] == entries[i]);
        if hits(lower_instruction, entries).len() == 0 {
            assert forall|i: int| 0 <= i < entries.len() implies !is_hit(
                lower_instruction,
                #[trigger] entries[i],
            ) by {
                if i < front.len() {
                    assert(front[i] == entries[i]);
                }
            }
        }
    }
}

/// There is a suggestion exactly where a word of the instruction stands in the name or the
/// description of some tool. It names the first tools that are hit, at most three.
pub proof fn law_suggestion_names_the_first_hits(
    lower_instruction: Seq<char>,
    entries: Seq<SearchView>,
)
    ensures
        suggestion(lower_instruction, entries) is None <==> forall|i: int|
            0 <= i < entries.len() ==> !is_hit(lower_instruction, #[trigger] entries[i]),
        suggestion(lower_instruction, entries) matches Some(text) ==> forall|k: int|
            0 <= k < hits(lower_instruction, entries).len() && k < 3 ==> occurs(
                text,
                #[trigger] hits(lower_instruction, entries)[k],
            ),
        at_most(hits(lower_instruction, entries), MAX_SUGGESTIONS as nat).len() <= 3,
{
    lemma_hits(lower_instruction, entries);
    let all = hits(lower_instruction, entries);
    let names = at_most(all, MAX_SUGGESTIONS as nat);
    if suggestion(lower_instruction, entries) is Some {
        let text = suggestion(lower_instruction, entries)->0;
        let list = joined(names, ", "@);
        assert forall|k: int| 0 <= k < all.len() && k < 3 implies occurs(
            text,
            #[trigger] all[k],
        ) by {
            assert(names[k] == all[k]);
            lemma_joined_holds_parts(names, ", "@, k);
            lemma_occurs_between("Did you mean: "@, list, "?"@);
            lemma_occurs_within(text, list, all[k]);
        }
    }
}

/// The words of two texts hit a tool exactly where the words of one of them do.
proof fn lemma_hit_by_either(a: Seq<char>, b: Seq<char>, entry: SearchView)
    ensures
        is_hit(a + " "@ + b, entry) <==> is_hit(a, entry) || is_hit(b, entry),
{
    reveal_strlit(" ");
    assert(" "@ =~= seq![' ']);
    law_words_are_split_by_white_space(a, ' ', b);
    let both = words(a + " "@ + b);
    assert(both == words(a) + words(b));
    if is_hit(a, entry) {
        let k = choose|k: int|
            0 <= k < words(a).len() && {
                ||| occurs(entry.lower_name, #[trigger] words(a)[k])
                ||| occurs(entry.lower_description, words(a)[k])
            };
        assert(both[k] == words(a)[k]);
    }
    if is_hit(b, entry) {
        let k = choose|k: int|
            0 <= k < words(b).len() && {
                ||| occurs(entry.lower_name, #[trigger] words(b)[k])
                ||| occurs(entry.lower_description, words(b)[k])
            };
        assert(both[words(a).len() + k] == words(b)[k]);
    }
    if is_hit(a + " "@ + b, entry) {
        let k = choose|k: int|
            0 <= k < both.len() && {
                ||| occurs(entry.lower_name, #[trigger] both[k])
                ||| occurs(entry.lower_description, both[k])
            };
        if k < words(a).len() {
            assert(both[k] == words(a)[k]);
        } else {
            assert(both[k] == words(b)[k - words(a).len()]);
        }
    }
}

/// Where two texts hit the same tools, the hits are the same.
proof fn lemma_same_hits(a: Seq<char>, b: Seq<char>, entries: Seq<SearchView>)
    requires
        forall|i: int| 0 <= i < entries.len() ==> is_hit(a, #[trigger] entries[i]) == is_hit(
            b,
            entries[i],
        ),
    ensures
        hits(a, entries) == hits(b, entries),
    decreases entries.len(),
{
    if entries.len() > 0 {
        let front = entries.drop_last();
        assert forall|i: int| 0 <= i < front.len() implies is_hit(a, #[trigger] front[i]) == is_hit(
            b,
            front[i],
        ) by {
            assert(front[i] == entries[i]);
        }
        lemma_same_hits(a, b, front);
        assert(entries[entries.len() - 1] == entries.last());
    }
}

/// The order of the words of an instruction does not matter for what is suggested. The texts are in
/// lower case, as they are when a suggestion is looked for.
pub proof fn law_suggestion_ignores_word_order(
    a: Seq<char>,
    b: Seq<char>,
    entries: Seq<SearchView>,
)
    ensures
        suggestion(a + " "@ + b, entries) == suggestion(b + " "@ + a, entries),
{
    assert forall|i: int| 0 <= i < entries.len() implies is_hit(
        a + " "@ + b,
        #[trigger] entries[i],
    ) == is_hit(b + " "@ + a, entries[i]) by {
        lemma_hit_by_either(a, b, entries[i]);
        lemma_hit_by_either(b, a, entries[i]);
    }
    lemma_same_hits(a + " "@ + b, b + " "@ + a, entries);
}

/// More words keep a suggestion: where there is one for a text in lower case, there is one for that
/// text with another behind it or before it.
pub proof fn law_more_words_keep_a_suggestion(
    a: Seq<char>,
    b: Seq<char>,
    entries: Seq<SearchView>,
)
    requires
        suggestion(a, entries) is Some,
    ensures
        suggestion(a + " "@ + b, entries) is Some,
        suggestion(b + " "@ + a, entries) is Some,
{
    law_suggestion_names_the_first_hits(a, entries);
    law_suggestion_names_the_first_hits(a + " "@ + b, entries);
    let i = choose|i: int| 0 <= i < entries.len() && is_hit(a, #[trigger] entries[i]);
    lemma_hit_by_either(a, b, entries[i]);
    law_suggestion_ignores_word_order(a, b, entries);
}

/// Method, path and parameters of the tools do not matter for what is suggested.
pub proof fn law_suggestion_looks_at_names_and_descriptions(
    instruction: Seq<char>,
    tools: Seq<ToolView>,
    others: Seq<ToolView>,
)
    requires
        tools.len() == others.len(),
        forall|i: int|
            0 <= i < tools.len() ==> (#[trigger] tools[i]).name == others[i].name
                && tools[i].description == others[i].description,
    ensures
        suggestion(lowercase(instruction), search_entries(tools)) == suggestion(
            lowercase(instruction),
            search_entries(others),
        ),
{
    assert(search_entries(tools) =~= search_entries(others));
}

// ---------------------------------------------------------------------------------------------
// Path parameters and paths
// ---------------------------------------------------------------------------------------------

/// The first member that is left after filtering, among members put in front of a last one.
proof fn lemma_member_push(
    members: Seq<(Seq<char>, JsonView)>,
    last: (Seq<char>, JsonView),
    key: Seq<char>,
)
    ensures
        member(members.push(last), key) == (match member(members, key) {
            Some(value) => Some(value),
            None => if last.0 == key {
                Some(last.1)
            } else {
                None
            },
        }),
    decreases members.len(),
{
    let whole = members.push(last);
    if members.len() == 0 {
        assert(whole[0] == last);
        assert(whole.skip(1) =~= Seq::empty());
        assert(member(whole.skip(1), key) is None);
    } else {
        assert(whole[0] == members[0]);
        assert(whole.skip(1) =~= members.skip(1).push(last));
        lemma_member_push(members.skip(1), last, key);
    }
}

/// What is looked up in the members that are no path parameters.
proof fn lemma_member_without(
    members: Seq<(Seq<char>, JsonView)>,
    path_params: Seq<Seq<char>>,
    key: Seq<char>,
)
    ensures
        member(without_params(members, path_params), key) == (if path_params.contains(key) {
            None
        } else {
            member(members, key)
        }),
    decreases members.len(),
{
    reveal(Seq::filter);
    if members.len() > 0 {
        let front = members.drop_last();
        let last = members.last();
        lemma_member_without(front, path_params, key);
        assert(front.push(last) =~= members);
        lemma_member_push(front, last, key);
        lemma_member_push(without_params(front, path_params), last, key);
    }
}

/// Stripping takes away the path parameters and nothing else: no path parameter can be looked up
/// any more, and everything else is what it was.
pub proof fn law_stripping_removes_the_path_params_only(
    args: JsonView,
    path_params: Seq<Seq<char>>,
    key: Seq<char>,
)
    ensures
        lookup(stripped(args, path_params), key) == (if path_params.contains(key) {
            None
        } else {
            lookup(args, key)
        }),
{
    match args {
        JsonView::Object(members) => {
            lemma_member_without(members, path_params, key);
        },
        _ => {},
    }
}

/// The members that a second stripping would keep are those of the first.
proof fn lemma_without_twice(members: Seq<(Seq<char>, JsonView)>, path_params: Seq<Seq<char>>)
    ensures
        without_params(without_params(members, path_params), path_params) == without_params(
            members,
            path_params,
        ),
    decreases members.len(),
{
    reveal(Seq::filter);
    if members.len() > 0 {
        let front = members.drop_last();
        let kept = without_params(front, path_params);
        lemma_without_twice(front, path_params);
        if !path_params.contains(members.last().0) {
            assert(kept.push(members.last()).drop_last() =~= kept);
        }
    }
}

/// Stripping twice is stripping once, and always gives an object.
pub proof fn law_stripping_is_idempotent(args: JsonView, path_params: Seq<Seq<char>>)
    ensures
        stripped(stripped(args, path_params), path_params) == stripped(args, path_params),
        stripped(args, path_params) is Object,
{
    reveal(Seq::filter);
    match args {
        JsonView::Object(members) => {
            lemma_without_twice(members, path_params);
        },
        _ => {},
    }
}

/// The body of a call holds no path parameter.
pub proof fn law_body_holds_no_path_param(tool: ToolView, params: JsonView, k: int)
    requires
        0 <= k < tool.params.len(),
    ensures
        call_body(tool, params) matches Some(body) ==> lookup(body, tool.params[k]) is None,
{
    assert(tool.params.contains(tool.params[k]));
    law_stripping_removes_the_path_params_only(params, tool.params, tool.params[k]);
}

/// Whether a character can stand in an encoded value.
pub open spec fn inert(c: char) -> bool {
    unreserved(c) || c == '%'
}

/// A hexadecimal digit is a digit or a letter.
proof fn lemma_upper_hex(n: nat)
    requires
        n < 16,
    ensures
        unreserved(upper_hex(n)),
{
}

/// An encoded byte is made of inert characters.
proof fn lemma_percent_inert(byte: u8)
    ensures
        forall|i: int| 0 <= i < percent(byte).len() ==> inert(#[trigger] percent(byte)[i]),
{
    lemma_upper_hex((byte / 16) as nat);
    lemma_upper_hex((byte % 16) as nat);
}

/// Encoded bytes are made of inert characters.
proof fn lemma_percent_all_inert(bytes: Seq<u8>)
    ensures
        forall|i: int| 0 <= i < percent_all(bytes).len() ==> inert(#[trigger] percent_all(bytes)[i]),
    decreases bytes.len(),
{
    if bytes.len() > 0 {
        let front = percent_all(bytes.drop_last());
        lemma_percent_all_inert(bytes.drop_last());
        lemma_percent_inert(bytes.last());
        assert forall|i: int| 0 <= i < percent_all(bytes).len() implies inert(
            #[trigger] percent_all(bytes)[i],
        ) by {
            if i < front.len() {
                assert(percent_all(bytes)[i] == front[i]);
            } else {
                assert(percent_all(bytes)[i] == percent(bytes.last())[i - front.len()]);
            }
        }
    }
}

/// An encoded value holds letters, digits, `-`, `_`, `.`, `~` and `%` only: no slash, question
/// mark, hash sign or colon.
pub proof fn law_encoded_values_are_inert(s: Seq<char>)
    ensures
        forall|i: int| 0 <= i < url_encoded(s).len() ==> inert(#[trigger] url_encoded(s)[i]),
        !inert('/') && !inert('?') && !inert('#') && !inert(':'),
{
    lemma_percent_all_inert(encode_utf8(s));
}

/// What does not stand in a text is counted zero times.
proof fn lemma_count_zero(s: Seq<char>, c: char)
    requires
        forall|i: int| 0 <= i < s.len() ==> #[trigger] s[i] != c,
    ensures
        count(s, c) == 0,
    decreases s.len(),
{
    if s.len() > 0 {
        assert forall|i: int| 0 <= i < s.skip(1).len() implies #[trigger] s.skip(1)[i] != c by {
            assert(s.skip(1)[i] == s[i + 1]);
        }
        lemma_count_zero(s.skip(1), c);
    }
}

/// No parameter can inject structure into a path: filling the placeholders adds no character that
/// has a meaning in a URL, be it a slash, a question mark or a hash sign, and takes none away but
/// those of the placeholders themselves. So a path keeps its slashes, one for one, where no
/// parameter has a slash in its name. A value of `.` or `..` is inert too and stands as it is; a
/// call with such a value is refused.
pub proof fn law_parameters_cannot_inject(
    path: Seq<char>,
    names: Seq<Seq<char>>,
    params: JsonView,
    c: char,
)
    requires
        !inert(c),
    ensures
        count(filled_path(path, names, params), c) <= count(path, c),
        c != ':' && (forall|k: int| 0 <= k < names.len() ==> !(#[trigger] names[k]).contains(c))
            ==> count(filled_path(path, names, params), c) == count(path, c),
    decreases names.len(),
{
    if names.len() > 0 {
        let name = names.last();
        let front = names.drop_last();
        law_parameters_cannot_inject(path, front, params, c);
        if c != ':' && forall|k: int| 0 <= k < names.len() ==> !(#[trigger] names[k]).contains(c) {
            assert forall|k: int| 0 <= k < front.len() implies !(#[trigger] front[k]).contains(
                c,
            ) by {
                assert(front[k] == names[k]);
            }
            assert(!names[names.len() - 1].contains(c));
            let pattern = seq![':'] + name;
            assert forall|i: int| 0 <= i < pattern.len() implies #[trigger] pattern[i] != c by {
                if i > 0 {
                    assert(pattern[i] == name[i - 1]);
                    assert(name.contains(name[i - 1]));
                }
            }
            lemma_count_zero(pattern, c);
        }
        if lookup(params, name) is Some {
            let raw = param_text(lookup(params, name)->0);
            law_encoded_values_are_inert(raw);
            lemma_count_zero(url_encoded(raw), c);
            law_replacing_adds_no_foreign_character(
                filled_path(path, front, params),
                seq![':'] + name,
                url_encoded(raw),
                c,
            );
        }
    }
}

/// A required parameter is reported as missing exactly where one is not given; it is the first such
/// parameter of the tool.
pub proof fn law_missing_parameters_are_found(names: Seq<Seq<char>>, params: JsonView)
    ensures
        first_not_given(names, params) is None <==> forall|k: int|
            0 <= k < names.len() ==> is_given(params, #[trigger] names[k]),
        first_not_given(names, params) matches Some(name) ==> names.contains(name) && !is_given(
            params,
            name,
        ),
    decreases names.len(),
{
    if names.len() > 0 {
        let rest = names.skip(1);
        law_missing_parameters_are_found(rest, params);
        assert(forall|k: int| 0 <= k < rest.len() ==> #[trigger] rest[k] == names[k + 1]);
        if is_given(params, names[0]) {
            if first_not_given(rest, params) is Some {
                let k = choose|k: int|
                    0 <= k < rest.len() && rest[k] == first_not_given(rest, params)->0;
                assert(names[k + 1] == rest[k]);
            } else {
                assert forall|k: int| 0 <= k < names.len() implies is_given(
                    params,
                    #[trigger] names[k],
                ) by {
                    if k > 0 {
                        assert(rest[k - 1] == names[k]);
                    }
                }
            }
        } else {
            assert(names.contains(names[0]));
        }
    }
}

/// A parameter is reported as dots exactly where one is given as `.` or `..`.
pub proof fn law_dots_are_found(names: Seq<Seq<char>>, params: JsonView)
    ensures
        first_dots(names, params) is None <==> forall|k: int|
            0 <= k < names.len() ==> !is_dots(params, #[trigger] names[k]),
        first_dots(names, params) matches Some(name) ==> names.contains(name) && is_dots(
            params,
            name,
        ),
    decreases names.len(),
{
    if names.len() > 0 {
        let rest = names.skip(1);
        law_dots_are_found(rest, params);
        assert(forall|k: int| 0 <= k < rest.len() ==> #[trigger] rest[k] == names[k + 1]);
        if !is_dots(params, names[0]) {
            if first_dots(rest, params) is Some {
                let k = choose|k: int|
                    0 <= k < rest.len() && rest[k] == first_dots(rest, params)->0;
                assert(names[k + 1] == rest[k]);
            } else {
                assert forall|k: int| 0 <= k < names.len() implies !is_dots(
                    params,
                    #[trigger] names[k],
                ) by {
                    if k > 0 {
                        assert(rest[k - 1] == names[k]);
                    }
                }
            }
        } else {
            assert(names.contains(names[0]));
        }
    }
}

/// No parameter makes a dot segment: where a call of a tool is valid, none of its path parameters is
/// `.` or `..`, and no segment of the filled path is a dot segment, unless the path of the tool has
/// one itself.
pub proof fn law_valid_paths_have_no_dot_segment(
    tools: Seq<ToolView>,
    name: Seq<char>,
    params: JsonView,
)
    requires
        call_fault(tools, name, params) is None,
    ensures
        tool_named(tools, name) matches Some(tool) ==> {
            &&& !has_dot_segment(tool.path) ==> !has_dot_segment(
                filled_path(tool.path, tool.params, params),
            )
            &&& forall|k: int|
                0 <= k < tool.params.len() ==> !is_dots(params, #[trigger] tool.params[k])
        },
{
    if tool_named(tools, name) is Some {
        law_dots_are_found((tool_named(tools, name)->0).params, params);
    }
}

/// A tool that was found by name is in the menu and has that name; where none is found, no tool of
/// the menu has it.
pub proof fn law_tools_are_found_by_name(tools: Seq<ToolView>, name: Seq<char>)
    ensures
        tool_named(tools, name) matches Some(tool) ==> tools.contains(tool) && tool.name == name,
        tool_named(tools, name) is None <==> forall|i: int|
            0 <= i < tools.len() ==> (#[trigger] tools[i]).name != name,
    decreases tools.len(),
{
    if tools.len() > 0 {
        let rest = tools.skip(1);
        law_tools_are_found_by_name(rest, name);
        assert(forall|i: int| 0 <= i < rest.len() ==> #[trigger] rest[i] == tools[i + 1]);
        if tools[0].name == name {
            assert(tools.contains(tools[0]));
        } else {
            if tool_named(rest, name) is Some {
                let k = choose|k: int|
                    0 <= k < rest.len() && rest[k] == tool_named(rest, name)->0;
                assert(tools[k + 1] == rest[k]);
            }
            if forall|i: int| 0 <= i < rest.len() ==> (#[trigger] rest[i]).name != name {
                assert forall|i: int| 0 <= i < tools.len() implies (#[trigger] tools[i]).name
                    != name by {
                    if i > 0 {
                        assert(rest[i - 1] == tools[i]);
                    }
                }
            }
        }
    }
}

// ---------------------------------------------------------------------------------------------
// Keyword routing
// ---------------------------------------------------------------------------------------------

/// White space put around an instruction does not change where its keywords lead.
pub proof fn law_keywords_ignore_surrounding_white_space(
    before: Seq<char>,
    instruction: Seq<char>,
    after: Seq<char>,
)
    requires
        forall|i: int| 0 <= i < before.len() ==> white(#[trigger] before[i]),
        forall|i: int| 0 <= i < after.len() ==> white(#[trigger] after[i]),
    ensures
        keyword_routing(before + instruction + after) == keyword_routing(instruction),
        keyword_routing(trimmed(instruction)) == keyword_routing(instruction),
{
    law_trim_ignores_surrounding_white_space(before, instruction, after);
    law_trim_is_idempotent(instruction);
}

/// The keyword table has fifteen rows, for these tools, in this order.
pub proof fn law_keyword_table_is_in_order()
    ensures
        keyword_table().len() == 15,
        keyword_table()[0].tool == "cvg_health"@,
        keyword_table()[1].tool == "cvg_doctor_run"@,
        keyword_table()[2].tool == "cvg_list_plans"@,
        keyword_table()[3].tool == "cvg_start_plan"@,
        keyword_table()[4].tool == "cvg_cancel_plan"@,
        keyword_table()[5].tool == "cvg_resume_plan"@,
        keyword_table()[6].tool == "cvg_get_plan"@,
        keyword_table()[7].tool == "cvg_validate_plan"@,
        keyword_table()[8].tool == "cvg_spawn_agent"@,
        keyword_table()[9].tool == "cvg_list_agent_catalog"@,
        keyword_table()[10].tool == "cvg_list_orgs"@,
        keyword_table()[11].tool == "cvg_knowledge_search"@,
        keyword_table()[12].tool == "cvg_who"@,
        keyword_table()[13].tool == "cvg_health"@,
        keyword_table()[14].tool == "cvg_cost_summary"@,
{
}

/// The first row with a match decides, whatever the rows after it match.
pub proof fn law_first_row_decides(
    table: Seq<KeywordView>,
    found: Seq<Option<Seq<Option<Seq<char>>>>>,
    i: int,
)
    requires
        0 <= i < table.len(),
        i < found.len(),
        found[i] is Some,
        forall|j: int| 0 <= j < i ==> #[trigger] found[j] is None,
    ensures
        first_route(table, found) == Some((table[i].tool, extracted(table[i].extract, found[i]->0))),
    decreases i,
{
    if i > 0 {
        assert(found[0] is None);
        assert forall|j: int| 0 <= j < i - 1 implies #[trigger] found.skip(1)[j] is None by {
            assert(found.skip(1)[j] == found[j + 1]);
        }
        law_first_row_decides(table.skip(1), found.skip(1), i - 1);
    }
}

/// A route leads to the tool of a row that has a match, with the parameters of that match.
proof fn lemma_route_is_of_a_row(
    table: Seq<KeywordView>,
    found: Seq<Option<Seq<Option<Seq<char>>>>>,
) -> (i: int)
    requires
        first_route(table, found) is Some,
    ensures
        0 <= i < table.len(),
        i < found.len(),
        found[i] is Some,
        first_route(table, found) == Some((table[i].tool, extracted(table[i].extract, found[i]->0))),
    decreases table.len(),
{
    if found[0] is Some {
        0
    } else {
        let i = lemma_route_is_of_a_row(table.skip(1), found.skip(1));
        i + 1
    }
}

/// Keywords lead to a tool of the keyword table whose regex matches the instruction, with an
/// object of parameters; where no regex of the table matches, they lead nowhere.
pub proof fn law_keywords_lead_to_a_matching_row(instruction: Seq<char>)
    ensures
        ({
            let found = keyword_matches(trimmed(instruction));
            &&& keyword_routing(instruction) matches Some((tool, params)) ==> params is Object
                && exists|i: int|
                0 <= i < keyword_table().len() && #[trigger] found[i] is Some
                    && keyword_table()[i].tool == tool
            &&& keyword_routing(instruction) is None <==> forall|i: int|
                0 <= i < keyword_table().len() ==> #[trigger] found[i] is None
        }),
{
    let found = keyword_matches(trimmed(instruction));
    if keyword_routing(instruction) is Some {
        let i = lemma_route_is_of_a_row(keyword_table(), found);
        assert(found[i] is Some);
    } else {
        assert forall|i: int| 0 <= i < keyword_table().len() implies #[trigger] found[i] is None by {
            lemma_no_route(keyword_table(), found, i);
        }
    }
}

/// Where there is no route, no row has a match.
proof fn lemma_no_route(
    table: Seq<KeywordView>,
    found: Seq<Option<Seq<Option<Seq<char>>>>>,
    i: int,
)
    requires
        first_route(table, found) is None,
        0 <= i < table.len(),
        i < found.len(),
    ensures
        found[i] is None,
    decreases i,
{
    if i > 0 {
        lemma_no_route(table.skip(1), found.skip(1), i - 1);
        assert(found.skip(1)[i - 1] == found[i]);
    }
}

/// The number of a plan comes through: its decimal text in the first group gives that number.
pub proof fn law_plan_numbers_come_through(whole: Option<Seq<char>>, n: int)
    requires
        0 <= n <= i64::MAX,
    ensures
        lookup(
            extracted(Extract::PlanId, seq![whole, Some(signed_decimal(n))]),
            "plan_id"@,
        ) == Some(int_number(n)),
{
    law_integers_read_back(n);
    let groups = seq![whole, Some(signed_decimal(n))];
    assert(groups[1] == Some(signed_decimal(n)));
}

// ---------------------------------------------------------------------------------------------
// Objects
// ---------------------------------------------------------------------------------------------

/// What is left of members with unique keys has unique keys, and holds no key that was not there.
proof fn lemma_without_keeps_unique(members: Seq<(Seq<char>, JsonView)>, path_params: Seq<Seq<char>>)
    requires
        unique_keys(members),
        forall|i: int| 0 <= i < members.len() ==> well_formed((#[trigger] members[i]).1),
    ensures
        unique_keys(without_params(members, path_params)),
        forall|i: int|
            0 <= i < without_params(members, path_params).len() ==> members.contains(
                #[trigger] without_params(members, path_params)[i],
            ),
        forall|i: int|
            0 <= i < without_params(members, path_params).len() ==> well_formed(
                (#[trigger] without_params(members, path_params)[i]).1,
            ),
    decreases members.len(),
{
    reveal(Seq::filter);
    if members.len() > 0 {
        let front = members.drop_last();
        let last = members.last();
        let kept = without_params(front, path_params);
        let all = without_params(members, path_params);
        assert forall|i: int| 0 <= i < front.len() implies well_formed((#[trigger] front[i]).1) by {
            assert(front[i] == members[i]);
        }
        lemma_without_keeps_unique(front, path_params);
        assert forall|i: int| 0 <= i < kept.len() implies (#[trigger] kept[i]).0 != last.0
            && members.contains(kept[i]) by {
            let k = choose|k: int| 0 <= k < front.len() && front[k] == kept[i];
            assert(members[k] == kept[i]);
        }
        if !path_params.contains(last.0) {
            assert(all =~= kept.push(last));
            assert(members[members.len() - 1] == last);
        } else {
            assert(all =~= kept);
        }
    }
}

/// Stripping keeps the keys of every object unique.
pub proof fn law_stripping_keeps_objects_well_formed(args: JsonView, path_params: Seq<Seq<char>>)
    requires
        well_formed(args),
    ensures
        well_formed(stripped(args, path_params)),
{
    match args {
        JsonView::Object(members) => {
            lemma_without_keeps_unique(members, path_params);
        },
        _ => {},
    }
}

/// The parameters that keywords give have unique keys.
pub proof fn law_keyword_params_are_well_formed(instruction: Seq<char>)
    ensures
        keyword_routing(instruction) matches Some((_, params)) ==> well_formed(params),
{
    reveal_with_fuel(well_formed, 2);
    if keyword_routing(instruction) is Some {
        let i = lemma_route_is_of_a_row(keyword_table(), keyword_matches(trimmed(instruction)));
    }
}

/// The bodies of the requests that the engine makes of its own have unique keys.
pub proof fn law_request_bodies_are_well_formed(
    prompt: Seq<char>,
    tier: Tier,
    model: Option<Seq<char>>,
    latency_ms: u64,
)
    ensures
        well_formed(inference_body(prompt, tier)),
        well_formed(usage_body(model, latency_ms)),
{
    reveal_with_fuel(well_formed, 2);
    reveal_strlit("agent_id");
    reveal_strlit("max_tokens");
    reveal_strlit("prompt");
    reveal_strlit("tier_hint");
    assert("agent_id"@.len() == 8);
    assert("max_tokens"@.len() == 10);
    assert("prompt"@.len() == 6);
    assert("tier_hint"@.len() == 9);
    reveal_strlit("agent");
    reveal_strlit("cost_usd");
    reveal_strlit("execution_host");
    reveal_strlit("input_tokens");
    reveal_strlit("model");
    reveal_strlit("output_tokens");
    assert("agent"@.len() == 5 && "agent"@[0] == 'a');
    assert("cost_usd"@.len() == 8);
    assert("execution_host"@.len() == 14);
    assert("input_tokens"@.len() == 12);
    assert("model"@.len() == 5 && "model"@[0] == 'm');
    assert("output_tokens"@.len() == 13);
}

/// An entry of the audit log has unique keys.
proof fn lemma_log_entry_well_formed(row: LogRowView)
    ensures
        well_formed(log_entry(row)),
{
    reveal_with_fuel(well_formed, 2);
    reveal_strlit("id");
    reveal_strlit("instruction");
    reveal_strlit("latency_ms");
    reveal_strlit("params_json");
    reveal_strlit("routing_method");
    reveal_strlit("success");
    reveal_strlit("timestamp");
    reveal_strlit("tool_chosen");
    assert("id"@.len() == 2);
    assert("instruction"@.len() == 11 && "instruction"@[0] == 'i');
    assert("latency_ms"@.len() == 10);
    assert("params_json"@.len() == 11 && "params_json"@[0] == 'p');
    assert("routing_method"@.len() == 14);
    assert("success"@.len() == 7);
    assert("timestamp"@.len() == 9);
    assert("tool_chosen"@.len() == 11 && "tool_chosen"@[0] == 't');
}

/// The entries of the audit log have unique keys.
proof fn lemma_log_entries_well_formed(rows: Seq<Option<LogRowView>>)
    ensures
        forall|i: int|
            0 <= i < log_entries(rows).len() ==> well_formed(#[trigger] log_entries(rows)[i]),
    decreases rows.len(),
{
    if rows.len() > 0 {
        let before = log_entries(rows.drop_last());
        lemma_log_entries_well_formed(rows.drop_last());
        if rows.last() is Some {
            lemma_log_entry_well_formed(rows.last()->0);
        }
        assert forall|i: int| 0 <= i < log_entries(rows).len() implies well_formed(
            #[trigger] log_entries(rows)[i],
        ) by {
            if i < before.len() {
                assert(log_entries(rows)[i] == before[i]);
            }
        }
    }
}

/// The answers that are sent back have unique keys, where the parameters and the result that they
/// carry have.
pub proof fn law_answers_are_well_formed(
    response: ResponseView,
    rows: Seq<Option<LogRowView>>,
)
    requires
        response.params matches Some(value) ==> well_formed(value),
        response.result matches Some(value) ==> well_formed(value),
    ensures
        well_formed(response_body(response)),
        well_formed(log_listing(log_entries(rows))),
{
    reveal_with_fuel(well_formed, 2);
    reveal_strlit("error");
    reveal_strlit("params");
    reveal_strlit("result");
    reveal_strlit("routing_latency_ms");
    reveal_strlit("routing_model");
    reveal_strlit("suggestion");
    reveal_strlit("tool_used");
    assert("error"@.len() == 5);
    assert("params"@.len() == 6 && "params"@[0] == 'p');
    assert("result"@.len() == 6 && "result"@[0] == 'r');
    assert("routing_latency_ms"@.len() == 18);
    assert("routing_model"@.len() == 13);
    assert("suggestion"@.len() == 10);
    assert("tool_used"@.len() == 9);
    reveal_strlit("count");
    reveal_strlit("entries");
    assert("count"@.len() == 5);
    assert("entries"@.len() == 7);
    lemma_log_entries_well_formed(rows);
}

// ---------------------------------------------------------------------------------------------
// Routing
// ---------------------------------------------------------------------------------------------

/// The prompt that a request carries in its body.
pub open spec fn prompt_in(request: RequestView) -> Option<Seq<char>> {
    match request.body {
        Some(body) => match lookup(body, "prompt"@) {
            Some(JsonView::Text(prompt)) => Some(prompt),
            _ => None,
        },
        None => None,
    }
}

/// The prompt in the body of a call of the model.
proof fn lemma_prompt_in_body(prompt: Seq<char>, tier: Tier)
    ensures
        lookup(inference_body(prompt, tier), "prompt"@) == Some(JsonView::Text(prompt)),
{
    reveal_strlit("agent_id");
    reveal_strlit("max_tokens");
    reveal_strlit("prompt");
    assert("agent_id"@.len() == 8);
    assert("max_tokens"@.len() == 10);
    assert("prompt"@.len() == 6);
    let members = inference_body(prompt, tier)->Object_0;
    reveal_with_fuel(member, 3);
    assert(members.skip(1)[0] == members[1]);
    assert(members.skip(1).skip(1)[0] == members[2]);
}

/// The model is shown the instruction and every tool of the menu: unless the circuit is open, the
/// first request asks the routing model, with a prompt in which they stand.
pub proof fn law_model_sees_every_tool(
    engine: EngineView,
    instruction: Seq<char>,
    context: Option<JsonView>,
    i: int,
)
    requires
        engine.tool_menu_prompt == menu_prompt(engine.tool_menu),
        0 <= i < engine.tool_menu.len(),
    ensures
        match first_step(engine, instruction, context, false) {
            StepView::Send { request, pending } => {
                &&& prompt_in(request) is Some
                &&& request == inference_request(engine, prompt_in(request)->0, Tier::Routing)
                &&& occurs(prompt_in(request)->0, instruction)
                &&& occurs(prompt_in(request)->0, engine.tool_menu[i].name)
                &&& occurs(prompt_in(request)->0, engine.tool_menu[i].description)
                &&& pending.stage is Inference
            },
            StepView::Done { .. } => false,
        },
{
    let menu = engine.tool_menu_prompt;
    let prompt = routing_prompt(menu, instruction, context);
    lemma_prompt_in_body(prompt, Tier::Routing);
    law_prompt_holds_what_it_is_made_of(menu, instruction, context);
    law_menu_lists_every_tool(engine.tool_menu, i);
    lemma_occurs_within(prompt, menu, engine.tool_menu[i].name);
    lemma_occurs_within(prompt, menu, engine.tool_menu[i].description);
}

/// While the circuit is open no model is asked: the first request is none to a model, and where a
/// request is none, neither is any that follows it.
pub proof fn law_open_circuit_asks_no_model(
    engine: EngineView,
    instruction: Seq<char>,
    context: Option<JsonView>,
    pending: PendingView,
    outcome: OutcomeView,
    parsed: Result<RoutingView, Seq<char>>,
    elapsed_ms: u64,
)
    ensures
        first_step(engine, instruction, context, true) matches StepView::Send { pending: first, .. }
            && !asks_model(first.stage),
        !asks_model(pending.stage) ==> match next_step(
            engine,
            pending,
            outcome,
            parsed,
            elapsed_ms,
        ) {
            StepView::Send { pending: next, .. } => !asks_model(next.stage),
            StepView::Done { .. } => true,
        },
{
}

/// The first call of a model with a prompt; the local model is called after an error of the other.
pub open spec fn first_call(tier: Tier, prompt: Seq<char>, error: Seq<char>) -> StageView {
    match tier {
        Tier::Routing => StageView::Inference { prompt },
        Tier::Local => StageView::Local { prompt, error },
    }
}

/// The second call of a model repeats the prompt of the first and shows it the reply that could
/// not be parsed.
pub proof fn law_retry_shows_the_rejected_reply(
    engine: EngineView,
    instruction: Seq<char>,
    tier: Tier,
    prompt: Seq<char>,
    failure: Seq<char>,
    outcome: OutcomeView,
    error: Seq<char>,
    elapsed_ms: u64,
)
    ensures
        inference_answer(outcome) matches Ok((content, model)) ==> match next_step(
            engine,
            PendingView { instruction, stage: first_call(tier, prompt, failure) },
            outcome,
            Err(error),
            elapsed_ms,
        ) {
            StepView::Send { request, pending: next } => {
                &&& next == (PendingView { instruction, stage: StageView::Retry { model, chosen: None } })
                &&& prompt_in(request) is Some
                &&& request == inference_request(engine, prompt_in(request)->0, tier)
                &&& begins_with(prompt_in(request)->0, prompt)
                &&& occurs(prompt_in(request)->0, content)
            },
            StepView::Done { .. } => false,
        },
{
    if inference_answer(outcome) is Ok {
        let content = (inference_answer(outcome)->Ok_0).0;
        let again = retry_prompt(prompt, content);
        lemma_prompt_in_body(again, tier);
        assert(again.take(prompt.len() as int) =~= prompt);
        lemma_occurs_between(
            prompt + "\n\nPrevious response was invalid JSON: "@,
            content,
            "\n\nRespond ONLY with valid JSON."@,
        );
    }
}

/// A first reply that asks for a call with a fault, such as a required parameter that is missing,
/// goes back to the model that gave it, with the fault in the prompt. The tool is not called.
pub proof fn law_faulty_call_is_sent_back(
    engine: EngineView,
    instruction: Seq<char>,
    tier: Tier,
    prompt: Seq<char>,
    failure: Seq<char>,
    outcome: OutcomeView,
    routing: RoutingView,
    elapsed_ms: u64,
)
    requires
        inference_answer(outcome) matches Ok((content, _)) && routing_json(content) is Some,
        routing.tool matches Some(name) && call_fault(
            engine.tool_menu,
            name,
            given_params(routing),
        ) is Some,
    ensures
        match next_step(
            engine,
            PendingView { instruction, stage: first_call(tier, prompt, failure) },
            outcome,
            Ok(routing),
            elapsed_ms,
        ) {
            StepView::Send { request, pending: next } => {
                &&& next.stage is Retry
                &&& prompt_in(request) is Some
                &&& request == inference_request(engine, prompt_in(request)->0, tier)
                &&& begins_with(prompt_in(request)->0, prompt)
                &&& occurs(
                    prompt_in(request)->0,
                    call_fault(engine.tool_menu, routing.tool->0, given_params(routing))->0,
                )
            },
            StepView::Done { .. } => false,
        },
{
    let content = (inference_answer(outcome)->Ok_0).0;
    let fault = call_fault(engine.tool_menu, routing.tool->0, given_params(routing))->0;
    let again = fault_prompt(prompt, content, fault);
    lemma_prompt_in_body(again, tier);
    assert(again.take(prompt.len() as int) =~= prompt);
    lemma_occurs_between(
        prompt + "\n\nPrevious response was invalid: "@ + content + "\n\n"@,
        fault,
        "\n\nRespond ONLY with valid JSON."@,
    );
}

/// Whether a response reports an error with something to try in its place, and no use of a tool.
pub open spec fn suggests_after_error(response: ResponseView) -> bool {
    &&& response.error is Some
    &&& response.suggestion is Some
    &&& response.tool_used is None
    &&& response.params is None
    &&& response.result is None
}

/// A retry that fails gives an error with a suggested correction, be it that the model could not be
/// asked, that its reply could not be parsed, or that the call still has a fault. No model is asked
/// again, and no tool is called.
pub proof fn law_failed_retry_suggests_a_correction(
    engine: EngineView,
    instruction: Seq<char>,
    model: Seq<char>,
    chosen: Option<ChoiceView>,
    outcome: OutcomeView,
    parsed: Result<RoutingView, Seq<char>>,
    elapsed_ms: u64,
)
    requires
        match inference_answer(outcome) {
            Err(_) => true,
            Ok((content, _)) => match reply_result(content, parsed) {
                Err(_) => true,
                Ok(routing) => routing.tool matches Some(name) && call_fault(
                    engine.tool_menu,
                    name,
                    given_params(routing),
                ) is Some,
            },
        },
    ensures
        match next_step(
            engine,
            PendingView { instruction, stage: StageView::Retry { model, chosen } },
            outcome,
            parsed,
            elapsed_ms,
        ) {
            StepView::Send { pending: next, .. } => next.stage matches StageView::Usage {
                response,
                ..
            } && suggests_after_error(response),
            StepView::Done { .. } => false,
        },
{
}

/// The most requests that can still follow, counting the pending one.
pub open spec fn requests_left(stage: StageView) -> nat {
    match stage {
        StageView::Inference { .. } => 5,
        StageView::Local { .. } => 4,
        StageView::Retry { .. } => 3,
        StageView::Dispatch { .. } => 2,
        StageView::KeywordDispatch { .. } => 2,
        StageView::Usage { .. } => 1,
    }
}

/// Routing ends: each step leaves fewer requests to send, so that an instruction takes at most
/// five, whatever comes back. It serves the same instruction to the end.
pub proof fn law_routing_ends(
    engine: EngineView,
    pending: PendingView,
    outcome: OutcomeView,
    parsed: Result<RoutingView, Seq<char>>,
    elapsed_ms: u64,
)
    ensures
        next_step(engine, pending, outcome, parsed, elapsed_ms) matches StepView::Send {
            pending: next,
            ..
        } ==> requests_left(next.stage) < requests_left(pending.stage) && next.instruction
            == pending.instruction,
        requests_left(pending.stage) <= 5,
{
}

/// A model is asked at most twice: the routing model is asked first, the local model only where the
/// routing model could not be asked, and one of them a second time only after it replied.
pub proof fn law_model_is_asked_at_most_twice(
    engine: EngineView,
    pending: PendingView,
    outcome: OutcomeView,
    parsed: Result<RoutingView, Seq<char>>,
    elapsed_ms: u64,
)
    ensures
        next_step(engine, pending, outcome, parsed, elapsed_ms) matches StepView::Send {
            pending: next,
            ..
        } ==> {
            &&& next.stage !is Inference
            &&& next.stage is Local ==> pending.stage is Inference && inference_answer(
                outcome,
            ) is Err
            &&& next.stage is Retry ==> (pending.stage is Inference || pending.stage is Local)
                && inference_answer(outcome) is Ok
        },
{
}

/// Where inference is unavailable, the local model is asked first, with the same prompt; where that
/// is unavailable too, the keywords decide; and where they lead nowhere, the response carries the
/// full tool list.
pub proof fn law_fallback_goes_in_order(
    engine: EngineView,
    instruction: Seq<char>,
    prompt: Seq<char>,
    error: Seq<char>,
    outcome: OutcomeView,
    parsed: Result<RoutingView, Seq<char>>,
    elapsed_ms: u64,
)
    requires
        inference_answer(outcome) is Err,
    ensures
        next_step(
            engine,
            PendingView { instruction, stage: StageView::Inference { prompt } },
            outcome,
            parsed,
            elapsed_ms,
        ) == (StepView::Send {
            request: inference_request(engine, prompt, Tier::Local),
            pending: PendingView {
                instruction,
                stage: StageView::Local { prompt, error: inference_answer(outcome)->Err_0 },
            },
        }),
        next_step(
            engine,
            PendingView { instruction, stage: StageView::Local { prompt, error } },
            outcome,
            parsed,
            elapsed_ms,
        ) == keyword_step(engine, instruction, error, elapsed_ms),
        keyword_routing(instruction) is None ==> keyword_step(
            engine,
            instruction,
            error,
            elapsed_ms,
        ) == usage_step(
            engine,
            instruction,
            listing_answer(engine, error, None, elapsed_ms),
            None,
        ),
        suggests_after_error(listing_answer(engine, error, None, elapsed_ms)),
        listing_answer(engine, error, None, elapsed_ms).suggestion == Some(engine.tool_menu_prompt),
{
}

/// Every routing is reported exactly once: it ends right after a report to the daemon, and a report
/// is followed by nothing but the end.
pub proof fn law_every_routing_is_reported_once(
    engine: EngineView,
    instruction: Seq<char>,
    context: Option<JsonView>,
    circuit_open: bool,
    pending: PendingView,
    outcome: OutcomeView,
    parsed: Result<RoutingView, Seq<char>>,
    elapsed_ms: u64,
)
    ensures
        first_step(engine, instruction, context, circuit_open) matches StepView::Send {
            request,
            pending: first,
        } && (first.stage is Usage ==> is_report(engine, request)),
        next_step(engine, pending, outcome, parsed, elapsed_ms) is Done
            <==> pending.stage is Usage,
        next_step(engine, pending, outcome, parsed, elapsed_ms) matches StepView::Send {
            request,
            pending: next,
        } ==> (next.stage is Usage ==> is_report(engine, request)),
{
}

/// Whether a request reports a routing to the daemon.
pub open spec fn is_report(engine: EngineView, request: RequestView) -> bool {
    request.method == HttpMethod::Post && request.url == engine.daemon_url
        + "/api/tracking/tokens"@
}

/// The tool that was chosen by the time a request is pending.
pub open spec fn chosen_in(stage: StageView) -> Option<ChoiceView> {
    match stage {
        StageView::Inference { .. } => None,
        StageView::Local { .. } => None,
        StageView::Retry { chosen, .. } => chosen,
        StageView::KeywordDispatch { choice } => Some(choice),
        StageView::Dispatch { choice, .. } => Some(choice),
        StageView::Usage { chosen, .. } => chosen,
    }
}

/// What is decided once the outcome of a request is known: what the model chose, where the outcome
/// holds a reply of it that could be parsed; what the keywords chose, where the last model could not
/// be asked; else what was decided before.
pub open spec fn decision(
    pending: PendingView,
    outcome: OutcomeView,
    parsed: Result<RoutingView, Seq<char>>,
    before: Option<ChoiceView>,
) -> Option<ChoiceView> {
    if asks_model(pending.stage) {
        match inference_answer(outcome) {
            Ok((content, _)) => match reply_result(content, parsed) {
                Ok(routing) => model_choice(routing),
                Err(_) => before,
            },
            Err(_) => if pending.stage is Local {
                keyword_choice(pending.instruction)
            } else {
                before
            },
        }
    } else {
        before
    }
}

/// The choice is kept from the reply or the keywords that made it to the record, whether or not the
/// tool was called, and whatever came of the call.
proof fn lemma_choice_is_kept(
    engine: EngineView,
    pending: PendingView,
    outcome: OutcomeView,
    parsed: Result<RoutingView, Seq<char>>,
    elapsed_ms: u64,
)
    ensures
        match next_step(engine, pending, outcome, parsed, elapsed_ms) {
            StepView::Send { pending: next, .. } => {
                &&& next.instruction == pending.instruction
                &&& chosen_in(next.stage) == decision(
                    pending,
                    outcome,
                    parsed,
                    chosen_in(pending.stage),
                )
            },
            StepView::Done { response, record } => {
                &&& record == decision_record(
                    pending.instruction,
                    chosen_in(pending.stage),
                    response,
                )
                &&& decision(pending, outcome, parsed, chosen_in(pending.stage)) == chosen_in(
                    pending.stage,
                )
            },
        },
{
}

/// What came of a request: the outcome, what the JSON parser made of the reply in it, and the time
/// that has passed.
pub struct Event {
    pub outcome: OutcomeView,
    pub parsed: Result<RoutingView, Seq<char>>,
    pub elapsed_ms: u64,
}

/// The step that routing has come to after some events; nothing follows the end.
pub open spec fn routed(engine: EngineView, first: StepView, events: Seq<Event>) -> StepView
    decreases events.len(),
{
    if events.len() == 0 {
        first
    } else {
        let e = events.last();
        match routed(engine, first, events.drop_last()) {
            StepView::Send { pending, .. } => next_step(
                engine,
                pending,
                e.outcome,
                e.parsed,
                e.elapsed_ms,
            ),
            StepView::Done { response, record } => StepView::Done { response, record },
        }
    }
}

/// What routing has decided after some events, from what was decided at first.
pub open spec fn decided(
    engine: EngineView,
    first: StepView,
    at_first: Option<ChoiceView>,
    events: Seq<Event>,
) -> Option<ChoiceView>
    decreases events.len(),
{
    if events.len() == 0 {
        at_first
    } else {
        let e = events.last();
        let before = decided(engine, first, at_first, events.drop_last());
        match routed(engine, first, events.drop_last()) {
            StepView::Send { pending, .. } => decision(pending, e.outcome, e.parsed, before),
            StepView::Done { .. } => before,
        }
    }
}

/// Every decision is taken down. Wherever routing ends, its record holds the instruction, and the
/// tool that was chosen last, by a reply of the model that could be parsed or by the keywords, with
/// the compact text of its parameters and the confidence that came with it; whether or not the tool
/// was called, and whether or not the call succeeded. It holds no tool where none was chosen.
pub proof fn law_every_decision_is_taken_down(
    engine: EngineView,
    instruction: Seq<char>,
    context: Option<JsonView>,
    circuit_open: bool,
    events: Seq<Event>,
)
    ensures
        ({
            let first = first_step(engine, instruction, context, circuit_open);
            let at_first = if circuit_open {
                keyword_choice(instruction)
            } else {
                None
            };
            let chosen = decided(engine, first, at_first, events);
            match routed(engine, first, events) {
                StepView::Send { pending, .. } => {
                    &&& pending.instruction == instruction
                    &&& chosen_in(pending.stage) == chosen
                },
                StepView::Done { response, record } => {
                    &&& record == decision_record(instruction, chosen, response)
                    &&& record.instruction == instruction
                    &&& record.success == 1 <==> response.error is None
                    &&& match chosen {
                        Some(choice) => {
                            &&& record.tool_chosen == Some(choice.tool)
                            &&& record.params_json == Some(json_text(choice.params))
                            &&& record.confidence == choice.confidence
                        },
                        None => {
                            &&& record.tool_chosen is None
                            &&& record.params_json is None
                            &&& record.confidence is None
                        },
                    }
                },
            }
        }),
    decreases events.len(),
{
    let first = first_step(engine, instruction, context, circuit_open);
    if events.len() > 0 {
        let e = events.last();
        law_every_decision_is_taken_down(
            engine,
            instruction,
            context,
            circuit_open,
            events.drop_last(),
        );
        match routed(engine, first, events.drop_last()) {
            StepView::Send { pending, .. } => {
                lemma_choice_is_kept(engine, pending, e.outcome, e.parsed, e.elapsed_ms);
            },
            StepView::Done { .. } => {},
        }
    }
}

/// A tool that was chosen is in the record even where its call failed or was never made: so it is
/// where keywords chose it and the daemon did not answer the call, where keywords chose it and the
/// call has a fault, and where the model chose it twice with a fault.
pub proof fn law_failed_calls_are_taken_down(
    engine: EngineView,
    instruction: Seq<char>,
    choice: ChoiceView,
    model: Seq<char>,
    before: Option<ChoiceView>,
    outcome: OutcomeView,
    routing: RoutingView,
    error: Seq<char>,
    elapsed_ms: u64,
)
    ensures
        ends_with_choice(
            next_step(
                engine,
                PendingView { instruction, stage: StageView::KeywordDispatch { choice } },
                outcome,
                Ok(routing),
                elapsed_ms,
            ),
            instruction,
            choice,
        ),
        keyword_choice(instruction) == Some(choice) && call_fault(
            engine.tool_menu,
            choice.tool,
            choice.params,
        ) is Some ==> ends_with_choice(
            keyword_step(engine, instruction, error, elapsed_ms),
            instruction,
            choice,
        ),
        inference_answer(outcome) matches Ok((content, _)) ==> (reply_result(content, Ok(routing))
            is Ok && model_choice(routing) == Some(choice) && call_fault(
            engine.tool_menu,
            choice.tool,
            choice.params,
        ) is Some ==> ends_with_choice(
            next_step(
                engine,
                PendingView { instruction, stage: StageView::Retry { model, chosen: before } },
                outcome,
                Ok(routing),
                elapsed_ms,
            ),
            instruction,
            choice,
        )),
{
}

/// Whether a step reports a routing whose record will hold a choice.
pub open spec fn ends_with_choice(
    step: StepView,
    instruction: Seq<char>,
    choice: ChoiceView,
) -> bool {
    &&& step matches StepView::Send { pending, .. }
    &&& pending.instruction == instruction
    &&& pending.stage is Usage
    &&& chosen_in(pending.stage) == Some(choice)
}

/// Whether a response tells one story: how long it took, and either a result or an error. A tool is
/// named exactly where its parameters are; a result comes from a tool that is named, and a
/// suggestion where no tool was used.
pub open spec fn tells_one_story(response: ResponseView) -> bool {
    &&& response.routing_latency_ms is Some
    &&& response.result is Some <==> response.error is None
    &&& response.tool_used is Some <==> response.params is Some
    &&& response.result is Some ==> response.tool_used is Some
    &&& response.suggestion is Some ==> response.tool_used is None && response.error is Some
}

/// Whether the response that is ready while a request is pending, if one is, tells one story, and
/// names no tool but the one that was chosen.
pub open spec fn is_sound(stage: StageView) -> bool {
    stage matches StageView::Usage { response, chosen } ==> {
        &&& tells_one_story(response)
        &&& response.tool_used matches Some(tool) ==> chosen matches Some(choice) && choice.tool
            == tool && response.params == Some(choice.params)
    }
}

/// Every response that routing gives tells one story, whatever came back on the way to it. The tool
/// that it names, if it names one, is the one that was chosen.
pub proof fn law_responses_tell_one_story(
    engine: EngineView,
    instruction: Seq<char>,
    context: Option<JsonView>,
    circuit_open: bool,
    pending: PendingView,
    outcome: OutcomeView,
    parsed: Result<RoutingView, Seq<char>>,
    elapsed_ms: u64,
)
    ensures
        first_step(engine, instruction, context, circuit_open) matches StepView::Send {
            pending: first,
            ..
        } && is_sound(first.stage),
        is_sound(pending.stage) ==> match next_step(engine, pending, outcome, parsed, elapsed_ms) {
            StepView::Send { pending: next, .. } => is_sound(next.stage),
            StepView::Done { response, .. } => tells_one_story(response),
        },
{
}

/// A text begins with another.
pub open spec fn begins_with(s: Seq<char>, start: Seq<char>) -> bool {
    start.len() <= s.len() && s.take(start.len() as int) == start
}

/// Every request goes to the daemon, with the token of the engine.
pub proof fn law_requests_go_to_the_daemon(
    engine: EngineView,
    instruction: Seq<char>,
    context: Option<JsonView>,
    circuit_open: bool,
    pending: PendingView,
    outcome: OutcomeView,
    parsed: Result<RoutingView, Seq<char>>,
    elapsed_ms: u64,
)
    ensures
        first_step(engine, instruction, context, circuit_open) matches StepView::Send {
            request,
            ..
        } && begins_with(request.url, engine.daemon_url) && request.authorization == bearer(
            engine.api_token,
        ),
        next_step(engine, pending, outcome, parsed, elapsed_ms) matches StepView::Send {
            request,
            ..
        } ==> begins_with(request.url, engine.daemon_url) && request.authorization == bearer(
            engine.api_token,
        ),
{
    assert(forall|path: Seq<char>|
        (#[trigger] (engine.daemon_url + path)).take(engine.daemon_url.len() as int)
            =~= engine.daemon_url);
}

/// Whether a step that calls a tool calls one of the menu, without a fault and with every parameter
/// that it requires, by the request that its entry asks for.
pub open spec fn calls_validly(engine: EngineView, step: StepView) -> bool {
    match step {
        StepView::Send { request, pending } => {
            let called = match pending.stage {
                StageView::Dispatch { choice, .. } => Some(choice),
                StageView::KeywordDispatch { choice } => Some(choice),
                _ => None,
            };
            called matches Some(choice) ==> tool_named(engine.tool_menu, choice.tool) matches Some(
                tool,
            ) && call_fault(engine.tool_menu, choice.tool, choice.params) is None && missing_param(
                tool,
                choice.params,
            ) is None && request == tool_call(
                tool,
                choice.params,
                engine.daemon_url,
                engine.api_token,
            )
        },
        StepView::Done { .. } => true,
    }
}

/// Only tools of the menu are called, each as its entry says and with every parameter that it
/// requires, whether the model or the keywords picked it.
pub proof fn law_only_valid_calls_go_out(
    engine: EngineView,
    instruction: Seq<char>,
    context: Option<JsonView>,
    circuit_open: bool,
    pending: PendingView,
    outcome: OutcomeView,
    parsed: Result<RoutingView, Seq<char>>,
    elapsed_ms: u64,
)
    ensures
        calls_validly(engine, first_step(engine, instruction, context, circuit_open)),
        calls_validly(engine, next_step(engine, pending, outcome, parsed, elapsed_ms)),
{
}

/// Keywords stand in for the models only where none could be asked: such a call follows an open
/// circuit, or a failed call of the local model, and goes where the keywords of the instruction
/// lead.
pub proof fn law_keywords_stand_in_for_the_model(
    engine: EngineView,
    instruction: Seq<char>,
    context: Option<JsonView>,
    circuit_open: bool,
    pending: PendingView,
    outcome: OutcomeView,
    parsed: Result<RoutingView, Seq<char>>,
    elapsed_ms: u64,
)
    ensures
        first_step(engine, instruction, context, circuit_open) matches StepView::Send {
            pending: PendingView { stage: StageView::KeywordDispatch { choice }, .. },
            ..
        } ==> circuit_open && keyword_routing(instruction) == Some((choice.tool, choice.params)),
        next_step(engine, pending, outcome, parsed, elapsed_ms) matches StepView::Send {
            pending: PendingView { stage: StageView::KeywordDispatch { choice }, .. },
            ..
        } ==> {
            &&& inference_answer(outcome) is Err
            &&& pending.stage is Local
            &&& keyword_routing(pending.instruction) == Some((choice.tool, choice.params))
        },
{
}

// ---------------------------------------------------------------------------------------------
// Audit log
// ---------------------------------------------------------------------------------------------

/// The number of rows that could be read.
pub open spec fn readable_rows(rows: Seq<Option<LogRowView>>) -> nat
    decreases rows.len(),
{
    if rows.len() == 0 {
        0
    } else {
        readable_rows(rows.drop_last()) + if rows.last() is Some {
            1nat
        } else {
            0nat
        }
    }
}

/// The listing shows every row that could be read, once.
pub proof fn law_log_shows_every_readable_row(rows: Seq<Option<LogRowView>>)
    ensures
        log_entries(rows).len() == readable_rows(rows),
    decreases rows.len(),
{
    if rows.len() > 0 {
        law_log_shows_every_readable_row(rows.drop_last());
    }
}

/// The row of a record, with the number and the time that the table gives it.
pub open spec fn row_of(record: RecordView, id: i64, timestamp: Seq<char>) -> LogRowView {
    LogRowView {
        id,
        timestamp,
        instruction: record.instruction,
        tool_chosen: record.tool_chosen,
        params_json: record.params_json,
        routing_method: record.routing_method,
        latency_ms: record.latency_ms,
        success: record.success,
    }
}

/// The members of an entry of the audit log, by name.
proof fn lemma_log_entry_members(row: LogRowView)
    ensures
        lookup(log_entry(row), "id"@) == Some(int_number(row.id as int)),
        lookup(log_entry(row), "instruction"@) == Some(JsonView::Text(row.instruction)),
        lookup(log_entry(row), "latency_ms"@) == Some(int_number(row.latency_ms as int)),
        lookup(log_entry(row), "params_json"@) == Some(text_or_null(row.params_json)),
        lookup(log_entry(row), "routing_method"@) == Some(JsonView::Text(row.routing_method)),
        lookup(log_entry(row), "success"@) == Some(JsonView::Bool(row.success == 1)),
        lookup(log_entry(row), "timestamp"@) == Some(JsonView::Text(row.timestamp)),
        lookup(log_entry(row), "tool_chosen"@) == Some(text_or_null(row.tool_chosen)),
{
    reveal_strlit("id");
    reveal_strlit("instruction");
    reveal_strlit("latency_ms");
    reveal_strlit("params_json");
    reveal_strlit("routing_method");
    reveal_strlit("success");
    reveal_strlit("timestamp");
    reveal_strlit("tool_chosen");
    assert("id"@.len() == 2);
    assert("instruction"@.len() == 11 && "instruction"@[0] == 'i');
    assert("latency_ms"@.len() == 10);
    assert("params_json"@.len() == 11 && "params_json"@[0] == 'p');
    assert("routing_method"@.len() == 14);
    assert("success"@.len() == 7);
    assert("timestamp"@.len() == 9);
    assert("tool_chosen"@.len() == 11 && "tool_chosen"@[0] == 't');
    let m0 = log_entry(row)->Object_0;
    let m1 = m0.skip(1);
    let m2 = m1.skip(1);
    let m3 = m2.skip(1);
    let m4 = m3.skip(1);
    let m5 = m4.skip(1);
    let m6 = m5.skip(1);
    let m7 = m6.skip(1);
    assert(m1[0] == m0[1]);
    assert(m2[0] == m0[2]);
    assert(m3[0] == m0[3]);
    assert(m4[0] == m0[4]);
    assert(m5[0] == m0[5]);
    assert(m6[0] == m0[6]);
    assert(m7[0] == m0[7]);
    reveal_with_fuel(member, 9);
}

/// What is taken down of a decision is what the log shows of it: the instruction, the tool and the
/// compact text of its parameters, each `null` where there was none, the method, the latency where
/// an `i64` can hold it, and whether it succeeded.
pub proof fn law_log_shows_what_was_taken_down(
    instruction: Seq<char>,
    tool: Option<Seq<char>>,
    params: Option<JsonView>,
    method: Seq<char>,
    latency_ms: u64,
    success: bool,
    id: i64,
    timestamp: Seq<char>,
)
    ensures
        ({
            let record = record_of(instruction, tool, params, method, latency_ms, success);
            let entry = log_entry(row_of(record, id, timestamp));
            &&& lookup(entry, "id"@) == Some(int_number(id as int))
            &&& lookup(entry, "instruction"@) == Some(JsonView::Text(instruction))
            &&& lookup(entry, "tool_chosen"@) == Some(text_or_null(tool))
            &&& lookup(entry, "params_json"@) == Some(text_or_null(params_text(params)))
            &&& lookup(entry, "routing_method"@) == Some(JsonView::Text(method))
            &&& latency_ms <= i64::MAX ==> lookup(entry, "latency_ms"@) == Some(
                int_number(latency_ms as int),
            )
            &&& lookup(entry, "success"@) == Some(JsonView::Bool(success))
            &&& lookup(entry, "timestamp"@) == Some(JsonView::Text(timestamp))
        }),
{
    let record = record_of(instruction, tool, params, method, latency_ms, success);
    lemma_log_entry_members(row_of(record, id, timestamp));
}

/// The newest rows of a table that holds some records, one row each in the order in which they were
/// taken down, numbered from one: at most as many as asked for, the newest first.
pub open spec fn newest_rows(records: Seq<RecordView>, times: Seq<Seq<char>>, limit: int) -> Seq<
    Option<LogRowView>,
> {
    let shown = if limit < records.len() {
        limit
    } else {
        records.len() as int
    };
    Seq::new(
        shown as nat,
        |j: int|
            Some(
                row_of(
                    records[records.len() - 1 - j],
                    (records.len() - j) as i64,
                    times[records.len() - 1 - j],
                ),
            ),
    )
}

/// The entries of rows that could all be read.
proof fn lemma_entries_of_readable_rows(rows: Seq<Option<LogRowView>>)
    requires
        forall|i: int| 0 <= i < rows.len() ==> #[trigger] rows[i] is Some,
    ensures
        log_entries(rows).len() == rows.len(),
        forall|i: int|
            0 <= i < rows.len() ==> #[trigger] log_entries(rows)[i] == log_entry(rows[i]->0),
    decreases rows.len(),
{
    if rows.len() > 0 {
        let front = rows.drop_last();
        assert forall|i: int| 0 <= i < front.len() implies #[trigger] front[i] is Some by {
            assert(front[i] == rows[i]);
        }
        lemma_entries_of_readable_rows(front);
        assert(rows[rows.len() - 1] is Some);
        assert forall|i: int| 0 <= i < rows.len() implies #[trigger] log_entries(rows)[i]
            == log_entry(rows[i]->0) by {
            if i < front.len() {
                assert(log_entries(rows)[i] == log_entries(front)[i]);
                assert(front[i] == rows[i]);
            }
        }
    }
}

/// The log lists the newest records first: as many as there are, as asked for, and two hundred at
/// most, fifty where no number was asked for; and its count is the number of its entries.
pub proof fn law_log_lists_the_newest_records_first(
    records: Seq<RecordView>,
    times: Seq<Seq<char>>,
    asked_for: Option<i64>,
)
    requires
        records.len() <= i64::MAX,
        times.len() == records.len(),
        asked_for matches Some(n) ==> n >= 0,
    ensures
        ({
            let entries = log_entries(newest_rows(records, times, shown_at_most(asked_for) as int));
            let limit = match asked_for {
                Some(n) => n as int,
                None => 50,
            };
            &&& entries.len() <= records.len() && entries.len() <= limit && entries.len() <= 200
            &&& entries.len() == records.len() || entries.len() == limit || entries.len() == 200
            &&& lookup(log_listing(entries), "count"@) == Some(nat_number(entries.len() as u64))
            &&& lookup(log_listing(entries), "entries"@) == Some(JsonView::Array(entries))
            &&& forall|j: int|
                0 <= j < entries.len() ==> #[trigger] entries[j] == log_entry(
                    row_of(
                        records[records.len() - 1 - j],
                        (records.len() - j) as i64,
                        times[records.len() - 1 - j],
                    ),
                )
        }),
{
    let rows = newest_rows(records, times, shown_at_most(asked_for) as int);
    lemma_entries_of_readable_rows(rows);
    let entries = log_entries(rows);
    reveal_strlit("count");
    reveal_strlit("entries");
    assert("count"@.len() == 5);
    assert("entries"@.len() == 7);
    let members = log_listing(entries)->Object_0;
    assert(members.skip(1)[0] == members[1]);
    reveal_with_fuel(member, 3);
}

} // verus!
