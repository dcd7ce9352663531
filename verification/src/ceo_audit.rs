//! CEO audit trail and circuit breaker for routing reliability.

use vstd::prelude::*;
use vstd::string::*;

use crate::json::{
    int_number, json_text, members_view, nat_number, optional_ref, put, values_view, Json,
    JsonNumber, JsonView, NumberView,
};
use crate::text::{optional_str, optional_text, I64_LIMIT};
use crate::types::{
    copy_number, optional_choice, optional_number, CeoResponse, Choice, ChoiceView, ResponseView,
};

verus! {

// ---------------------------------------------------------------------------------------------
// Schema
// ---------------------------------------------------------------------------------------------

/// A step of the database schema.
#[derive(Debug, Clone, Copy)]
pub struct Migration {
    pub version: u32,
    pub description: &'static str,
    pub up: &'static str,
}

/// The table of the audit log.
pub const ROUTING_LOG_TABLE: &'static str = "CREATE TABLE IF NOT EXISTS ceo_routing_log (
            id INTEGER PRIMARY KEY AUTOINCREMENT,
            timestamp TEXT NOT NULL DEFAULT (datetime('now')),
            instruction TEXT NOT NULL,
            tool_chosen TEXT,
            params_json TEXT,
            routing_method TEXT NOT NULL,
            latency_ms INTEGER NOT NULL,
            success INTEGER NOT NULL DEFAULT 1,
            confidence REAL
        )";

/// The schema of the audit log.
pub fn ceo_audit_migrations() -> (r: Vec<Migration>)
    ensures
        r@.len() == 1,
        r@[0].version == 43,
        r@[0].description@ == "CEO routing audit log"@,
        r@[0].up@ == ROUTING_LOG_TABLE@,
{
    let step = Migration {
        version: 43,
        description: "CEO routing audit log",
        up: ROUTING_LOG_TABLE,
    };
    let mut steps: Vec<Migration> = Vec::new();
    steps.push(step);
    steps
}

// ---------------------------------------------------------------------------------------------
// Audit log
// ---------------------------------------------------------------------------------------------

/// What the audit log takes down of a routing decision, as the columns of its table.
#[derive(Debug)]
pub struct RoutingRecord {
    pub instruction: String,
    pub tool_chosen: Option<String>,
    pub params_json: Option<String>,
    pub routing_method: String,
    pub latency_ms: i64,
    pub success: i32,
    pub confidence: Option<JsonNumber>,
}

/// A latency as a signed column holds it: one that has no `i64` wraps around.
pub open spec fn signed_latency(latency_ms: u64) -> int {
    if latency_ms < I64_LIMIT {
        latency_ms as int
    } else {
        latency_ms - 2 * I64_LIMIT
    }
}

/// The compact JSON text of optional parameters.
pub open spec fn params_text(params: Option<JsonView>) -> Option<Seq<char>> {
    match params {
        Some(value) => Some(json_text(value)),
        None => None,
    }
}

/// What a record of the audit log says.
pub struct RecordView {
    pub instruction: Seq<char>,
    pub tool_chosen: Option<Seq<char>>,
    pub params_json: Option<Seq<char>>,
    pub routing_method: Seq<char>,
    pub latency_ms: i64,
    pub success: i32,
    pub confidence: Option<NumberView>,
}

impl View for RoutingRecord {
    type V = RecordView;

    open spec fn view(&self) -> RecordView {
        RecordView {
            instruction: self.instruction@,
            tool_chosen: optional_text(self.tool_chosen),
            params_json: optional_text(self.params_json),
            routing_method: self.routing_method@,
            latency_ms: self.latency_ms,
            success: self.success,
            confidence: optional_number(self.confidence),
        }
    }
}

/// The record of a routing decision of which no confidence is known.
pub open spec fn record_of(
    instruction: Seq<char>,
    tool: Option<Seq<char>>,
    params: Option<JsonView>,
    method: Seq<char>,
    latency_ms: u64,
    success: bool,
) -> RecordView {
    RecordView {
        instruction,
        tool_chosen: tool,
        params_json: params_text(params),
        routing_method: method,
        latency_ms: signed_latency(latency_ms) as i64,
        success: if success {
            1
        } else {
            0
        },
        confidence: None,
    }
}

/// The record of a routing: the tool that was chosen, with its parameters and how sure the model
/// was of it, whether or not it was called; what routed the instruction (`none` where nothing did),
/// how long it took, and whether it went without an error.
pub open spec fn decision_record(
    instruction: Seq<char>,
    chosen: Option<ChoiceView>,
    response: ResponseView,
) -> RecordView {
    RecordView {
        confidence: match chosen {
            Some(choice) => choice.confidence,
            None => None,
        },
        ..record_of(
            instruction,
            match chosen {
                Some(choice) => Some(choice.tool),
                None => None,
            },
            match chosen {
                Some(choice) => Some(choice.params),
                None => None,
            },
            match response.routing_model {
                Some(m) => m,
                None => "none"@,
            },
            match response.routing_latency_ms {
                Some(n) => n,
                None => 0,
            },
            response.error is None,
        )
    }
}

/// What the audit log takes down of a routing decision.
pub fn record_routing(
    instruction: &str,
    tool: Option<&str>,
    params: Option<&Json>,
    method: &str,
    latency_ms: u64,
    success: bool,
) -> (r: RoutingRecord)
    ensures
        r@ == record_of(
            instruction@,
            optional_str(tool),
            optional_ref(params),
            method@,
            latency_ms,
            success,
        ),
{
    let latency: i64 = if latency_ms < I64_LIMIT {
        latency_ms as i64
    } else {
        (latency_ms - I64_LIMIT) as i64 + i64::MIN
    };
    RoutingRecord {
        instruction: instruction.to_owned(),
        tool_chosen: match tool {
            Some(t) => Some(t.to_owned()),
            None => None,
        },
        params_json: match params {
            Some(value) => Some(value.to_text()),
            None => None,
        },
        routing_method: method.to_owned(),
        latency_ms: latency,
        success: if success {
            1
        } else {
            0
        },
        confidence: None,
    }
}

/// What the audit log takes down of a routing that ended.
pub fn routing_record(
    instruction: &str,
    chosen: &Option<Choice>,
    response: &CeoResponse,
) -> (r: RoutingRecord)
    ensures
        r@ == decision_record(instruction@, optional_choice(*chosen), response@),
{
    let method = match &response.routing_model {
        Some(m) => m.as_str(),
        None => "none",
    };
    let latency_ms: u64 = match response.routing_latency_ms {
        Some(n) => n,
        None => 0,
    };
    let success = response.error.is_none();
    match chosen {
        Some(choice) => {
            let mut record = record_routing(
                instruction,
                Some(choice.tool.as_str()),
                Some(&choice.params),
                method,
                latency_ms,
                success,
            );
            record.confidence = copy_number(&choice.confidence);
            record
        },
        None => record_routing(instruction, None, None, method, latency_ms, success),
    }
}

/// A row of the audit log.
#[derive(Debug)]
pub struct LogRow {
    pub id: i64,
    pub timestamp: String,
    pub instruction: String,
    pub tool_chosen: Option<String>,
    pub params_json: Option<String>,
    pub routing_method: String,
    pub latency_ms: i64,
    pub success: i32,
}

/// What a row of the audit log says.
pub struct LogRowView {
    pub id: i64,
    pub timestamp: Seq<char>,
    pub instruction: Seq<char>,
    pub tool_chosen: Option<Seq<char>>,
    pub params_json: Option<Seq<char>>,
    pub routing_method: Seq<char>,
    pub latency_ms: i64,
    pub success: i32,
}

impl View for LogRow {
    type V = LogRowView;

    open spec fn view(&self) -> LogRowView {
        LogRowView {
            id: self.id,
            timestamp: self.timestamp@,
            instruction: self.instruction@,
            tool_chosen: optional_text(self.tool_chosen),
            params_json: optional_text(self.params_json),
            routing_method: self.routing_method@,
            latency_ms: self.latency_ms,
            success: self.success,
        }
    }
}

/// What came of reading the audit log.
#[derive(Debug)]
pub enum LogOutcome {
    /// The database could not be asked.
    Unavailable(String),
    /// The query failed.
    QueryFailed,
    /// The rows, newest first; nothing in place of one that could not be read.
    Rows(Vec<Option<LogRow>>),
}

/// What is known of some rows.
pub open spec fn row_views(rows: Seq<Option<LogRow>>) -> Seq<Option<LogRowView>> {
    Seq::new(
        rows.len(),
        |i: int|
            match rows[i] {
                Some(row) => Some(row@),
                None => None,
            },
    )
}

/// A text, or `null`.
pub open spec fn text_or_null(text: Option<Seq<char>>) -> JsonView {
    match text {
        Some(t) => JsonView::Text(t),
        None => JsonView::Null,
    }
}

/// A row of the audit log as it is shown.
pub open spec fn log_entry(row: LogRowView) -> JsonView {
    JsonView::Object(
        seq![
            ("id"@, int_number(row.id as int)),
            ("instruction"@, JsonView::Text(row.instruction)),
            ("latency_ms"@, int_number(row.latency_ms as int)),
            ("params_json"@, text_or_null(row.params_json)),
            ("routing_method"@, JsonView::Text(row.routing_method)),
            ("success"@, JsonView::Bool(row.success == 1)),
            ("timestamp"@, JsonView::Text(row.timestamp)),
            ("tool_chosen"@, text_or_null(row.tool_chosen)),
        ],
    )
}

/// The rows that could be read, as they are shown, in order.
pub open spec fn log_entries(rows: Seq<Option<LogRowView>>) -> Seq<JsonView>
    decreases rows.len(),
{
    if rows.len() == 0 {
        Seq::empty()
    } else {
        match rows.last() {
            Some(row) => log_entries(rows.drop_last()).push(log_entry(row)),
            None => log_entries(rows.drop_last()),
        }
    }
}

/// The answer that shows some entries of the audit log.
pub open spec fn log_listing(entries: Seq<JsonView>) -> JsonView {
    JsonView::Object(
        seq![
            ("count"@, nat_number(entries.len() as u64)),
            ("entries"@, JsonView::Array(entries)),
        ],
    )
}

/// The answer to a request for the audit log.
pub open spec fn log_answer(outcome: LogOutcome) -> JsonView {
    match outcome {
        LogOutcome::Unavailable(e) => JsonView::Object(seq![("error"@, JsonView::Text(e@))]),
        LogOutcome::QueryFailed => log_listing(Seq::empty()),
        LogOutcome::Rows(rows) => log_listing(log_entries(row_views(rows@))),
    }
}

/// The number of entries to show: as many as asked for, fifty by default, two hundred at most.
pub open spec fn shown_at_most(asked: Option<i64>) -> i64 {
    match asked {
        Some(n) => if n < 200 {
            n
        } else {
            200
        },
        None => 50,
    }
}

/// The number of entries to show.
pub fn log_limit(asked: Option<i64>) -> (r: i64)
    ensures
        r == shown_at_most(asked),
{
    let limit: i64 = match asked {
        Some(n) => n,
        None => 50,
    };
    if limit < 200 {
        limit
    } else {
        200
    }
}

/// A text, or `null`.
pub fn write_text_or_null(text: &Option<String>) -> (r: Json)
    ensures
        r@ == text_or_null(optional_text(*text)),
{
    match text {
        Some(t) => Json::Text(t.clone()),
        None => Json::Null,
    }
}

/// A row of the audit log as it is shown.
fn show_row(row: &LogRow) -> (r: Json)
    ensures
        r@ == log_entry(row@),
{
    let mut members: Vec<(String, Json)> = Vec::new();
    put(&mut members, "id", Json::from_int(row.id));
    put(&mut members, "instruction", Json::Text(row.instruction.clone()));
    put(&mut members, "latency_ms", Json::from_int(row.latency_ms));
    put(&mut members, "params_json", write_text_or_null(&row.params_json));
    put(&mut members, "routing_method", Json::Text(row.routing_method.clone()));
    put(&mut members, "success", Json::Bool(row.success == 1));
    put(&mut members, "timestamp", Json::Text(row.timestamp.clone()));
    put(&mut members, "tool_chosen", write_text_or_null(&row.tool_chosen));
    assert(members_view(members@) =~= log_entry(row@)->Object_0);
    Json::Object(members)
}

/// The answer that shows some entries of the audit log.
fn list_entries(entries: Vec<Json>) -> (r: Json)
    ensures
        r@ == log_listing(values_view(entries@)),
{
    let ghost view = values_view(entries@);
    let count: u64 = entries.len() as u64;
    let mut members: Vec<(String, Json)> = Vec::new();
    put(&mut members, "count", Json::from_nat(count));
    put(&mut members, "entries", Json::Array(entries));
    assert(members_view(members@) =~= log_listing(view)->Object_0);
    Json::Object(members)
}

/// The answer to a request for the audit log.
pub fn show_log(outcome: LogOutcome) -> (r: Json)
    ensures
        r@ == log_answer(outcome),
{
    let mut entries: Vec<Json> = Vec::new();
    assert(values_view(entries@) =~= Seq::empty());
    match outcome {
        LogOutcome::Unavailable(e) => {
            let mut members: Vec<(String, Json)> = Vec::new();
            put(&mut members, "error", Json::Text(e));
            assert(members_view(members@) =~= seq![("error"@, JsonView::Text(e@))]);
            Json::Object(members)
        },
        LogOutcome::QueryFailed => list_entries(entries),
        LogOutcome::Rows(rows) => {
            let ghost view = row_views(rows@);
            for i in 0..rows.len()
                invariant
                    view == row_views(rows@),
                    values_view(entries@) == log_entries(view.take(i as int)),
            {
                let ghost before = values_view(entries@);
                assert(view.take(i + 1).drop_last() =~= view.take(i as int));
                assert(view.take(i + 1).last() == view[i as int]);
                if let Some(row) = &rows[i] {
                    entries.push(show_row(row));
                    assert(values_view(entries@) =~= before.push(log_entry(row@)));
                }
            }
            assert(view.take(rows@.len() as int) =~= view);
            list_entries(entries)
        },
    }
}

// ---------------------------------------------------------------------------------------------
// Circuit breaker
// ---------------------------------------------------------------------------------------------

/// A point in time.
#[verifier::external_type_specification]
#[verifier::external_body]
pub struct ExInstant(std::time::Instant);

/// The number of calls after which the counting starts over.
pub const WINDOW_CALLS: usize = 100;

/// The number of calls below which the circuit is not judged.
pub const MIN_CALLS: u64 = 20;

/// The age, in nanoseconds, up to which a call counts: ten minutes.
pub const WINDOW_NANOS: u128 = 600_000_000_000;

/// The time, in nanoseconds, for which an open circuit lets no call through: five minutes.
pub const OPEN_NANOS: u128 = 300_000_000_000;

/// A routing call: when it was recorded, in nanoseconds on the clock of its circuit breaker, and
/// whether it succeeded.
#[derive(Debug, Clone, Copy)]
pub struct Call {
    pub at: u128,
    pub success: bool,
}

/// In-memory circuit breaker for CEO routing. Its clock counts the nanoseconds since it was made.
#[derive(Debug)]
pub struct CircuitBreaker {
    origin: std::time::Instant,
    calls: Vec<Call>,
    opened_at: Option<u128>,
    probing: bool,
}

/// What a circuit breaker knows: where its clock starts, the calls since the counting last started
/// over, when it opened, and whether it has let a probe through since.
pub struct BreakerView {
    pub origin: std::time::Instant,
    pub calls: Seq<Call>,
    pub opened_at: Option<u128>,
    pub probing: bool,
}

impl View for CircuitBreaker {
    type V = BreakerView;

    closed spec fn view(&self) -> BreakerView {
        BreakerView {
            origin: self.origin,
            calls: self.calls@,
            opened_at: self.opened_at,
            probing: self.probing,
        }
    }
}

/// The time that has passed since a point in time; none where that is still to come.
pub open spec fn age(now: u128, at: u128) -> int {
    if now >= at {
        now - at
    } else {
        0
    }
}

/// Whether a call is in the ten-minute window.
pub open spec fn is_recent(call: Call, now: u128) -> bool {
    age(now, call.at) <= WINDOW_NANOS
}

/// The number of calls in the window.
pub open spec fn recent_calls(calls: Seq<Call>, now: u128) -> nat {
    calls.filter(|c: Call| is_recent(c, now)).len()
}

/// The number of failed calls in the window.
pub open spec fn recent_errors(calls: Seq<Call>, now: u128) -> nat {
    calls.filter(|c: Call| is_recent(c, now) && !c.success).len()
}

/// Whether there are enough calls in the window to judge by.
pub open spec fn can_judge(calls: Seq<Call>, now: u128) -> bool {
    recent_calls(calls, now) >= MIN_CALLS
}

/// Whether the failed calls in the window are more than five percent.
pub open spec fn too_many_errors(calls: Seq<Call>, now: u128) -> bool {
    recent_errors(calls, now) * 100 > recent_calls(calls, now) * 5
}

/// A circuit breaker with one more call taken down; the counting starts over every hundred calls.
pub open spec fn counted(breaker: BreakerView, success: bool, now: u128) -> BreakerView {
    let calls = breaker.calls.push(Call { at: now, success });
    BreakerView {
        calls: if calls.len() >= WINDOW_CALLS {
            Seq::empty()
        } else {
            calls
        },
        ..breaker
    }
}

/// A circuit breaker after it was judged: a closed one opens on too many errors, and an open one
/// closes where there are no longer too many.
pub open spec fn evaluated(breaker: BreakerView, now: u128) -> BreakerView {
    if !can_judge(breaker.calls, now) {
        breaker
    } else if too_many_errors(breaker.calls, now) {
        if breaker.opened_at is None {
            BreakerView { opened_at: Some(now), probing: false, ..breaker }
        } else {
            breaker
        }
    } else {
        BreakerView { opened_at: None, probing: false, ..breaker }
    }
}

/// A circuit breaker after it was closed.
pub open spec fn closed(breaker: BreakerView) -> BreakerView {
    if breaker.opened_at is Some {
        BreakerView { calls: Seq::empty(), opened_at: None, probing: false, ..breaker }
    } else {
        breaker
    }
}

/// Whether an open circuit is due to let a probe through.
pub open spec fn probe_due(breaker: BreakerView, now: u128) -> bool {
    &&& breaker.opened_at is Some
    &&& age(now, breaker.opened_at->0) >= OPEN_NANOS
    &&& !breaker.probing
}

/// Whether a circuit breaker holds a call back.
pub open spec fn holds_back(breaker: BreakerView, now: u128) -> bool {
    breaker.opened_at is Some && !probe_due(breaker, now)
}

/// A circuit breaker after it was asked: the probe that was due is on its way.
pub open spec fn asked(breaker: BreakerView, now: u128) -> BreakerView {
    if probe_due(breaker, now) {
        BreakerView { probing: true, ..breaker }
    } else {
        breaker
    }
}

/// An open circuit breaker after its probe failed: it is open anew.
pub open spec fn reopened(breaker: BreakerView, now: u128) -> BreakerView {
    BreakerView { opened_at: Some(now), probing: false, ..breaker }
}

/// A circuit breaker after a call came back: a probe that succeeded closes it, and one that failed
/// opens it anew. Any call but a successful probe is recorded.
pub open spec fn settled(breaker: BreakerView, success: bool, now: u128) -> BreakerView {
    if breaker.opened_at is Some && breaker.probing {
        if success {
            closed(breaker)
        } else {
            evaluated(counted(reopened(breaker, now), success, now), now)
        }
    } else {
        evaluated(counted(breaker, success, now), now)
    }
}

/// `std::time::Instant::now`: the present. Nothing is said of it.
#[verifier::external_body]
fn present() -> (r: std::time::Instant) {
    std::time::Instant::now()
}

/// `std::time::Instant::elapsed`: the time that has passed, as its whole seconds and the nanoseconds
/// beyond them. It depends on when it is asked; nothing is said of it.
#[verifier::external_body]
fn elapsed_since(since: std::time::Instant) -> (r: (u64, u32)) {
    let passed = since.elapsed();
    (passed.as_secs(), passed.subsec_nanos())
}

/// A time that has passed, in nanoseconds, out of its whole seconds and the nanoseconds beyond them.
pub fn clock(elapsed: (u64, u32)) -> (r: u128)
    ensures
        r == elapsed.0 * 1_000_000_000 + elapsed.1,
{
    elapsed.0 as u128 * 1_000_000_000 + elapsed.1 as u128
}

impl CircuitBreaker {
    /// Whether fewer calls are held than the counting goes to.
    pub open spec fn wf(self) -> bool {
        self@.calls.len() < WINDOW_CALLS
    }

    /// A closed circuit that has counted nothing.
    pub fn new() -> (r: CircuitBreaker)
        ensures
            r.wf(),
            r@ == (BreakerView {
                origin: r@.origin,
                calls: Seq::empty(),
                opened_at: None,
                probing: false,
            }),
    {
        CircuitBreaker { origin: present(), calls: Vec::new(), opened_at: None, probing: false }
    }

    /// The time on the clock of the circuit breaker.
    fn now(&self) -> u128 {
        clock(elapsed_since(self.origin))
    }

    /// The calls and the failed calls in the window.
    pub fn counts_at(&self, now: u128) -> (r: (u64, u64))
        requires
            self.wf(),
        ensures
            r.0 == recent_calls(self@.calls, now),
            r.1 == recent_errors(self@.calls, now),
            r.1 <= r.0 < WINDOW_CALLS,
    {
        let ghost seen = |c: Call| is_recent(c, now);
        let ghost failed = |c: Call| is_recent(c, now) && !c.success;
        let mut total: u64 = 0;
        let mut errors: u64 = 0;
        proof {
            reveal(Seq::filter);
        }
        for i in 0..self.calls.len()
            invariant
                self.calls.len() < WINDOW_CALLS,
                seen == (|c: Call| is_recent(c, now)),
                failed == (|c: Call| is_recent(c, now) && !c.success),
                total == self.calls@.take(i as int).filter(seen).len(),
                errors == self.calls@.take(i as int).filter(failed).len(),
                errors <= total <= i,
        {
            proof {
                reveal(Seq::filter);
            }
            let call = self.calls[i];
            assert(self.calls@.take(i + 1).drop_last() =~= self.calls@.take(i as int));
            assert(self.calls@.take(i + 1).last() == call);
            if now < call.at || now - call.at <= WINDOW_NANOS {
                total = total + 1;
                if !call.success {
                    errors = errors + 1;
                }
            }
        }
        assert(self.calls@.take(self.calls@.len() as int) =~= self.calls@);
        (total, errors)
    }

    /// The calls and the failed calls in the window.
    pub fn counts(&self) -> (r: (u64, u64))
        requires
            self.wf(),
        ensures
            exists|now: u128|
                r.0 == #[trigger] recent_calls(self@.calls, now) && r.1 == recent_errors(
                    self@.calls,
                    now,
                ),
    {
        let now = self.now();
        self.counts_at(now)
    }

    /// Record a routing outcome at a time.
    pub fn record_at(&mut self, success: bool, now: u128)
        requires
            old(self).wf(),
        ensures
            final(self).wf(),
            final(self)@ == evaluated(counted(old(self)@, success, now), now),
    {
        self.calls.push(Call { at: now, success });
        // Reset every 100 calls to keep window fresh
        if self.calls.len() >= WINDOW_CALLS {
            self.calls = Vec::new();
        }
        // Auto-evaluate after each recording
        self.evaluate_at(now);
    }

    /// Record a routing outcome.
    pub fn record(&mut self, success: bool)
        requires
            old(self).wf(),
        ensures
            final(self).wf(),
            exists|now: u128|
                final(self)@ == #[trigger] evaluated(counted(old(self)@, success, now), now),
    {
        let now = self.now();
        self.record_at(success, now);
    }

    /// Check at a time if circuit is open.
    pub fn is_open_at(&mut self, now: u128) -> (r: bool)
        ensures
            r == holds_back(old(self)@, now),
            final(self)@ == asked(old(self)@, now),
    {
        match self.opened_at {
            Some(opened) => {
                // After 5 min, allow one probe
                if self.probing || now < opened || now - opened < OPEN_NANOS {
                    true
                } else {
                    self.probing = true;
                    false
                }
            },
            None => false,
        }
    }

    /// Check if circuit is open (should use fallback). The call that is let through after five
    /// minutes is a probe, and the only one until it has come back or the circuit is closed.
    pub fn is_open(&mut self) -> (r: bool)
        ensures
            exists|now: u128|
                r == #[trigger] holds_back(old(self)@, now) && final(self)@ == asked(
                    old(self)@,
                    now,
                ),
    {
        let now = self.now();
        self.is_open_at(now)
    }

    /// Whether the circuit has opened and was not closed since.
    pub fn has_opened(&self) -> (r: bool)
        ensures
            r == self@.opened_at is Some,
    {
        self.opened_at.is_some()
    }

    /// Evaluate at a time whether to open or close the circuit.
    pub fn evaluate_at(&mut self, now: u128)
        requires
            old(self).wf(),
        ensures
            final(self).wf(),
            final(self)@ == evaluated(old(self)@, now),
    {
        let (total, errors) = self.counts_at(now);
        if total >= MIN_CALLS {
            if errors * 100 > total * 5 {
                if self.opened_at.is_none() {
                    self.opened_at = Some(now);
                    self.probing = false;
                }
            } else {
                self.opened_at = None;
                self.probing = false;
            }
        }
    }

    /// Evaluate whether to open or close the circuit.
    pub fn evaluate(&mut self)
        requires
            old(self).wf(),
        ensures
            final(self).wf(),
            exists|now: u128| final(self)@ == #[trigger] evaluated(old(self)@, now),
    {
        let now = self.now();
        self.evaluate_at(now);
    }

    /// Close circuit after successful probe.
    pub fn close(&mut self)
        ensures
            old(self).wf() ==> final(self).wf(),
            final(self)@ == closed(old(self)@),
    {
        if self.opened_at.is_some() {
            self.opened_at = None;
            self.probing = false;
            self.calls = Vec::new();
        }
    }

    /// Takes in how a call came back at a time.
    pub fn settle_at(&mut self, success: bool, now: u128)
        requires
            old(self).wf(),
        ensures
            final(self).wf(),
            final(self)@ == settled(old(self)@, success, now),
    {
        if self.opened_at.is_some() && self.probing {
            if success {
                self.close();
            } else {
                self.opened_at = Some(now);
                self.probing = false;
                self.record_at(success, now);
            }
        } else {
            self.record_at(success, now);
        }
    }

    /// Takes in how a call came back: closes the circuit after a successful probe, opens it anew
    /// after a failed one, and records any call but a successful probe.
    pub fn settle(&mut self, success: bool)
        requires
            old(self).wf(),
        ensures
            final(self).wf(),
            exists|now: u128| final(self)@ == #[trigger] settled(old(self)@, success, now),
    {
        let now = self.now();
        self.settle_at(success, now);
    }
}

} // verus!
