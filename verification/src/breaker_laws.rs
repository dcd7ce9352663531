//! What holds of the circuit breaker: what it takes in, when it opens, and when it lets a call
//! through.

use vstd::prelude::*;

use crate::ceo_audit::{
    asked, closed, counted, evaluated, holds_back, recent_calls, recent_errors, settled,
    BreakerView, Call,
};
use crate::laws::{
    after_recording, failures, fresh, law_counting_starts_over_every_hundred_calls,
    law_high_error_rate_opens, law_successes_never_open,
};

verus! {

/// Whether a breaker waits for a probe to come back.
pub open spec fn waits_for_probe(breaker: BreakerView) -> bool {
    breaker.opened_at is Some && breaker.probing
}

/// The calls that count after one more: all of them with that one behind, or none where that one
/// makes a hundred.
pub open spec fn with_call(calls: Seq<Call>, success: bool, now: u128) -> Seq<Call> {
    if calls.len() + 1 < 100 {
        calls.push(Call { at: now, success })
    } else {
        Seq::empty()
    }
}

/// A call is in the window for ten minutes; each counts once, and as an error where it failed.
pub proof fn law_window_counts_each_call_once(calls: Seq<Call>, call: Call, now: u128)
    ensures
        recent_calls(Seq::empty(), now) == 0,
        recent_errors(Seq::empty(), now) == 0,
        recent_calls(calls.push(call), now) == recent_calls(calls, now) + if now - call.at
            <= 600_000_000_000 {
            1int
        } else {
            0int
        },
        recent_errors(calls.push(call), now) == recent_errors(calls, now) + if now - call.at
            <= 600_000_000_000 && !call.success {
            1int
        } else {
            0int
        },
{
    reveal(Seq::filter);
    assert(calls.push(call).drop_last() =~= calls);
    assert(calls.push(call).last() == call);
}

/// Recording a call, and taking in how one came back that was no probe, adds exactly that call, with
/// its outcome and its time, whether it succeeded or failed. A breaker that has opened stays open,
/// from the same time on, unless there are at least twenty calls in the window and no more than five
/// percent of them failed; one that has not opened opens now exactly where there are at least twenty
/// and more than five percent of them failed.
pub proof fn law_every_call_is_taken_in(breaker: BreakerView, success: bool, now: u128)
    ensures
        ({
            let calls = with_call(breaker.calls, success, now);
            let total = recent_calls(calls, now);
            let errors = recent_errors(calls, now);
            let after = evaluated(counted(breaker, success, now), now);
            &&& after.origin == breaker.origin
            &&& after.calls == calls
            &&& total >= 20 && errors * 100 > total * 5 ==> after.opened_at == (
            if breaker.opened_at is Some {
                breaker.opened_at
            } else {
                Some(now)
            })
            &&& total >= 20 && errors * 100 <= total * 5 ==> after.opened_at is None
            &&& total < 20 ==> after.opened_at == breaker.opened_at && after.probing
                == breaker.probing
            &&& !waits_for_probe(breaker) ==> settled(breaker, success, now) == after
        }),
{
}

/// A probe that failed is taken in as a failed call.
pub proof fn law_failed_probe_is_taken_in(breaker: BreakerView, now: u128)
    requires
        waits_for_probe(breaker),
    ensures
        settled(breaker, false, now).calls == with_call(breaker.calls, false, now),
        settled(breaker, true, now).calls.len() == 0,
        settled(breaker, true, now).opened_at is None,
        !settled(breaker, true, now).probing,
{
}

/// A breaker after it took in how some calls came back, each at its time.
pub open spec fn after_settling(breaker: BreakerView, calls: Seq<Call>) -> BreakerView
    decreases calls.len(),
{
    if calls.len() == 0 {
        breaker
    } else {
        settled(
            after_settling(breaker, calls.drop_last()),
            calls.last().success,
            calls.last().at,
        )
    }
}

/// A fresh breaker that is not asked in between never waits for a probe, so that taking in calls is
/// recording them.
proof fn lemma_settling_is_recording(origin: std::time::Instant, calls: Seq<Call>)
    ensures
        after_settling(fresh(origin), calls) == after_recording(fresh(origin), calls),
        !after_settling(fresh(origin), calls).probing,
    decreases calls.len(),
{
    if calls.len() > 0 {
        lemma_settling_is_recording(origin, calls.drop_last());
    }
}

/// A fresh breaker that took in at least twenty calls and fewer than a hundred, all of them within
/// ten minutes, is open where more than five percent of them failed, and holds calls back for five
/// minutes; it is closed where all of them succeeded. It counted every one of them.
pub proof fn law_failing_model_opens_the_circuit(
    origin: std::time::Instant,
    calls: Seq<Call>,
    now: u128,
)
    requires
        20 <= calls.len() < 100,
        forall|i: int|
            0 <= i < calls.len() ==> calls.last().at - (#[trigger] calls[i]).at <= 600_000_000_000,
    ensures
        after_settling(fresh(origin), calls).calls == calls,
        failures(calls) * 100 > calls.len() * 5 ==> {
            let after = after_settling(fresh(origin), calls);
            &&& after.opened_at is Some
            &&& now - after.opened_at->0 < 300_000_000_000 ==> holds_back(after, now)
        },
        (forall|i: int| 0 <= i < calls.len() ==> (#[trigger] calls[i]).success)
            ==> after_settling(fresh(origin), calls).opened_at is None && !holds_back(
            after_settling(fresh(origin), calls),
            now,
        ),
{
    lemma_settling_is_recording(origin, calls);
    law_counting_starts_over_every_hundred_calls(origin, calls);
    assert(calls.skip(0) =~= calls);
    if failures(calls) * 100 > calls.len() * 5 {
        law_high_error_rate_opens(origin, calls);
    }
    if forall|i: int| 0 <= i < calls.len() ==> (#[trigger] calls[i]).success {
        law_successes_never_open(origin, calls);
    }
}

/// Whether a call is held back: where the circuit has opened and five minutes are not over, or the
/// probe that was let through then is on its way; and nowhere else. Being asked changes nothing, but
/// that the probe is on its way from then on.
pub proof fn law_calls_are_held_back_exactly_so(breaker: BreakerView, now: u128)
    ensures
        holds_back(breaker, now) <==> breaker.opened_at is Some && (now - breaker.opened_at->0
            < 300_000_000_000 || breaker.probing),
        asked(breaker, now) == (BreakerView {
            origin: breaker.origin,
            calls: breaker.calls,
            opened_at: breaker.opened_at,
            probing: breaker.probing || (breaker.opened_at is Some && now - breaker.opened_at->0
                >= 300_000_000_000),
        }),
{
}

/// Closing an open circuit forgets every call; closing any other changes nothing.
pub proof fn law_closing_forgets(breaker: BreakerView)
    ensures
        breaker.opened_at is Some ==> closed(breaker) == (BreakerView {
            origin: breaker.origin,
            calls: Seq::empty(),
            opened_at: None,
            probing: false,
        }),
        breaker.opened_at is None ==> closed(breaker) == breaker,
{
}

} // verus!
