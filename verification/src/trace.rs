//! What holds of a controller over a whole run of calls.
//!
//! A run is given by the samples that the calls bring and by what the
//! actuator would answer at each call if it were asked. Every statement here
//! is about [`Model`], and so about any controller whose operations the
//! library specifies by it.

use vstd::prelude::*;
use vstd::arithmetic::div_mod::{lemma_fundamental_div_mod, lemma_fundamental_div_mod_converse};
use crate::controller::{lemma_step_keeps_wf, Decision, Model};
use crate::error::ActuationError;
use crate::window::{
    lemma_means_bounded,
    lemma_window_holds_last_pushed,
    mean_power_of,
    mean_rate_of,
    slide_all,
    Sample,
};

verus! {

/// The controller `m` after the first `n` calls of a run.
pub open spec fn after(
    m: Model,
    samples: Seq<Sample>,
    outcomes: Seq<Result<(), ActuationError>>,
    n: nat,
) -> Model
    decreases n,
{
    if n == 0 {
        m
    } else {
        after(m, samples, outcomes, (n - 1) as nat).step(samples[n - 1], outcomes[n - 1])
    }
}

/// Whether call `i` of a run (counted from 0) asks the actuator for a change.
pub open spec fn asks_at(
    m: Model,
    samples: Seq<Sample>,
    outcomes: Seq<Result<(), ActuationError>>,
    i: nat,
) -> bool {
    after(m, samples, outcomes, i).actuates(samples[i as int])
}

/// What call `i` of a run (counted from 0) returns.
pub open spec fn reply_at(
    m: Model,
    samples: Seq<Sample>,
    outcomes: Seq<Result<(), ActuationError>>,
    i: nat,
) -> Result<Option<Decision>, ActuationError> {
    after(m, samples, outcomes, i).reply(samples[i as int], outcomes[i as int])
}

/// How often the actuator is asked during the first `n` calls of a run.
pub open spec fn asked(
    m: Model,
    samples: Seq<Sample>,
    outcomes: Seq<Result<(), ActuationError>>,
    n: nat,
) -> nat
    decreases n,
{
    if n == 0 {
        0
    } else {
        let earlier = asked(m, samples, outcomes, (n - 1) as nat);
        if asks_at(m, samples, outcomes, (n - 1) as nat) {
            earlier + 1
        } else {
            earlier
        }
    }
}

/// Throughout a run the controller stays well formed, with the table, goal,
/// period and depth it began with; it counts every call; and its window is
/// what the samples make of the window it began with.
pub proof fn lemma_run_keeps_configuration(
    m: Model,
    samples: Seq<Sample>,
    outcomes: Seq<Result<(), ActuationError>>,
    n: nat,
)
    requires
        m.wf(),
        n <= samples.len(),
    ensures
        after(m, samples, outcomes, n).wf(),
        after(m, samples, outcomes, n).table == m.table,
        after(m, samples, outcomes, n).perf_goal == m.perf_goal,
        after(m, samples, outcomes, n).period == m.period,
        after(m, samples, outcomes, n).depth == m.depth,
        after(m, samples, outcomes, n).calls == m.calls + n,
        after(m, samples, outcomes, n).window == slide_all(
            m.window,
            m.depth,
            samples.take(n as int),
        ),
    decreases n,
{
    if n == 0 {
        assert(samples.take(0) =~= Seq::<Sample>::empty());
    } else {
        let k = (n - 1) as nat;
        lemma_run_keeps_configuration(m, samples, outcomes, k);
        lemma_step_keeps_wf(after(m, samples, outcomes, k), samples[n - 1], outcomes[n - 1]);
        assert(samples.take(n as int).drop_last() =~= samples.take(k as int));
        assert(samples.take(n as int).last() == samples[n - 1]);
    }
}

/// After `depth` calls or more, the window holds exactly the samples of the
/// last `depth` calls, and the observed rate and power are their means:
/// no older sample counts, and none of them is missing.
pub proof fn lemma_window_is_last_depth_calls(
    m: Model,
    samples: Seq<Sample>,
    outcomes: Seq<Result<(), ActuationError>>,
    n: nat,
)
    requires
        m.wf(),
        m.depth <= n <= samples.len(),
    ensures
        after(m, samples, outcomes, n).window == samples.subrange(n - m.depth, n as int),
        after(m, samples, outcomes, n).observed_rate() == mean_rate_of(
            samples.subrange(n - m.depth, n as int),
        ),
        after(m, samples, outcomes, n).observed_power() == mean_power_of(
            samples.subrange(n - m.depth, n as int),
        ),
{
    lemma_run_keeps_configuration(m, samples, outcomes, n);
    let taken = samples.take(n as int);
    lemma_window_holds_last_pushed(m.window, m.depth, taken);
    assert(taken.subrange(taken.len() - m.depth, taken.len() as int) =~= samples.subrange(
        n - m.depth,
        n as int,
    ));
    lemma_means_bounded(samples.subrange(n - m.depth, n as int));
}

/// The actuator is asked only on a call that closes a period, with the window
/// full, and then at most once.
pub proof fn lemma_asks_only_when_due(
    m: Model,
    samples: Seq<Sample>,
    outcomes: Seq<Result<(), ActuationError>>,
    i: nat,
)
    requires
        m.wf(),
        i < samples.len(),
        asks_at(m, samples, outcomes, i),
    ensures
        (m.calls + i + 1) % m.period == 0,
        after(m, samples, outcomes, i + 1).window.len() == m.depth,
        asked(m, samples, outcomes, i + 1) == asked(m, samples, outcomes, i) + 1,
{
    lemma_run_keeps_configuration(m, samples, outcomes, i);
    lemma_run_keeps_configuration(m, samples, outcomes, i + 1);
}

/// Going from `c` calls to `c + 1` passes a multiple of `p` exactly when
/// `c + 1` is one.
proof fn lemma_quotient_step(c: nat, p: nat)
    requires
        p >= 1,
    ensures
        (c + 1) / p == c / p + if (c + 1) % p == 0 {
            1nat
        } else {
            0nat
        },
{
    let ci = c as int;
    let pi = p as int;
    lemma_fundamental_div_mod(ci, pi);
    lemma_fundamental_div_mod(ci + 1, pi);
    if ci % pi + 1 == pi {
        assert(ci + 1 == pi * (ci / pi + 1) + 0) by (nonlinear_arith)
            requires
                ci == pi * (ci / pi) + (pi - 1),
        ;
        lemma_fundamental_div_mod_converse(ci + 1, pi, ci / pi + 1, 0);
    } else {
        lemma_fundamental_div_mod_converse(ci + 1, pi, ci / pi, ci % pi + 1);
    }
}

/// During `n` calls the actuator is asked no more often than periods close.
pub proof fn lemma_asked_at_most_once_per_period(
    m: Model,
    samples: Seq<Sample>,
    outcomes: Seq<Result<(), ActuationError>>,
    n: nat,
)
    requires
        m.wf(),
        n <= samples.len(),
    ensures
        asked(m, samples, outcomes, n) <= (m.calls + n) / m.period - m.calls / m.period,
    decreases n,
{
    if n > 0 {
        let k = (n - 1) as nat;
        lemma_asked_at_most_once_per_period(m, samples, outcomes, k);
        lemma_quotient_step(m.calls + k, m.period);
        if asks_at(m, samples, outcomes, k) {
            lemma_asks_only_when_due(m, samples, outcomes, k);
        }
    }
}

/// A controller that has seen no call yet asks the actuator at most
/// `n / period` times, rounded down, during its first `n` calls.
pub proof fn lemma_fresh_controller_asks_at_most_floor(
    m: Model,
    samples: Seq<Sample>,
    outcomes: Seq<Result<(), ActuationError>>,
    n: nat,
)
    requires
        m.wf(),
        m.calls == 0,
        n <= samples.len(),
    ensures
        asked(m, samples, outcomes, n) <= n / m.period,
{
    lemma_asked_at_most_once_per_period(m, samples, outcomes, n);
    assert(0nat / m.period == 0) by (nonlinear_arith)
        requires
            m.period >= 1,
    ;
}

/// Two controllers that begin alike and are given the same samples and the
/// same answers from their actuators stay alike: after every call they are in
/// the same state and have returned the same reply.
pub proof fn lemma_same_run_same_decisions(
    a: Model,
    b: Model,
    samples: Seq<Sample>,
    outcomes: Seq<Result<(), ActuationError>>,
    n: nat,
)
    requires
        a == b,
    ensures
        after(a, samples, outcomes, n) == after(b, samples, outcomes, n),
        forall|i: nat| reply_at(a, samples, outcomes, i) == reply_at(b, samples, outcomes, i),
        forall|i: nat|
            asks_at(a, samples, outcomes, i) == asks_at(b, samples, outcomes, i),
{
}

/// When the actuator fails on a call, the current state is after the call
/// what it was before.
pub proof fn lemma_failed_actuation_keeps_state(m: Model, s: Sample, e: ActuationError)
    requires
        m.actuates(s),
    ensures
        m.step(s, Err(e)).current == m.current,
        m.reply(s, Err(e)) == Err::<Option<Decision>, ActuationError>(e),
{
}

} // verus!
