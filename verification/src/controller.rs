//! The controller's state and the decisions it takes.
//!
//! [`Model`] is the controller as a mathematical value, and its functions say
//! what one call does to it. [`poet_state`] is the state that runs: each of
//! its operations is specified by the corresponding function of the model.

use vstd::prelude::*;
use vstd::arithmetic::div_mod::{lemma_fundamental_div_mod, lemma_fundamental_div_mod_converse};
use crate::error::{ActuationError, InitError};
use crate::select::{lemma_selection_exists, select, selected};
use crate::states::{StateEntry, StateTable};
use crate::window::{
    lemma_means_bounded,
    mean_power_of,
    mean_rate_of,
    slide,
    ObservationWindow,
    Sample,
};

verus! {

/// What a controller decided at the end of a period: the record of one
/// decision, as it goes to the log.
#[derive(Clone, Copy, Debug, PartialEq, Eq, Structural)]
pub struct Decision {
    /// The tag of the call that closed the period.
    pub tag: u64,
    /// The state the system was in.
    pub previous_id: u32,
    /// The state chosen for the next period.
    pub new_id: u32,
    /// The mean rate over the window.
    pub observed_rate: u64,
    /// The mean power over the window.
    pub observed_power: u64,
}

/// What the actuator answered, as far as the reply to a call tells it.
pub open spec fn outcome_of(reply: Result<Option<Decision>, ActuationError>) -> Result<
    (),
    ActuationError,
> {
    match reply {
        Ok(_) => Ok(()),
        Err(e) => Err(e),
    }
}

/// A controller as a mathematical value.
pub struct Model {
    /// The operating states.
    pub table: Seq<StateEntry>,
    /// The throughput to sustain.
    pub perf_goal: u64,
    /// The number of calls between decisions.
    pub period: nat,
    /// The capacity of the window.
    pub depth: nat,
    /// The samples in the window, oldest first.
    pub window: Seq<Sample>,
    /// The state the system is in.
    pub current: int,
    /// The number of calls so far.
    pub calls: nat,
}

impl Model {
    /// The controller that has seen no call yet. It starts in the state that
    /// `seed` names, or in state 0 if `seed` names none of the table.
    pub open spec fn initial(
        table: Seq<StateEntry>,
        perf_goal: u64,
        period: nat,
        depth: nat,
        seed: Option<u32>,
    ) -> Model {
        Model {
            table,
            perf_goal,
            period,
            depth,
            window: Seq::empty(),
            current: match seed {
                Some(id) => if id < table.len() {
                    id as int
                } else {
                    0
                },
                None => 0,
            },
            calls: 0,
        }
    }

    /// What holds of every controller: it has a state to be in, a period and a
    /// window of at least one call, and no more samples than the window takes.
    pub open spec fn wf(self) -> bool {
        &&& self.table.len() >= 1
        &&& self.period >= 1
        &&& self.depth >= 1
        &&& self.window.len() <= self.depth
        &&& 0 <= self.current < self.table.len()
    }

    /// The controller after it has counted a call and taken in its sample.
    pub open spec fn recorded(self, s: Sample) -> Model {
        Model { window: slide(self.window, self.depth, s), calls: self.calls + 1, ..self }
    }

    /// Whether the call just counted closes a period with a full window, so
    /// that a decision is to be taken.
    pub open spec fn due(self) -> bool {
        self.calls % self.period == 0 && self.window.len() == self.depth
    }

    /// The mean rate over the window.
    pub open spec fn observed_rate(self) -> u64 {
        mean_rate_of(self.window) as u64
    }

    /// The mean power over the window.
    pub open spec fn observed_power(self) -> u64 {
        mean_power_of(self.window) as u64
    }

    /// The state that the selection rule picks on what the window shows.
    pub open spec fn target(self) -> int {
        selected(self.table, self.current, self.perf_goal, self.observed_rate())
    }

    /// The record of the decision taken on the call tagged `tag`.
    pub open spec fn decision(self, tag: u64) -> Decision {
        Decision {
            tag,
            previous_id: self.current as u32,
            new_id: self.target() as u32,
            observed_rate: self.observed_rate(),
            observed_power: self.observed_power(),
        }
    }

    /// The controller once the system is in state `id`.
    pub open spec fn moved_to(self, id: int) -> Model {
        Model { current: id, ..self }
    }

    /// Whether the call that brings `s` asks the actuator for a change: it
    /// closes a period with a full window, and the rule picks another state
    /// than the current one.
    pub open spec fn actuates(self, s: Sample) -> bool {
        let m = self.recorded(s);
        m.due() && m.target() != m.current
    }

    /// The controller after the call that brings `s`, where `outcome` is what
    /// the actuator answers if it is asked. The sample is always taken in. The
    /// current state becomes the target of a decision unless the actuator was
    /// asked and failed.
    pub open spec fn step(self, s: Sample, outcome: Result<(), ActuationError>) -> Model {
        let m = self.recorded(s);
        if m.due() && (m.target() == m.current || outcome is Ok) {
            m.moved_to(m.target())
        } else {
            m
        }
    }

    /// What the call that brings `s` returns: nothing between decisions, the
    /// record of the decision when one was taken, and the actuator's error
    /// when it was asked and failed.
    pub open spec fn reply(self, s: Sample, outcome: Result<(), ActuationError>) -> Result<
        Option<Decision>,
        ActuationError,
    > {
        let m = self.recorded(s);
        if !m.due() {
            Ok(None)
        } else if m.target() == m.current {
            Ok(Some(m.decision(s.tag)))
        } else {
            match outcome {
                Ok(_) => Ok(Some(m.decision(s.tag))),
                Err(e) => Err(e),
            }
        }
    }
}

/// A call leaves a controller a controller: in particular the current state
/// stays a state of the table, whatever the actuator answers.
pub proof fn lemma_step_keeps_wf(m: Model, s: Sample, outcome: Result<(), ActuationError>)
    requires
        m.wf(),
    ensures
        m.recorded(s).wf(),
        m.step(s, outcome).wf(),
        0 <= m.recorded(s).target() < m.table.len(),
{
    let r = m.recorded(s);
    lemma_selection_exists(r.table, r.current, r.perf_goal, r.observed_rate());
}

/// The controller's state.
///
/// It owns the table of states and the window of samples, and keeps the state
/// the system is in and the position within the period.
#[allow(non_camel_case_types)]
pub struct poet_state {
    table: StateTable,
    window: ObservationWindow,
    perf_goal: u64,
    period: u32,
    phase: u32,
    invocation_count: u64,
    current_state_id: u32,
    calls: Ghost<nat>,
}

impl View for poet_state {
    type V = Model;

    closed spec fn view(&self) -> Model {
        Model {
            table: self.table@,
            perf_goal: self.perf_goal,
            period: self.period as nat,
            depth: self.window.capacity(),
            window: self.window@,
            current: self.current_state_id as int,
            calls: self.calls@,
        }
    }
}

impl poet_state {
    /// The parts are well formed and the counters agree with the number of
    /// calls: `phase` is that number modulo the period, and
    /// `invocation_count` is that number as long as it fits.
    pub closed spec fn inv(&self) -> bool {
        &&& self.table.wf()
        &&& self.window.wf()
        &&& self.period >= 1
        &&& self.phase < self.period
        &&& self.phase == self.calls@ % (self.period as nat)
        &&& self.invocation_count == if self.calls@ <= u64::MAX {
            self.calls@
        } else {
            u64::MAX as nat
        }
        &&& self.current_state_id < self.table@.len()
    }

    /// The table this state owns.
    pub closed spec fn states(&self) -> StateTable {
        self.table
    }

    /// A state is well formed when its representation is consistent and its
    /// model is a controller.
    pub open spec fn wf(&self) -> bool {
        &&& self.inv()
        &&& self@.wf()
        &&& self.states().wf()
        &&& self.states()@ == self@.table
    }

    /// A controller that has seen no call, with goal `perf_goal`, deciding
    /// every `period` calls on the last `buffer_depth` samples. `seed` is the
    /// state the system was found in, if that is known; one that the table
    /// does not have counts as unknown, and the controller then starts in
    /// state 0. A zero `period` or `buffer_depth` is refused.
    pub fn new(
        perf_goal: u64,
        table: StateTable,
        period: u32,
        buffer_depth: u32,
        seed: Option<u32>,
    ) -> (r: Result<poet_state, InitError>)
        requires
            table.wf(),
        ensures
            period == 0 || buffer_depth == 0 <==> r == Err::<poet_state, InitError>(
                InitError::InvalidParameter,
            ),
            period == 0 || buffer_depth == 0 <==> r is Err,
            r matches Ok(p) ==> p.wf() && p.states() == table && p@ == Model::initial(
                table@,
                perf_goal,
                period as nat,
                buffer_depth as nat,
                seed,
            ),
    {
        if period == 0 {
            return Err(InitError::InvalidParameter);
        }
        let window = match ObservationWindow::new(buffer_depth) {
            Ok(w) => w,
            Err(_) => {
                return Err(InitError::InvalidParameter);
            },
        };
        let current: u32 = match seed {
            Some(id) => if (id as usize) < table.len() {
                id
            } else {
                0
            },
            None => 0,
        };
        Ok(
            poet_state {
                table,
                window,
                perf_goal,
                period,
                phase: 0,
                invocation_count: 0,
                current_state_id: current,
                calls: Ghost(0),
            },
        )
    }

    /// The state the system is in.
    pub fn current_state_id(&self) -> (id: u32)
        requires
            self.wf(),
        ensures
            id == self@.current,
            id < self@.table.len(),
    {
        self.current_state_id
    }

    /// The number of calls recorded so far; it stops counting at `u64::MAX`.
    pub fn invocation_count(&self) -> (n: u64)
        requires
            self.wf(),
        ensures
            n == if self@.calls <= u64::MAX {
                self@.calls
            } else {
                u64::MAX as nat
            },
    {
        self.invocation_count
    }

    /// The throughput to sustain.
    pub fn perf_goal(&self) -> (g: u64)
        ensures
            g == self@.perf_goal,
    {
        self.perf_goal
    }

    /// The number of calls between decisions.
    pub fn period(&self) -> (p: u32)
        ensures
            p == self@.period,
    {
        self.period
    }

    /// The table of operating states.
    pub fn table(&self) -> (t: &StateTable)
        ensures
            *t == self.states(),
    {
        &self.table
    }

    /// The window of recent samples.
    pub fn window(&self) -> (w: &ObservationWindow)
        requires
            self.wf(),
        ensures
            w.wf(),
            w@ == self@.window,
            w.capacity() == self@.depth,
    {
        &self.window
    }

    /// Counts a call and takes in its sample. If the call closes a period and
    /// the window is full, returns the decision that the selection rule takes
    /// on the window's means; the current state is not changed yet, that is
    /// for [`poet_state::settle`].
    pub fn record(&mut self, tag: u64, rate: u64, power: u64) -> (pending: Option<Decision>)
        requires
            old(self).wf(),
        ensures
            final(self).wf(),
            final(self).states() == old(self).states(),
            final(self)@ == old(self)@.recorded(Sample { tag, rate, power }),
            pending == if final(self)@.due() {
                Some(final(self)@.decision(tag))
            } else {
                None
            },
            pending matches Some(d) ==> {
                &&& d.new_id == final(self)@.target()
                &&& d.new_id < final(self)@.table.len()
                &&& d.previous_id == final(self)@.current
            },
    {
        let ghost before = self@;
        self.window.push(Sample { tag, rate, power });
        proof {
            let c = self.calls@ as int;
            let p = self.period as int;
            lemma_fundamental_div_mod(c, p);
            if self.phase + 1 == self.period {
                assert(c + 1 == p * (c / p + 1) + 0) by (nonlinear_arith)
                    requires
                        c == p * (c / p) + (p - 1),
                ;
                lemma_fundamental_div_mod_converse(c + 1, p, c / p + 1, 0);
            } else {
                lemma_fundamental_div_mod_converse(c + 1, p, c / p, self.phase as int + 1);
            }
        }
        self.phase = if self.phase + 1 == self.period {
            0
        } else {
            self.phase + 1
        };
        if self.invocation_count < u64::MAX {
            self.invocation_count = self.invocation_count + 1;
        }
        self.calls = Ghost((self.calls@ + 1) as nat);
        assert(self@ == before.recorded(Sample { tag, rate, power }));
        proof {
            lemma_step_keeps_wf(before, Sample { tag, rate, power }, Ok(()));
        }
        if self.phase == 0 && self.window.is_full() {
            proof {
                lemma_means_bounded(self.window@);
            }
            let observed_rate: u64 = self.window.mean_rate();
            let observed_power: u64 = self.window.mean_power();
            let new_id: u32 = select(&self.table, self.current_state_id, self.perf_goal, observed_rate);
            Some(
                Decision {
                    tag,
                    previous_id: self.current_state_id,
                    new_id,
                    observed_rate,
                    observed_power,
                },
            )
        } else {
            None
        }
    }

    /// Closes a decision once the actuator has answered: if the answer is
    /// `Ok`, the current state becomes the decision's new state and the
    /// decision is handed back; if it is an error, the current state stays as
    /// it was and the error is handed back.
    pub fn settle(&mut self, decision: Decision, outcome: Result<(), ActuationError>) -> (r:
        Result<Decision, ActuationError>)
        requires
            old(self).wf(),
            decision.new_id < old(self)@.table.len(),
        ensures
            final(self).wf(),
            final(self).states() == old(self).states(),
            outcome is Ok ==> {
                &&& r == Ok::<Decision, ActuationError>(decision)
                &&& final(self)@ == old(self)@.moved_to(decision.new_id as int)
            },
            outcome matches Err(e) ==> {
                &&& r == Err::<Decision, ActuationError>(e)
                &&& final(self)@ == old(self)@
            },
    {
        match outcome {
            Ok(_) => {
                self.current_state_id = decision.new_id;
                Ok(decision)
            },
            Err(e) => Err(e),
        }
    }
}

} // verus!
