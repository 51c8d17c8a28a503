//! The controller as an application holds it: the state, together with the
//! means to act on the system.

use vstd::prelude::*;
use crate::controller::{outcome_of, poet_state, Decision, Model};
use crate::error::{ActuationError, InitError};
use crate::states::{fault, paired, POETControlState, POETCpuState, StateTable};
use crate::window::Sample;

verus! {

/// The means to put the system into an operating state.
pub trait Actuator {
    /// Puts the system, which is in state `last_id`, into state `id`. The
    /// controller only asks for a state of `table`, and only for a change.
    fn apply(&mut self, table: &StateTable, id: u32, last_id: u32) -> (r: Result<
        (),
        ActuationError,
    >)
        requires
            table.wf(),
            id < table@.len(),
            last_id < table@.len(),
            id != last_id,
    ;
}

/// The means to find out which operating state the system is in.
pub trait Observer {
    /// The identifier of the state the system is in, or an error if that
    /// cannot be told.
    fn current_state(&mut self, table: &StateTable) -> (r: Result<u32, ActuationError>)
        requires
            table.wf(),
    ;
}

/// The state an observer's answer names, if it names one.
pub open spec fn seed_of(answer: Result<u32, ActuationError>) -> Option<u32> {
    match answer {
        Ok(id) => Some(id),
        Err(_) => None,
    }
}

/// What the set-up of a controller answers to these lists and parameters, if
/// it refuses them: the tables are looked at first, then the parameters.
pub open spec fn refusal(
    control: Seq<POETControlState>,
    system: Seq<POETCpuState>,
    period: u32,
    buffer_depth: u32,
) -> Option<InitError> {
    match fault(control, system) {
        Some(e) => Some(InitError::Config(e)),
        None => if period == 0 || buffer_depth == 0 {
            Some(InitError::InvalidParameter)
        } else {
            None
        },
    }
}

/// A live controller. It owns its state and its actuator; dropping it, or
/// handing it to [`POET::destroy`], releases both.
pub struct POET<A: Actuator> {
    poet: poet_state,
    actuator: A,
}

impl<A: Actuator> View for POET<A> {
    type V = Model;

    open spec fn view(&self) -> Model {
        self.inner()@
    }
}

impl<A: Actuator> POET<A> {
    /// The controller's state.
    pub closed spec fn inner(&self) -> poet_state {
        self.poet
    }

    /// The actuator the controller holds.
    pub closed spec fn device(&self) -> A {
        self.actuator
    }

    /// A controller is well formed when its state is.
    pub open spec fn wf(&self) -> bool {
        self.inner().wf()
    }

    /// Sets up a controller from the outcome of asking the observer.
    ///
    /// The lists are paired into a table and the parameters checked, in the
    /// order that [`refusal`] gives. The controller starts in the state that
    /// `found` names; if `found` is an error or names no state of the table,
    /// it starts in state 0.
    pub fn with_seed(
        perf_goal: u64,
        control_states: &Vec<POETControlState>,
        cpu_states: &Vec<POETCpuState>,
        actuator: A,
        found: Result<u32, ActuationError>,
        period: u32,
        buffer_depth: u32,
    ) -> (r: Result<POET<A>, InitError>)
        ensures
            match refusal(control_states@, cpu_states@, period, buffer_depth) {
                Some(e) => r == Err::<POET<A>, InitError>(e),
                None => r is Ok,
            },
            r matches Ok(p) ==> p.wf() && p.device() == actuator && p@ == Model::initial(
                paired(control_states@, cpu_states@),
                perf_goal,
                period as nat,
                buffer_depth as nat,
                seed_of(found),
            ),
    {
        let table = match StateTable::build(control_states, cpu_states) {
            Ok(t) => t,
            Err(e) => {
                return Err(InitError::Config(e));
            },
        };
        let seed: Option<u32> = match found {
            Ok(id) => Some(id),
            Err(_) => None,
        };
        match poet_state::new(perf_goal, table, period, buffer_depth, seed) {
            Ok(poet) => Ok(POET { poet, actuator }),
            Err(e) => Err(e),
        }
    }

    /// Sets up a controller with goal `perf_goal` over the states that the
    /// two lists describe, deciding every `period` calls on the last
    /// `buffer_depth` samples.
    ///
    /// The lists and parameters are checked in the order that [`refusal`]
    /// gives; if they pass, the set-up succeeds. The observer is asked once
    /// which state the system is in, and the controller starts there; if the
    /// observer cannot tell or names no state of the table, it starts in
    /// state 0.
    pub fn new<O: Observer>(
        perf_goal: u64,
        control_states: &Vec<POETControlState>,
        cpu_states: &Vec<POETCpuState>,
        actuator: A,
        observer: &mut O,
        period: u32,
        buffer_depth: u32,
    ) -> (r: Result<POET<A>, InitError>)
        ensures
            match refusal(control_states@, cpu_states@, period, buffer_depth) {
                Some(e) => r == Err::<POET<A>, InitError>(e),
                None => r is Ok,
            },
            r matches Ok(p) ==> p.wf() && p.device() == actuator && p@ == Model::initial(
                paired(control_states@, cpu_states@),
                perf_goal,
                period as nat,
                buffer_depth as nat,
                Some(p@.current as u32),
            ),
    {
        let table = match StateTable::build(control_states, cpu_states) {
            Ok(t) => t,
            Err(e) => {
                return Err(InitError::Config(e));
            },
        };
        if period == 0 || buffer_depth == 0 {
            return Err(InitError::InvalidParameter);
        }
        let seed: Option<u32> = match observer.current_state(&table) {
            Ok(id) => Some(id),
            Err(_) => None,
        };
        match poet_state::new(perf_goal, table, period, buffer_depth, seed) {
            Ok(poet) => Ok(POET { poet, actuator }),
            Err(e) => Err(e),
        }
    }

    /// The controller's state.
    pub fn state(&self) -> (s: &poet_state)
        requires
            self.wf(),
        ensures
            s.wf(),
            s@ == self@,
            *s == self.inner(),
    {
        &self.poet
    }

    /// The actuator.
    pub fn actuator(&self) -> (a: &A)
        ensures
            *a == self.device(),
    {
        &self.actuator
    }

    /// Takes in one report: the application made one unit of progress,
    /// labelled `tag`, at throughput `window_rate` and power `window_power`.
    ///
    /// The sample is recorded. If the call closes a period and the window is
    /// full, a decision is taken; if it picks another state than the current
    /// one, the actuator is asked, once, to change from the current state to
    /// the one picked, and otherwise it is not asked. The reply is `Ok(None)`
    /// between decisions, the record of the decision when one was taken, and
    /// the actuator's error when it failed; in that case the current state is
    /// left as it was.
    pub fn apply_control(&mut self, tag: u64, window_rate: u64, window_power: u64) -> (r: Result<
        Option<Decision>,
        ActuationError,
    >)
        requires
            old(self).wf(),
        ensures
            final(self).wf(),
            r is Err ==> old(self)@.actuates(Sample { tag, rate: window_rate, power: window_power }),
            final(self)@ == old(self)@.step(
                Sample { tag, rate: window_rate, power: window_power },
                outcome_of(r),
            ),
            r == old(self)@.reply(
                Sample { tag, rate: window_rate, power: window_power },
                outcome_of(r),
            ),
            r is Err ==> final(self)@.current == old(self)@.current,
            !old(self)@.actuates(Sample { tag, rate: window_rate, power: window_power })
                ==> final(self).device() == old(self).device(),
    {
        let pending: Option<Decision> = self.poet.record(tag, window_rate, window_power);
        match pending {
            None => Ok(None),
            Some(decision) => {
                let outcome: Result<(), ActuationError> = if decision.new_id
                    != decision.previous_id {
                    self.actuator.apply(self.poet.table(), decision.new_id, decision.previous_id)
                } else {
                    Ok(())
                };
                match self.poet.settle(decision, outcome) {
                    Ok(d) => Ok(Some(d)),
                    Err(e) => Err(e),
                }
            },
        }
    }

    /// Ends the controller and hands back its actuator. The controller is
    /// consumed: it cannot be used or ended again.
    pub fn destroy(self) -> (a: A)
        ensures
            a == self.device(),
    {
        self.actuator
    }
}

} // verus!
