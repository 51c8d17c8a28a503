//! The operating states a controller chooses among.
//!
//! A state has two descriptions: its model (how much faster and how much more
//! costly than the baseline) and its realisation on the machine. A
//! [`StateTable`] keeps the two side by side, one [`StateEntry`] per state, so
//! that they cannot drift apart.

use vstd::prelude::*;
use crate::error::ConfigError;

verus! {

/// The fixed-point value that stands for `1.0`.
pub const FIXED_ONE: u64 = 1_000_000;

/// The model of one operating state.
#[derive(Clone, Copy, Debug, PartialEq, Eq, Structural)]
pub struct POETControlState {
    /// The state's identifier: its position in the table.
    pub id: u32,
    /// Throughput relative to the baseline state, in fixed point.
    pub speedup: u64,
    /// Power relative to the baseline state, in fixed point.
    pub cost: u64,
}

impl Default for POETControlState {
    /// The baseline state: identifier 0, speedup and cost both `1.0`.
    fn default() -> (r: POETControlState)
        ensures
            r == (POETControlState { id: 0, speedup: FIXED_ONE, cost: FIXED_ONE }),
    {
        POETControlState { id: 0, speedup: FIXED_ONE, cost: FIXED_ONE }
    }
}

/// The machine configuration that realises one operating state.
#[derive(Clone, Copy, Debug, PartialEq, Eq, Structural)]
pub struct POETCpuState {
    /// The state's identifier: its position in the table.
    pub id: u32,
    /// Processor frequency.
    pub freq: u32,
    /// Number of active cores.
    pub cores: u32,
}

impl Default for POETCpuState {
    /// Identifier 0 with no frequency and no cores set.
    fn default() -> (r: POETCpuState)
        ensures
            r == (POETCpuState { id: 0, freq: 0, cores: 0 }),
    {
        POETCpuState { id: 0, freq: 0, cores: 0 }
    }
}

/// One operating state: its model and its realisation.
#[derive(Clone, Copy, Debug, PartialEq, Eq, Structural)]
pub struct StateEntry {
    pub control: POETControlState,
    pub system: POETCpuState,
}

/// Whether position `i` of both lists carries the identifier `i`.
pub open spec fn ids_agree_at(
    control: Seq<POETControlState>,
    system: Seq<POETCpuState>,
    i: int,
) -> bool {
    control[i].id == i && system[i].id == i
}

/// Whether two lists of equal length carry, at each position, that position as
/// identifier.
pub open spec fn ids_agree(control: Seq<POETControlState>, system: Seq<POETCpuState>) -> bool {
    forall|i: int| 0 <= i < control.len() ==> ids_agree_at(control, system, i)
}

/// The entries that pair two lists position by position.
pub open spec fn paired(control: Seq<POETControlState>, system: Seq<POETCpuState>) -> Seq<
    StateEntry,
> {
    Seq::new(control.len(), |i: int| StateEntry { control: control[i], system: system[i] })
}

/// What is wrong with two lists as descriptions of one set of states, if
/// anything: the lengths are compared first, then the identifiers.
pub open spec fn fault(control: Seq<POETControlState>, system: Seq<POETCpuState>) -> Option<
    ConfigError,
> {
    if control.len() != system.len() {
        Some(ConfigError::MismatchedLength)
    } else if control.len() == 0 {
        Some(ConfigError::Empty)
    } else if !ids_agree(control, system) {
        Some(ConfigError::MismatchedId)
    } else {
        None
    }
}

/// The paired, non-empty, immutable table of operating states.
pub struct StateTable {
    entries: Vec<StateEntry>,
}

impl View for StateTable {
    type V = Seq<StateEntry>;

    closed spec fn view(&self) -> Seq<StateEntry> {
        self.entries@
    }
}

impl StateTable {
    /// A table is well formed when it is not empty and the entry at each
    /// position carries that position as identifier, in both descriptions.
    pub open spec fn wf(&self) -> bool {
        &&& self@.len() >= 1
        &&& forall|i: int|
            0 <= i < self@.len() ==> (#[trigger] self@[i]).control.id == i && self@[i].system.id
                == i
    }

    /// The models of the states, in table order.
    pub open spec fn control_states(&self) -> Seq<POETControlState> {
        self@.map_values(|e: StateEntry| e.control)
    }

    /// The realisations of the states, in table order.
    pub open spec fn system_states(&self) -> Seq<POETCpuState> {
        self@.map_values(|e: StateEntry| e.system)
    }

    /// Pairs the two lists into a table.
    ///
    /// Lists of different lengths are refused with `MismatchedLength`, two
    /// empty lists with `Empty`, and lists in which some position does not
    /// carry its own index as identifier with `MismatchedId`.
    pub fn build(control: &Vec<POETControlState>, system: &Vec<POETCpuState>) -> (r: Result<
        StateTable,
        ConfigError,
    >)
        ensures
            match fault(control@, system@) {
                Some(e) => r == Err::<StateTable, ConfigError>(e),
                None => r is Ok,
            },
            r matches Ok(t) ==> t.wf() && t@ == paired(control@, system@),
    {
        if control.len() != system.len() {
            return Err(ConfigError::MismatchedLength);
        }
        let n: usize = control.len();
        if n == 0 {
            return Err(ConfigError::Empty);
        }
        let mut entries: Vec<StateEntry> = Vec::new();
        let mut i: usize = 0;
        while i < n
            invariant
                i <= n,
                n == control@.len(),
                n == system@.len(),
                entries@.len() == i,
                forall|j: int| 0 <= j < i ==> ids_agree_at(control@, system@, j),
                forall|j: int|
                    0 <= j < i ==> #[trigger] entries@[j] == (StateEntry {
                        control: control@[j],
                        system: system@[j],
                    }),
            decreases n - i,
        {
            let c: POETControlState = control[i];
            let s: POETCpuState = system[i];
            if i > u32::MAX as usize || c.id != i as u32 || s.id != i as u32 {
                assert(!ids_agree_at(control@, system@, i as int));
                return Err(ConfigError::MismatchedId);
            }
            entries.push(StateEntry { control: c, system: s });
            i = i + 1;
        }
        let table = StateTable { entries };
        assert(table@ =~= paired(control@, system@));
        assert forall|j: int| 0 <= j < table@.len() implies (#[trigger] table@[j]).control.id == j
            && table@[j].system.id == j by {
            assert(ids_agree_at(control@, system@, j));
        }
        Ok(table)
    }

    /// The number of states.
    pub fn len(&self) -> (n: usize)
        ensures
            n == self@.len(),
    {
        self.entries.len()
    }

    /// The state at position `i`, which the table must have.
    pub fn entry(&self, i: usize) -> (e: StateEntry)
        requires
            i < self@.len(),
        ensures
            e == self@[i as int],
    {
        self.entries[i]
    }

    /// The state with identifier `id`, if the table has one.
    pub fn entry_at(&self, id: u32) -> (r: Option<StateEntry>)
        ensures
            id < self@.len() ==> r == Some(self@[id as int]),
            id >= self@.len() ==> r is None,
    {
        if (id as usize) < self.entries.len() {
            Some(self.entry(id as usize))
        } else {
            None
        }
    }
}

/// In a well-formed table the two descriptions have the same, non-zero number
/// of states, and the same identifier at each position.
pub proof fn lemma_table_is_paired(t: StateTable)
    requires
        t.wf(),
    ensures
        t.control_states().len() == t.system_states().len(),
        t.control_states().len() >= 1,
        ids_agree(t.control_states(), t.system_states()),
        t@ == paired(t.control_states(), t.system_states()),
{
    assert(t@ =~= paired(t.control_states(), t.system_states()));
}

} // verus!
