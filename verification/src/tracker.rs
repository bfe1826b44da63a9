//! The state tracking engine's data model: observed value changes,
//! the change lists the three tracking variants accumulate, and the
//! diff-append step every variant shares.

use vstd::prelude::*;
use crate::format::{spec_parse_hex, hex_to_decimal, NumParseError};

verus! {

/// Why a scan cannot start.
#[derive(Debug, Clone, Copy, PartialEq, Eq, Structural)]
pub enum TrackError {
    /// The origin block is not strictly below the terminal block.
    OriginBeyondTerminal,
}

/// Settles the terminal block of a historical scan: the configured one,
/// or the current head when none is configured; the origin must lie
/// strictly below it.
pub fn resolve_terminal_block(origin_block: u64, terminal_block: Option<u64>, current_head: u64) -> (r:
    Result<u64, TrackError>)
    ensures
        ({
            let t = match terminal_block {
                Some(t) => t,
                None => current_head,
            };
            &&& r is Ok <==> origin_block < t
            &&& r is Ok ==> r->Ok_0 == t
            &&& r is Err ==> r->Err_0 == TrackError::OriginBeyondTerminal
        }),
{
    let t = match terminal_block {
        Some(t) => t,
        None => current_head,
    };
    if origin_block >= t {
        Err(TrackError::OriginBeyondTerminal)
    } else {
        Ok(t)
    }
}

/// The per-step distance of a historical scan, and whether the
/// lost-context warning is owed: a configured interval is used as
/// given and warned about, otherwise every block is visited.
pub fn scan_interval(query_interval: Option<u64>) -> (r: (u64, bool))
    ensures
        query_interval is Some ==> r.0 == query_interval->0 && r.1 == true,
        query_interval is None ==> r.0 == 1 && r.1 == false,
{
    match query_interval {
        Some(x) => (x, true),
        None => (1, false),
    }
}

/// Whether a live watch has reached its terminal block: never, when no
/// terminal is set; otherwise by reading the node's hex block number.
pub fn reached_terminal(block_number_hex: &str, terminal_block: Option<u64>) -> (r: Result<
    bool,
    NumParseError,
>)
    ensures
        terminal_block is None ==> r == Ok::<bool, NumParseError>(false),
        terminal_block is Some ==> r == (match spec_parse_hex(block_number_hex@) {
            Ok(v) => Ok::<bool, NumParseError>(v >= terminal_block->0),
            Err(e) => Err::<bool, NumParseError>(e),
        }),
{
    match terminal_block {
        None => Ok(false),
        Some(t) => match hex_to_decimal(block_number_hex) {
            Ok(v) => Ok(v >= t),
            Err(e) => Err(e),
        },
    }
}

/// One observed change: the value a probe returned at a block.
#[derive(Debug, Clone, PartialEq, Eq)]
pub struct StateChange {
    pub block_number: u64,
    pub value: String,
}

/// The changes of one storage slot of one contract.
#[derive(Debug, Clone)]
pub struct StateChangeList {
    pub address: String,
    pub storage_slot: String,
    pub state_changes: Vec<StateChange>,
}

/// The changes of one read-only call's result against one contract.
#[derive(Debug, Clone)]
pub struct CallChangeList {
    pub address: String,
    pub calldata: String,
    pub state_changes: Vec<StateChange>,
}

/// The mathematical content of a [`StateChange`].
pub ghost struct ChangeView {
    pub block_number: nat,
    pub value: Seq<char>,
}

/// The mathematical content of a [`StateChangeList`].
pub ghost struct StateListView {
    pub address: Seq<char>,
    pub storage_slot: Seq<char>,
    pub changes: Seq<ChangeView>,
}

/// The mathematical content of a [`CallChangeList`].
pub ghost struct CallListView {
    pub address: Seq<char>,
    pub calldata: Seq<char>,
    pub changes: Seq<ChangeView>,
}

impl View for StateChange {
    type V = ChangeView;

    open spec fn view(&self) -> ChangeView {
        ChangeView { block_number: self.block_number as nat, value: self.value@ }
    }
}

impl View for StateChangeList {
    type V = StateListView;

    open spec fn view(&self) -> StateListView {
        StateListView {
            address: self.address@,
            storage_slot: self.storage_slot@,
            changes: self.state_changes@.map_values(|c: StateChange| c@),
        }
    }
}

impl View for CallChangeList {
    type V = CallListView;

    open spec fn view(&self) -> CallListView {
        CallListView {
            address: self.address@,
            calldata: self.calldata@,
            changes: self.state_changes@.map_values(|c: StateChange| c@),
        }
    }
}

/// The ordering invariant of an accumulated change list: block numbers
/// strictly increase, and no two adjacent entries carry the same value.
pub open spec fn changes_well_formed(s: Seq<StateChange>) -> bool {
    &&& forall|i: int| 0 <= i < s.len() - 1 ==> (#[trigger] s[i]).value@ != s[i + 1].value@
    &&& forall|i: int| 0 <= i < s.len() - 1 ==> (#[trigger] s[i]).block_number < s[i + 1].block_number
}

/// Whether an observation at this point would be appended: the first
/// observation always is, a later one only when the value moved.
pub open spec fn spec_should_record(s: Seq<StateChange>, value: Seq<char>) -> bool {
    s.len() == 0 || s.last().value@ != value
}

/// The diff-append step shared by all tracking variants: appends the
/// observation when it is the first one or differs from the last recorded
/// value, and keeps the ordering invariant.
pub fn record_observation(changes: &mut Vec<StateChange>, block_number: u64, value: String) -> (recorded: bool)
    requires
        changes_well_formed(old(changes)@),
        old(changes)@.len() > 0 ==> old(changes)@.last().block_number < block_number,
    ensures
        recorded == spec_should_record(old(changes)@, value@),
        recorded ==> final(changes)@ == old(changes)@.push((StateChange { block_number, value })),
        !recorded ==> final(changes)@ == old(changes)@,
        changes_well_formed(final(changes)@),
{
    let n = changes.len();
    let fresh = if n == 0 {
        true
    } else {
        changes[n - 1].value != value
    };
    if fresh {
        let ghost pre = changes@;
        changes.push(StateChange { block_number, value });
        proof {
            assert forall|i: int| 0 <= i < changes@.len() - 1 implies (#[trigger] changes@[i]).value@
                != changes@[i + 1].value@ && changes@[i].block_number < changes@[i + 1].block_number by {
                if i < pre.len() - 1 {
                    assert(changes@[i] == pre[i] && changes@[i + 1] == pre[i + 1]);
                } else {
                    assert(changes@[i] == pre.last());
                }
            }
        }
        true
    } else {
        false
    }
}

impl Default for StateChange {
    /// The zero observation: block 0 with an empty value.
    fn default() -> (r: StateChange)
        ensures
            r.block_number == 0,
            r.value@ == Seq::<char>::empty(),
    {
        StateChange { block_number: 0, value: String::new() }
    }
}

impl StateChangeList {
    /// An empty list for one address and slot.
    pub fn new(address: String, storage_slot: String) -> (r: StateChangeList)
        ensures
            r.address@ == address@,
            r.storage_slot@ == storage_slot@,
            r.state_changes@.len() == 0,
            changes_well_formed(r.state_changes@),
    {
        StateChangeList { address, storage_slot, state_changes: Vec::new() }
    }

    /// The diff-append step, on this list.
    pub fn record(&mut self, block_number: u64, value: String) -> (recorded: bool)
        requires
            changes_well_formed(old(self).state_changes@),
            old(self).state_changes@.len() > 0 ==> old(self).state_changes@.last().block_number
                < block_number,
        ensures
            recorded == spec_should_record(old(self).state_changes@, value@),
            recorded ==> final(self).state_changes@ == old(self).state_changes@.push(
                (StateChange { block_number, value }),
            ),
            !recorded ==> final(self).state_changes@ == old(self).state_changes@,
            changes_well_formed(final(self).state_changes@),
            final(self).address == old(self).address,
            final(self).storage_slot == old(self).storage_slot,
    {
        record_observation(&mut self.state_changes, block_number, value)
    }
}

impl CallChangeList {
    /// An empty list for one address and calldata.
    pub fn new(address: String, calldata: String) -> (r: CallChangeList)
        ensures
            r.address@ == address@,
            r.calldata@ == calldata@,
            r.state_changes@.len() == 0,
            changes_well_formed(r.state_changes@),
    {
        CallChangeList { address, calldata, state_changes: Vec::new() }
    }

    /// The diff-append step, on this list.
    pub fn record(&mut self, block_number: u64, value: String) -> (recorded: bool)
        requires
            changes_well_formed(old(self).state_changes@),
            old(self).state_changes@.len() > 0 ==> old(self).state_changes@.last().block_number
                < block_number,
        ensures
            recorded == spec_should_record(old(self).state_changes@, value@),
            recorded ==> final(self).state_changes@ == old(self).state_changes@.push(
                (StateChange { block_number, value }),
            ),
            !recorded ==> final(self).state_changes@ == old(self).state_changes@,
            changes_well_formed(final(self).state_changes@),
            final(self).address == old(self).address,
            final(self).calldata == old(self).calldata,
    {
        record_observation(&mut self.state_changes, block_number, value)
    }
}

} // verus!
