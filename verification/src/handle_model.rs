//! The mathematical model of the handle table: its states and its transitions.

use vstd::prelude::*;

use crate::wasm_abi::{
    handle_generation, handle_index, packed, well_formed_handle, WasmAbiStatus, WasmHandle,
    MAX_GENERATION, MAX_INDEX, MIN_GENERATION, NULL_HANDLE,
};

verus! {

/// One entry of a handle table.
pub struct Slot<T> {
    /// The object this slot names, or `None` if the slot is vacant.
    pub payload: Option<T>,
    /// Bumped on every release, so handles minted for earlier occupants stop resolving.
    pub generation: u32,
    /// Set once the generation counter is exhausted. A retired slot is never reused.
    pub retired: bool,
}

/// A state of a handle table.
#[verifier::ext_equal]
pub struct TableView<T> {
    pub slots: Seq<Slot<T>>,
    /// Vacant slots that may be reused; the last one is reused first.
    pub free_list: Seq<u32>,
    /// The slots filled while some scope was open, in order.
    pub scope_allocations: Seq<u32>,
    /// For each open scope, how many allocations there were when it was entered.
    pub scope_marks: Seq<nat>,
    /// The most handles that may be live at a time.
    pub max_handles: u32,
}

/// Something done to a handle table.
pub enum TableOp<T> {
    Insert(T),
    Remove(WasmHandle),
    EnterScope,
    ExitScope(u32),
    Clear,
}

/// The number of slots that name an object.
pub open spec fn occupied<T>(slots: Seq<Slot<T>>) -> nat
    decreases slots.len(),
{
    if slots.len() == 0 {
        0
    } else {
        occupied(slots.drop_last()) + if slots.last().payload is Some {
            1nat
        } else {
            0nat
        }
    }
}

/// The objects that the slots name, in the order of the slots.
pub open spec fn occupants<T>(slots: Seq<Slot<T>>) -> Seq<T>
    decreases slots.len(),
{
    if slots.len() == 0 {
        Seq::empty()
    } else {
        match slots.last().payload {
            Some(payload) => occupants(slots.drop_last()).push(payload),
            None => occupants(slots.drop_last()),
        }
    }
}

impl<T> Slot<T> {
    /// What is left of a slot when its object is released: the next generation, or nothing ever
    /// again if there is no next one.
    pub open spec fn vacated(self) -> Slot<T> {
        if self.generation >= MAX_GENERATION {
            Slot { payload: None, generation: self.generation, retired: true }
        } else {
            Slot {
                payload: None,
                generation: (self.generation + 1) as u32,
                retired: self.retired,
            }
        }
    }
}

impl<T> TableView<T> {
    /// What holds of every state of a table.
    pub open spec fn wf(self) -> bool {
        &&& self.slots.len() <= MAX_INDEX + 1
        &&& 1 <= self.max_handles <= MAX_INDEX + 1
        &&& occupied(self.slots) <= self.max_handles
        &&& forall|i: int|
            #![trigger self.slots[i]]
            0 <= i < self.slots.len() ==> {
                &&& MIN_GENERATION <= self.slots[i].generation <= MAX_GENERATION
                &&& self.slots[i].retired ==> self.slots[i].payload is None
            }
        &&& forall|j: int|
            #![trigger self.free_list[j]]
            0 <= j < self.free_list.len() ==> {
                &&& self.free_list[j] < self.slots.len()
                &&& self.slots[self.free_list[j] as int].payload is None
                &&& !self.slots[self.free_list[j] as int].retired
            }
        &&& self.free_list.no_duplicates()
        &&& forall|k: int|
            #![trigger self.scope_marks[k]]
            0 <= k < self.scope_marks.len() ==> self.scope_marks[k]
                <= self.scope_allocations.len()
        &&& forall|k: int, l: int|
            #![trigger self.scope_marks[k], self.scope_marks[l]]
            0 <= k <= l < self.scope_marks.len() ==> self.scope_marks[k] <= self.scope_marks[l]
    }

    /// A table without a handle and without a scope.
    pub open spec fn new(max_handles: u32) -> Self {
        TableView {
            slots: Seq::empty(),
            free_list: Seq::empty(),
            scope_allocations: Seq::empty(),
            scope_marks: Seq::empty(),
            max_handles,
        }
    }

    /// The number of open scopes.
    pub open spec fn depth(self) -> nat {
        self.scope_marks.len()
    }

    /// The handle of the current generation of a slot.
    pub open spec fn handle_of(self, index: int) -> WasmHandle {
        packed(index, self.slots[index].generation as int)
    }

    /// Whether a handle has the form of one and names a slot that exists.
    pub open spec fn names_a_slot(self, handle: WasmHandle) -> bool {
        well_formed_handle(handle) && handle_index(handle) < self.slots.len()
    }

    /// Whether a handle currently names an object.
    pub open spec fn is_live(self, handle: WasmHandle) -> bool {
        &&& self.names_a_slot(handle)
        &&& self.slots[handle_index(handle)].generation == handle_generation(handle)
        &&& self.slots[handle_index(handle)].payload is Some
    }

    /// The object that each live handle names.
    pub open spec fn live(self) -> Map<WasmHandle, T> {
        Map::new(
            |handle: WasmHandle| self.is_live(handle),
            |handle: WasmHandle| self.slots[handle_index(handle)].payload->0,
        )
    }

    /// Whether some live handle names an object.
    pub open spec fn names(self, payload: T) -> bool {
        exists|handle: WasmHandle| #[trigger]
            self.is_live(handle) && self.live()[handle] == payload
    }

    /// Whether a handle has been minted: its slot has gone past its generation, or is in that
    /// generation and names an object, or has been given up with it. Every live handle is spent,
    /// and none that is spent is minted again.
    pub open spec fn spent(self, handle: WasmHandle) -> bool {
        let slot = self.slots[handle_index(handle)];
        &&& self.names_a_slot(handle)
        &&& {
            ||| handle_generation(handle) < slot.generation
            ||| handle_generation(handle) == slot.generation && (slot.payload is Some
                || slot.retired)
        }
    }

    /// What a handle resolves to. A handle that never existed is told apart from one whose object
    /// is gone.
    pub open spec fn lookup(self, handle: WasmHandle) -> Result<T, WasmAbiStatus> {
        if handle == NULL_HANDLE {
            Err(WasmAbiStatus::NullHandle)
        } else if self.is_live(handle) {
            Ok(self.live()[handle])
        } else if self.spent(handle) {
            Err(WasmAbiStatus::StaleHandle)
        } else {
            Err(WasmAbiStatus::InvalidHandle)
        }
    }

    // -- Transitions ---------------------------------------------------------------------

    /// Whether there is room for one more handle: the cap is not reached, and there is a slot
    /// to reuse or an index left for a new one.
    pub open spec fn can_insert(self) -> bool {
        &&& occupied(self.slots) < self.max_handles
        &&& self.free_list.len() > 0 || self.slots.len() <= MAX_INDEX
    }

    /// The slot that the next object goes to: the one freed last, else a new one.
    pub open spec fn next_index(self) -> int {
        if self.free_list.len() > 0 {
            self.free_list.last() as int
        } else {
            self.slots.len() as int
        }
    }

    /// The handle that the next object gets.
    pub open spec fn next_handle(self) -> WasmHandle {
        if self.free_list.len() > 0 {
            self.handle_of(self.next_index())
        } else {
            packed(self.next_index(), MIN_GENERATION as int)
        }
    }

    /// The state after an object is inserted.
    pub open spec fn inserted(self, payload: T) -> Self {
        let index = self.next_index();
        TableView {
            slots: if self.free_list.len() > 0 {
                self.slots.update(index, Slot { payload: Some(payload), ..self.slots[index] })
            } else {
                self.slots.push(
                    Slot {
                        payload: Some(payload),
                        generation: MIN_GENERATION,
                        retired: false,
                    },
                )
            },
            free_list: if self.free_list.len() > 0 {
                self.free_list.drop_last()
            } else {
                self.free_list
            },
            scope_allocations: if self.depth() > 0 {
                self.scope_allocations.push(index as u32)
            } else {
                self.scope_allocations
            },
            ..self
        }
    }

    /// The state after whatever a slot names is released. A vacant slot stays as it is.
    pub open spec fn released(self, index: int) -> Self {
        if 0 <= index < self.slots.len() && self.slots[index].payload is Some {
            TableView {
                slots: self.slots.update(index, self.slots[index].vacated()),
                free_list: if self.slots[index].generation >= MAX_GENERATION {
                    self.free_list
                } else {
                    self.free_list.push(index as u32)
                },
                ..self
            }
        } else {
            self
        }
    }

    /// The state after a list of slots is released, last one first.
    pub open spec fn all_released(self, indices: Seq<u32>) -> Self
        decreases indices.len(),
    {
        if indices.len() == 0 {
            self
        } else {
            self.released(indices.last() as int).all_released(indices.drop_last())
        }
    }

    /// The state after a scope is opened.
    pub open spec fn entered(self) -> Self {
        TableView {
            scope_marks: self.scope_marks.push(self.scope_allocations.len()),
            ..self
        }
    }

    /// The slots filled since the innermost scope was opened.
    pub open spec fn innermost(self) -> Seq<u32> {
        self.scope_allocations.skip(self.scope_marks.last() as int)
    }

    /// The state after the innermost scope is closed.
    pub open spec fn exited(self) -> Self {
        TableView {
            scope_allocations: self.scope_allocations.take(self.scope_marks.last() as int),
            scope_marks: self.scope_marks.drop_last(),
            ..self.all_released(self.innermost())
        }
    }

    /// The state after everything is released at once and all scopes are closed. No slot is
    /// put up for reuse.
    pub open spec fn cleared(self) -> Self {
        TableView {
            slots: self.slots.map_values(
                |slot: Slot<T>|
                    if slot.payload is Some {
                        slot.vacated()
                    } else {
                        slot
                    },
            ),
            free_list: Seq::empty(),
            scope_allocations: Seq::empty(),
            scope_marks: Seq::empty(),
            ..self
        }
    }

    /// The state after one operation. An operation that is refused changes nothing.
    pub open spec fn apply(self, op: TableOp<T>) -> Self {
        match op {
            TableOp::Insert(payload) => if self.can_insert() {
                self.inserted(payload)
            } else {
                self
            },
            TableOp::Remove(handle) => if self.is_live(handle) {
                self.released(handle_index(handle))
            } else {
                self
            },
            TableOp::EnterScope => self.entered(),
            TableOp::ExitScope(token) => if self.depth() > 0 && token == self.depth() {
                self.exited()
            } else {
                self
            },
            TableOp::Clear => self.cleared(),
        }
    }

    /// The state after a run of operations.
    pub open spec fn run(self, ops: Seq<TableOp<T>>) -> Self
        decreases ops.len(),
    {
        if ops.len() == 0 {
            self
        } else {
            self.run(ops.drop_last()).apply(ops.last())
        }
    }

    /// What the passage of time may do to a table: no handle becomes mintable again, and a
    /// handle that was spent before and is live afterwards was live all along and names the
    /// object it always named.
    pub open spec fn evolves_to(self, later: Self) -> bool {
        &&& forall|handle: WasmHandle| #[trigger] self.spent(handle) ==> later.spent(handle)
        &&& forall|handle: WasmHandle| #[trigger]
            self.spent(handle) && later.is_live(handle) ==> {
                &&& self.is_live(handle)
                &&& self.live()[handle] == later.live()[handle]
            }
    }
}

// ---------------------------------------------------------------------------------------
// Counting
// ---------------------------------------------------------------------------------------

/// Filling or vacating one slot changes the count by what that slot contributes.
pub proof fn lemma_occupied_update<T>(slots: Seq<Slot<T>>, index: int, slot: Slot<T>)
    requires
        0 <= index < slots.len(),
    ensures
        occupied(slots.update(index, slot)) + (if slots[index].payload is Some {
            1int
        } else {
            0int
        }) == occupied(slots) + (if slot.payload is Some {
            1int
        } else {
            0int
        }),
    decreases slots.len(),
{
    let updated = slots.update(index, slot);
    if index == slots.len() - 1 {
        assert(updated.drop_last() =~= slots.drop_last());
    } else {
        lemma_occupied_update(slots.drop_last(), index, slot);
        assert(updated.drop_last() =~= slots.drop_last().update(index, slot));
    }
}

/// A new slot counts if it names an object.
pub proof fn lemma_occupied_push<T>(slots: Seq<Slot<T>>, slot: Slot<T>)
    ensures
        occupied(slots.push(slot)) == occupied(slots) + (if slot.payload is Some {
            1int
        } else {
            0int
        }),
{
    assert(slots.push(slot).drop_last() =~= slots);
}

/// A slot that names an object makes the count positive.
pub proof fn lemma_occupied_positive<T>(slots: Seq<Slot<T>>, index: int)
    requires
        0 <= index < slots.len(),
        slots[index].payload is Some,
    ensures
        occupied(slots) > 0,
    decreases slots.len(),
{
    if index < slots.len() - 1 {
        lemma_occupied_positive(slots.drop_last(), index);
    }
}

/// Slots that all are vacant count nothing.
pub proof fn lemma_occupied_none<T>(slots: Seq<Slot<T>>)
    requires
        forall|i: int| 0 <= i < slots.len() ==> (#[trigger] slots[i]).payload is None,
    ensures
        occupied(slots) == 0,
    decreases slots.len(),
{
    if slots.len() > 0 {
        lemma_occupied_none(slots.drop_last());
    }
}

} // verus!
