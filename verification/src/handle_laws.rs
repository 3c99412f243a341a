//! The laws of the handle table.
//!
//! The one that the table exists for: a handle that a module still holds can never silently
//! start naming a different object.

use vstd::prelude::*;

use crate::handle_model::{
    lemma_occupied_none, lemma_occupied_positive, lemma_occupied_push, lemma_occupied_update,
    occupants, occupied, Slot, TableOp, TableView,
};
use crate::wasm_abi::{
    handle_generation, handle_index, packable, packed, packing_undoes_unpacking,
    unpacking_undoes_packing, well_formed_handle, WasmAbiStatus, WasmHandle, MAX_GENERATION,
    MAX_INDEX, MIN_GENERATION, NULL_HANDLE,
};

verus! {

/// A live handle is the handle of the current generation of its slot, and is spent.
pub proof fn lemma_live_handle<T>(table: TableView<T>, handle: WasmHandle)
    requires
        table.wf(),
        table.is_live(handle),
    ensures
        handle == table.handle_of(handle_index(handle)),
        table.spent(handle),
{
    packing_undoes_unpacking(handle);
}

/// The handle of an occupied slot is live.
pub proof fn lemma_handle_of_is_live<T>(table: TableView<T>, index: int)
    requires
        table.wf(),
        0 <= index < table.slots.len(),
        table.slots[index].payload is Some,
    ensures
        table.is_live(table.handle_of(index)),
        handle_index(table.handle_of(index)) == index,
{
    unpacking_undoes_packing(index, table.slots[index].generation as int);
}

/// Inserting an object mints a handle that was never live before and that nothing minted
/// earlier can be mistaken for. All other handles keep what they name.
pub proof fn inserting_mints_a_fresh_handle<T>(table: TableView<T>, payload: T)
    requires
        table.wf(),
        table.can_insert(),
    ensures
        table.inserted(payload).wf(),
        !table.spent(table.next_handle()),
        table.next_handle() != NULL_HANDLE,
        table.next_handle() <= i32::MAX,
        table.inserted(payload).live() == table.live().insert(table.next_handle(), payload),
        forall|handle: WasmHandle| #[trigger]
            table.inserted(payload).spent(handle) <==> table.spent(handle) || handle
                == table.next_handle(),
        table.evolves_to(table.inserted(payload)),
        occupied(table.inserted(payload).slots) == occupied(table.slots) + 1,
{
    let after = table.inserted(payload);
    let index = table.next_index();
    let fresh = table.next_handle();
    if table.free_list.len() > 0 {
        assert(table.free_list[table.free_list.len() - 1] == index as u32);
        lemma_occupied_update(table.slots, index, after.slots[index]);
    } else {
        lemma_occupied_push(table.slots, after.slots.last());
    }
    let generation = after.slots[index].generation;
    assert(packable(index, generation as int));
    unpacking_undoes_packing(index, generation as int);
    assert(fresh == packed(index, generation as int));

    assert forall|i: int| 0 <= i < after.slots.len() implies {
        &&& MIN_GENERATION <= (#[trigger] after.slots[i]).generation <= MAX_GENERATION
        &&& after.slots[i].retired ==> after.slots[i].payload is None
    } by {
        if i < table.slots.len() {
            assert(table.slots[i].generation == after.slots[i].generation);
        }
    }
    assert forall|j: int| 0 <= j < after.free_list.len() implies {
        &&& (#[trigger] after.free_list[j]) < after.slots.len()
        &&& after.slots[after.free_list[j] as int].payload is None
        &&& !after.slots[after.free_list[j] as int].retired
    } by {
        assert(after.free_list[j] == table.free_list[j]);
        assert(table.free_list[j] != table.free_list[table.free_list.len() - 1]);
    }
    assert(after.free_list.no_duplicates());

    assert forall|handle: WasmHandle| #[trigger]
        after.spent(handle) <==> table.spent(handle) || handle == fresh by {
        if well_formed_handle(handle) {
            packing_undoes_unpacking(handle);
        }
    }
    assert forall|handle: WasmHandle| #[trigger]
        after.is_live(handle) <==> table.is_live(handle) || handle == fresh by {
        if well_formed_handle(handle) {
            packing_undoes_unpacking(handle);
        }
    }
    assert forall|handle: WasmHandle| #[trigger] table.is_live(handle) implies handle_index(handle)
        != index by {}
    assert(after.live() =~= table.live().insert(fresh, payload));
    assert forall|handle: WasmHandle| #[trigger]
        table.spent(handle) && after.is_live(handle) implies table.is_live(handle)
        && table.live()[handle] == after.live()[handle] by {
        assert(handle != fresh);
    }
}

/// Releasing a slot ends the handle that named its object, and no other.
pub proof fn releasing_ends_one_handle<T>(table: TableView<T>, index: int)
    requires
        table.wf(),
    ensures
        table.released(index).wf(),
        table.evolves_to(table.released(index)),
        forall|handle: WasmHandle| #[trigger]
            table.released(index).is_live(handle) <==> table.is_live(handle) && handle_index(
                handle,
            ) != index,
        forall|handle: WasmHandle| #[trigger]
            table.released(index).is_live(handle) ==> table.released(index).live()[handle]
                == table.live()[handle],
        0 <= index < table.slots.len() && table.slots[index].payload is Some ==> {
            &&& occupied(table.released(index).slots) == occupied(table.slots) - 1
            &&& table.released(index).live() == table.live().remove(table.handle_of(index))
        },
{
    if 0 <= index < table.slots.len() && table.slots[index].payload is Some {
        let after = table.released(index);
        let slot = table.slots[index];
        lemma_occupied_update(table.slots, index, slot.vacated());
        lemma_occupied_positive(table.slots, index);
        lemma_handle_of_is_live(table, index);
        assert(!table.free_list.contains(index as u32)) by {
            if table.free_list.contains(index as u32) {
                let j = choose|j: int|
                    0 <= j < table.free_list.len() && table.free_list[j] == index as u32;
                assert(table.slots[table.free_list[j] as int].payload is None);
            }
        }
        assert forall|i: int| 0 <= i < after.slots.len() implies {
            &&& MIN_GENERATION <= (#[trigger] after.slots[i]).generation <= MAX_GENERATION
            &&& after.slots[i].retired ==> after.slots[i].payload is None
        } by {
            assert(MIN_GENERATION <= table.slots[i].generation <= MAX_GENERATION);
        }
        assert forall|j: int| 0 <= j < after.free_list.len() implies {
            &&& (#[trigger] after.free_list[j]) < after.slots.len()
            &&& after.slots[after.free_list[j] as int].payload is None
            &&& !after.slots[after.free_list[j] as int].retired
        } by {
            if j < table.free_list.len() {
                assert(after.free_list[j] == table.free_list[j]);
                assert(table.free_list.contains(table.free_list[j]));
            }
        }
        assert forall|j: int, k: int|
            0 <= j < after.free_list.len() && 0 <= k < after.free_list.len() && j
                != k implies after.free_list[j] != after.free_list[k] by {
            if j < table.free_list.len() {
                assert(table.free_list.contains(table.free_list[j]));
            }
            if k < table.free_list.len() {
                assert(table.free_list.contains(table.free_list[k]));
            }
        }
        assert forall|handle: WasmHandle| #[trigger]
            after.is_live(handle) <==> table.is_live(handle) && handle_index(handle) != index by {}
        assert(after.live() =~= table.live().remove(table.handle_of(index))) by {
            assert forall|handle: WasmHandle|
                after.is_live(handle) == (table.is_live(handle) && handle != table.handle_of(
                    index,
                )) by {
                if table.is_live(handle) {
                    lemma_live_handle(table, handle);
                }
            }
        }
    }
}

/// Evolution can be chained.
pub proof fn evolution_is_transitive<T>(
    first: TableView<T>,
    second: TableView<T>,
    third: TableView<T>,
)
    requires
        first.evolves_to(second),
        second.evolves_to(third),
    ensures
        first.evolves_to(third),
{
    assert forall|handle: WasmHandle| #[trigger]
        first.spent(handle) && third.is_live(handle) implies first.is_live(handle)
        && first.live()[handle] == third.live()[handle] by {
        assert(second.spent(handle));
    }
}

/// Releasing a list of slots ends the handles that named their objects, and no others.
pub proof fn releasing_many_ends_their_handles<T>(table: TableView<T>, indices: Seq<u32>)
    requires
        table.wf(),
    ensures
        table.all_released(indices).wf(),
        table.evolves_to(table.all_released(indices)),
        table.all_released(indices).slots.len() == table.slots.len(),
        table.all_released(indices).scope_allocations == table.scope_allocations,
        table.all_released(indices).scope_marks == table.scope_marks,
        table.all_released(indices).max_handles == table.max_handles,
        forall|handle: WasmHandle| #[trigger]
            table.all_released(indices).is_live(handle) <==> table.is_live(handle)
                && !indices.contains(handle_index(handle) as u32),
        forall|handle: WasmHandle| #[trigger]
            table.all_released(indices).is_live(handle) ==> table.all_released(
                indices,
            ).live()[handle] == table.live()[handle],
    decreases indices.len(),
{
    if indices.len() > 0 {
        let step = table.released(indices.last() as int);
        let rest = indices.drop_last();
        releasing_ends_one_handle(table, indices.last() as int);
        releasing_many_ends_their_handles(step, rest);
        evolution_is_transitive(table, step, step.all_released(rest));
        assert forall|i: u32| indices.contains(i) == (rest.contains(i) || i == indices.last()) by {
            if indices.contains(i) {
                let j = choose|j: int| 0 <= j < indices.len() && indices[j] == i;
                if j < rest.len() {
                    assert(rest[j] == i);
                }
            }
            if rest.contains(i) {
                let j = choose|j: int| 0 <= j < rest.len() && rest[j] == i;
                assert(indices[j] == i);
            }
            assert(indices.contains(indices.last()));
        }
    }
}

/// Every operation leads from a good state to a good state, and none of them makes a spent
/// handle mintable or lets it name another object.
pub proof fn operations_keep_the_table<T>(table: TableView<T>, op: TableOp<T>)
    requires
        table.wf(),
    ensures
        table.apply(op).wf(),
        table.evolves_to(table.apply(op)),
{
    match op {
        TableOp::Insert(payload) => {
            if table.can_insert() {
                inserting_mints_a_fresh_handle(table, payload);
            }
        },
        TableOp::Remove(handle) => {
            if table.is_live(handle) {
                releasing_ends_one_handle(table, handle_index(handle));
            }
        },
        TableOp::EnterScope => {},
        TableOp::ExitScope(token) => {
            if table.depth() > 0 && token == table.depth() {
                releasing_many_ends_their_handles(table, table.innermost());
                let released = table.all_released(table.innermost());
                let after = table.exited();
                assert forall|handle: WasmHandle| #[trigger]
                    after.spent(handle) == released.spent(handle) by {}
                assert forall|handle: WasmHandle| #[trigger]
                    after.is_live(handle) == released.is_live(handle) by {}
                assert(after.live() =~= released.live());
            }
        },
        TableOp::Clear => {
            lemma_occupied_none(table.cleared().slots);
        },
    }
}

/// However a table is used, it stays a good table, and what a spent handle names never changes.
pub proof fn histories_keep_the_table<T>(table: TableView<T>, ops: Seq<TableOp<T>>)
    requires
        table.wf(),
    ensures
        table.run(ops).wf(),
        table.evolves_to(table.run(ops)),
    decreases ops.len(),
{
    if ops.len() > 0 {
        let before = table.run(ops.drop_last());
        histories_keep_the_table(table, ops.drop_last());
        operations_keep_the_table(before, ops.last());
        evolution_is_transitive(table, before, before.apply(ops.last()));
    }
}

/// A handle that names an object names that object or nothing, whatever happens to the table:
/// it can go stale, but it can never come to name another object.
pub proof fn a_held_handle_never_names_another_object<T>(
    table: TableView<T>,
    ops: Seq<TableOp<T>>,
    handle: WasmHandle,
)
    requires
        table.wf(),
        table.is_live(handle),
    ensures
        ({
            ||| table.run(ops).lookup(handle) == table.lookup(handle)
            ||| table.run(ops).lookup(handle) == Err::<T, WasmAbiStatus>(
                WasmAbiStatus::StaleHandle,
            )
        }),
{
    histories_keep_the_table(table, ops);
    lemma_live_handle(table, handle);
    assert(table.run(ops).spent(handle));
}

/// A handle whose object was released is stale for as long as the table lives, no matter what
/// lands in its slot.
pub proof fn a_stale_handle_stays_stale<T>(
    table: TableView<T>,
    ops: Seq<TableOp<T>>,
    handle: WasmHandle,
)
    requires
        table.wf(),
        table.spent(handle),
        !table.is_live(handle),
    ensures
        table.run(ops).lookup(handle) == Err::<T, WasmAbiStatus>(WasmAbiStatus::StaleHandle),
{
    histories_keep_the_table(table, ops);
    assert(table.run(ops).spent(handle));
}

/// No handle is minted twice: whatever happens after one insertion, a later one mints another
/// handle.
pub proof fn no_handle_is_minted_twice<T>(table: TableView<T>, payload: T, ops: Seq<TableOp<T>>)
    requires
        table.wf(),
        table.can_insert(),
        table.inserted(payload).run(ops).can_insert(),
    ensures
        table.inserted(payload).run(ops).next_handle() != table.next_handle(),
{
    let after = table.inserted(payload);
    inserting_mints_a_fresh_handle(table, payload);
    histories_keep_the_table(after, ops);
    assert(after.spent(table.next_handle()));
    inserting_mints_a_fresh_handle(after.run(ops), payload);
}

/// A released handle is spent and no longer live, so it is stale from then on.
pub proof fn a_released_handle_is_stale<T>(table: TableView<T>, handle: WasmHandle)
    requires
        table.wf(),
        table.is_live(handle),
    ensures
        table.apply(TableOp::Remove(handle)).spent(handle),
        !table.apply(TableOp::Remove(handle)).is_live(handle),
        table.apply(TableOp::Remove(handle)).live() == table.live().remove(handle),
        table.apply(TableOp::Remove(handle)).lookup(handle) == Err::<T, WasmAbiStatus>(
            WasmAbiStatus::StaleHandle,
        ),
{
    lemma_live_handle(table, handle);
    releasing_ends_one_handle(table, handle_index(handle));
}

/// A slot whose last generation is released is retired: no later insertion ever goes to it.
pub proof fn a_retired_slot_is_never_reused<T>(
    table: TableView<T>,
    handle: WasmHandle,
    ops: Seq<TableOp<T>>,
)
    requires
        table.wf(),
        table.is_live(handle),
        handle_generation(handle) == MAX_GENERATION,
        table.apply(TableOp::Remove(handle)).run(ops).can_insert(),
    ensures
        handle_index(table.apply(TableOp::Remove(handle)).run(ops).next_handle())
            != handle_index(handle),
{
    let released = table.apply(TableOp::Remove(handle));
    let later = released.run(ops);
    a_released_handle_is_stale(table, handle);
    operations_keep_the_table(table, TableOp::Remove(handle));
    histories_keep_the_table(released, ops);
    assert(later.spent(handle));
    let index = later.next_index();
    if later.free_list.len() > 0 {
        assert(later.free_list[later.free_list.len() - 1] == index as u32);
        unpacking_undoes_packing(index, later.slots[index].generation as int);
    } else {
        unpacking_undoes_packing(index, MIN_GENERATION as int);
    }
}

/// The number of live handles is the number of occupied slots, and never above the cap.
pub proof fn live_handles_are_counted<T>(table: TableView<T>)
    requires
        table.wf(),
    ensures
        table.live().dom().finite(),
        table.live().dom().len() == occupied(table.slots),
        table.live().dom().len() <= table.max_handles,
{
    lemma_live_domain(table.slots);
    assert(table.live().dom() =~= slot_handles(table.slots)) by {
        assert forall|handle: WasmHandle|
            table.is_live(handle) == slot_handles(table.slots).contains(handle) by {
            if table.is_live(handle) {
                lemma_live_handle(table, handle);
            }
            if slot_handles(table.slots).contains(handle) {
                let i = choose|i: int|
                    #![trigger table.slots[i]]
                    0 <= i < table.slots.len() && table.slots[i].payload is Some && handle
                        == packed(i, table.slots[i].generation as int);
                lemma_handle_of_is_live(table, i);
            }
        }
    }
}

/// The handles of the occupied slots.
spec fn slot_handles<T>(slots: Seq<Slot<T>>) -> Set<WasmHandle> {
    Set::new(
        |handle: WasmHandle|
            exists|i: int|
                #![trigger slots[i]]
                0 <= i < slots.len() && slots[i].payload is Some && handle == packed(
                    i,
                    slots[i].generation as int,
                ),
    )
}

/// There are as many handles of occupied slots as there are occupied slots.
proof fn lemma_live_domain<T>(slots: Seq<Slot<T>>)
    requires
        slots.len() <= MAX_INDEX + 1,
        forall|i: int|
            0 <= i < slots.len() ==> MIN_GENERATION <= (#[trigger] slots[i]).generation
                <= MAX_GENERATION,
    ensures
        slot_handles(slots).finite(),
        slot_handles(slots).len() == occupied(slots),
    decreases slots.len(),
{
    if slots.len() == 0 {
        assert(slot_handles(slots) =~= Set::empty());
    } else {
        let rest = slots.drop_last();
        let last = slots.len() - 1;
        let top = packed(last, slots[last].generation as int);
        lemma_live_domain(rest);
        unpacking_undoes_packing(last, slots[last].generation as int);
        assert(!slot_handles(rest).contains(top)) by {
            if slot_handles(rest).contains(top) {
                let i = choose|i: int|
                    #![trigger rest[i]]
                    0 <= i < rest.len() && rest[i].payload is Some && top == packed(
                        i,
                        rest[i].generation as int,
                    );
                assert(slots[i] == rest[i]);
                unpacking_undoes_packing(i, slots[i].generation as int);
            }
        }
        assert forall|handle: WasmHandle| slot_handles(slots).contains(handle) == (slot_handles(
            rest,
        ).contains(handle) || slots[last].payload is Some && handle == top) by {
            if slot_handles(slots).contains(handle) {
                let i = choose|i: int|
                    #![trigger slots[i]]
                    0 <= i < slots.len() && slots[i].payload is Some && handle == packed(
                        i,
                        slots[i].generation as int,
                    );
                if i < last {
                    assert(rest[i] == slots[i]);
                }
            }
            if slot_handles(rest).contains(handle) {
                let i = choose|i: int|
                    #![trigger rest[i]]
                    0 <= i < rest.len() && rest[i].payload is Some && handle == packed(
                        i,
                        rest[i].generation as int,
                    );
                assert(slots[i] == rest[i]);
            }
        }
        if slots[last].payload is Some {
            assert(slot_handles(slots) =~= slot_handles(rest).insert(top));
        } else {
            assert(slot_handles(slots) =~= slot_handles(rest));
        }
    }
}

/// Walking the slots meets exactly the live objects: one for each live handle, and each of them
/// named by a live handle.
pub proof fn occupants_are_the_live_objects<T>(table: TableView<T>)
    requires
        table.wf(),
    ensures
        occupants(table.slots).len() == table.live().dom().len(),
        forall|handle: WasmHandle| #[trigger]
            table.is_live(handle) ==> occupants(table.slots).contains(table.live()[handle]),
        forall|j: int|
            0 <= j < occupants(table.slots).len() ==> table.names(
                #[trigger] occupants(table.slots)[j],
            ),
{
    live_handles_are_counted(table);
    lemma_occupants(table.slots);
    assert forall|handle: WasmHandle| #[trigger] table.is_live(handle) implies occupants(
        table.slots,
    ).contains(table.live()[handle]) by {
        assert(table.slots[handle_index(handle)].payload is Some);
    }
    assert forall|j: int| 0 <= j < occupants(table.slots).len() implies table.names(
        #[trigger] occupants(table.slots)[j],
    ) by {
        let i = choose|i: int|
            #![trigger table.slots[i]]
            0 <= i < table.slots.len() && table.slots[i].payload == Some(
                occupants(table.slots)[j],
            );
        lemma_handle_of_is_live(table, i);
        assert(table.live()[table.handle_of(i)] == occupants(table.slots)[j]);
    }
}

/// The occupants are the payloads of the occupied slots.
proof fn lemma_occupants<T>(slots: Seq<Slot<T>>)
    ensures
        occupants(slots).len() == occupied(slots),
        forall|i: int|
            0 <= i < slots.len() && (#[trigger] slots[i]).payload is Some ==> occupants(
                slots,
            ).contains(slots[i].payload->0),
        forall|j: int|
            0 <= j < occupants(slots).len() ==> exists|i: int|
                #![trigger slots[i]]
                0 <= i < slots.len() && slots[i].payload == Some(#[trigger] occupants(slots)[j]),
    decreases slots.len(),
{
    if slots.len() > 0 {
        let rest = slots.drop_last();
        let last = slots.len() - 1;
        lemma_occupants(rest);
        assert forall|i: int|
            0 <= i < slots.len() && (#[trigger] slots[i]).payload is Some implies occupants(
            slots,
        ).contains(slots[i].payload->0) by {
            if i < last {
                assert(rest[i] == slots[i]);
                let j = choose|j: int|
                    0 <= j < occupants(rest).len() && occupants(rest)[j] == slots[i].payload->0;
                assert(occupants(slots)[j] == slots[i].payload->0);
            } else {
                assert(occupants(slots).last() == slots[i].payload->0);
            }
        }
        assert forall|j: int| 0 <= j < occupants(slots).len() implies exists|i: int|
            #![trigger slots[i]]
            0 <= i < slots.len() && slots[i].payload == Some(#[trigger] occupants(slots)[j]) by {
            if j < occupants(rest).len() {
                let i = choose|i: int|
                    #![trigger rest[i]]
                    0 <= i < rest.len() && rest[i].payload == Some(occupants(rest)[j]);
                assert(slots[i] == rest[i]);
            } else {
                assert(slots[last].payload == Some(occupants(slots)[j]));
            }
        }
    }
}

/// The cap bounds live handles, not insertions: releasing a handle of a slot that can be used
/// again makes room for another object.
pub proof fn releasing_makes_room<T>(table: TableView<T>, handle: WasmHandle)
    requires
        table.wf(),
        table.is_live(handle),
        handle_generation(handle) < MAX_GENERATION,
    ensures
        table.apply(TableOp::Remove(handle)).can_insert(),
{
    releasing_ends_one_handle(table, handle_index(handle));
}

/// Clearing a table leaves nothing live, and every handle that was live is stale.
pub proof fn clearing_releases_everything<T>(table: TableView<T>, handle: WasmHandle)
    requires
        table.wf(),
    ensures
        table.cleared().live() == Map::<WasmHandle, T>::empty(),
        occupied(table.cleared().slots) == 0,
        table.cleared().depth() == 0,
        occupants(table.cleared().slots) == Seq::<T>::empty(),
        table.is_live(handle) ==> table.cleared().lookup(handle) == Err::<T, WasmAbiStatus>(
            WasmAbiStatus::StaleHandle,
        ),
{
    let after = table.cleared();
    operations_keep_the_table(table, TableOp::Clear);
    lemma_occupied_none(after.slots);
    lemma_occupants(after.slots);
    assert(occupants(after.slots) =~= Seq::<T>::empty());
    assert(after.live() =~= Map::<WasmHandle, T>::empty());
}

// ---------------------------------------------------------------------------------------
// Histories
// ---------------------------------------------------------------------------------------

/// What a history of operations says of the handles of a table, without a word about slots.
#[verifier::ext_equal]
pub struct Ledger<T> {
    /// The handles that were minted and not released since, with what they were minted for.
    pub held: Map<WasmHandle, T>,
    /// The handles that were ever minted.
    pub minted: Set<WasmHandle>,
    /// For each open scope, the handles that were minted while it was the innermost one.
    pub scopes: Seq<Set<WasmHandle>>,
}

impl<T> Ledger<T> {
    /// The ledger of a table that nothing was done to.
    pub open spec fn blank() -> Self {
        Ledger { held: Map::empty(), minted: Set::empty(), scopes: Seq::empty() }
    }

    /// The ledger after an operation on a table: an insertion that succeeds enters the handle it
    /// gives, and a removal, the closing of the innermost scope and a clearing strike out what
    /// they release.
    pub open spec fn updated(self, table: TableView<T>, op: TableOp<T>) -> Self {
        match op {
            TableOp::Insert(payload) => if table.can_insert() {
                Ledger {
                    held: self.held.insert(table.next_handle(), payload),
                    minted: self.minted.insert(table.next_handle()),
                    scopes: if self.scopes.len() > 0 {
                        self.scopes.drop_last().push(
                            self.scopes.last().insert(table.next_handle()),
                        )
                    } else {
                        self.scopes
                    },
                }
            } else {
                self
            },
            TableOp::Remove(handle) => Ledger { held: self.held.remove(handle), ..self },
            TableOp::EnterScope => Ledger { scopes: self.scopes.push(Set::empty()), ..self },
            TableOp::ExitScope(token) => if self.scopes.len() > 0 && token == self.scopes.len() {
                Ledger {
                    held: self.held.remove_keys(self.scopes.last()),
                    scopes: self.scopes.drop_last(),
                    ..self
                }
            } else {
                self
            },
            TableOp::Clear => Ledger { held: Map::empty(), scopes: Seq::empty(), ..self },
        }
    }

    /// Whether a handle was minted in one of the open scopes from a given one on inward.
    spec fn minted_within(self, from: int, handle: WasmHandle) -> bool {
        exists|k: int| from <= k < self.scopes.len() && (#[trigger] self.scopes[k]).contains(handle)
    }

    /// Whether a ledger tells the truth of a table.
    spec fn agrees(self, table: TableView<T>) -> bool {
        &&& table.wf()
        &&& table.live() == self.held
        &&& self.scopes.len() == table.depth()
        &&& forall|handle: WasmHandle| #[trigger]
            table.spent(handle) <==> self.minted.contains(handle)
        &&& forall|k: int, handle: WasmHandle|
            #![trigger self.scopes[k].contains(handle)]
            0 <= k < self.scopes.len() && self.scopes[k].contains(handle) ==> self.minted.contains(
                handle,
            )
        &&& forall|k: int, handle: WasmHandle|
            #![trigger self.minted_within(k, handle)]
            0 <= k < self.scopes.len() && table.is_live(handle) ==> (self.minted_within(k, handle)
                <==> table.scope_allocations.skip(table.scope_marks[k] as int).contains(
                handle_index(handle) as u32,
            ))
    }
}

/// The ledger of a history that starts with a new table.
pub open spec fn ledger_of<T>(max_handles: u32, ops: Seq<TableOp<T>>) -> Ledger<T>
    decreases ops.len(),
{
    if ops.len() == 0 {
        Ledger::blank()
    } else {
        ledger_of(max_handles, ops.drop_last()).updated(
            TableView::new(max_handles).run(ops.drop_last()),
            ops.last(),
        )
    }
}

/// An operation keeps the ledger true.
proof fn lemma_ledger_step<T>(ledger: Ledger<T>, table: TableView<T>, op: TableOp<T>)
    requires
        ledger.agrees(table),
    ensures
        ledger.updated(table, op).agrees(table.apply(op)),
{
    let after = table.apply(op);
    let next = ledger.updated(table, op);
    operations_keep_the_table(table, op);
    match op {
        TableOp::Insert(payload) => {
            if table.can_insert() {
                lemma_ledger_insert(ledger, table, payload);
            }
        },
        TableOp::Remove(handle) => {
            if table.is_live(handle) {
                lemma_live_handle(table, handle);
                releasing_ends_one_handle(table, handle_index(handle));
                lemma_released_spends(table, handle_index(handle));
            } else {
                assert(!table.live().dom().contains(handle));
            }
            assert(after.live() =~= next.held);
            assert forall|k: int, live: WasmHandle|
                #![trigger next.minted_within(k, live)]
                0 <= k < next.scopes.len() && after.is_live(live) implies (next.minted_within(
                k,
                live,
            ) <==> after.scope_allocations.skip(after.scope_marks[k] as int).contains(
                handle_index(live) as u32,
            )) by {
                assert(table.is_live(live));
                assert(next.minted_within(k, live) == ledger.minted_within(k, live));
            }
        },
        TableOp::EnterScope => {
            assert(after.live() =~= next.held) by {
                assert(after.live() =~= table.live());
            }
            assert forall|handle: WasmHandle| #[trigger]
                after.spent(handle) <==> next.minted.contains(handle) by {
                assert(table.spent(handle) == after.spent(handle));
            }
            assert forall|k: int, live: WasmHandle|
                #![trigger next.minted_within(k, live)]
                0 <= k < next.scopes.len() && after.is_live(live) implies (next.minted_within(
                k,
                live,
            ) <==> after.scope_allocations.skip(after.scope_marks[k] as int).contains(
                handle_index(live) as u32,
            )) by {
                assert(table.is_live(live));
                if k < ledger.scopes.len() {
                    assert(ledger.minted_within(k, live) <==> table.scope_allocations.skip(
                        table.scope_marks[k] as int,
                    ).contains(handle_index(live) as u32));
                    if next.minted_within(k, live) {
                        let j = choose|j: int|
                            k <= j < next.scopes.len() && (#[trigger] next.scopes[j]).contains(
                                live,
                            );
                        assert(ledger.scopes[j].contains(live));
                    }
                    if ledger.minted_within(k, live) {
                        let j = choose|j: int|
                            k <= j < ledger.scopes.len() && (#[trigger] ledger.scopes[j]).contains(
                                live,
                            );
                        assert(next.scopes[j].contains(live));
                    }
                } else {
                    assert(after.scope_allocations.skip(after.scope_marks[k] as int)
                        =~= Seq::empty());
                }
            }
        },
        TableOp::ExitScope(token) => {
            if table.depth() > 0 && token == table.depth() {
                lemma_ledger_exit(ledger, table);
            }
        },
        TableOp::Clear => {
            clearing_releases_everything(table, 0);
            assert forall|handle: WasmHandle| #[trigger]
                after.spent(handle) <==> next.minted.contains(handle) by {
                assert(table.spent(handle) == after.spent(handle));
            }
        },
    }
}

/// Releasing a slot neither mints a handle nor unmints one.
proof fn lemma_released_spends<T>(table: TableView<T>, index: int)
    requires
        table.wf(),
    ensures
        forall|handle: WasmHandle| #[trigger]
            table.released(index).spent(handle) <==> table.spent(handle),
{
}

/// Releasing a list of slots neither mints a handle nor unmints one.
proof fn lemma_all_released_spends<T>(table: TableView<T>, indices: Seq<u32>)
    requires
        table.wf(),
    ensures
        forall|handle: WasmHandle| #[trigger]
            table.all_released(indices).spent(handle) <==> table.spent(handle),
    decreases indices.len(),
{
    if indices.len() > 0 {
        let step = table.released(indices.last() as int);
        releasing_ends_one_handle(table, indices.last() as int);
        lemma_released_spends(table, indices.last() as int);
        lemma_all_released_spends(step, indices.drop_last());
        assert forall|handle: WasmHandle| #[trigger]
            table.all_released(indices).spent(handle) <==> table.spent(handle) by {
            assert(step.spent(handle) <==> table.spent(handle));
            assert(step.all_released(indices.drop_last()).spent(handle) <==> step.spent(handle));
        }
    }
}

/// An insertion keeps the ledger true.
proof fn lemma_ledger_insert<T>(ledger: Ledger<T>, table: TableView<T>, payload: T)
    requires
        ledger.agrees(table),
        table.can_insert(),
    ensures
        ledger.updated(table, TableOp::Insert(payload)).agrees(table.inserted(payload)),
{
    let after = table.inserted(payload);
    let next = ledger.updated(table, TableOp::Insert(payload));
    let fresh = table.next_handle();
    let index = table.next_index();
    let last = table.depth() - 1;
    inserting_mints_a_fresh_handle(table, payload);
    if table.free_list.len() > 0 {
        assert(table.free_list[table.free_list.len() - 1] == index as u32);
        unpacking_undoes_packing(index, table.slots[index].generation as int);
    } else {
        unpacking_undoes_packing(index, MIN_GENERATION as int);
    }
    assert(handle_index(fresh) == index);
    assert forall|k: int, handle: WasmHandle|
        #![trigger next.minted_within(k, handle)]
        0 <= k < next.scopes.len() && after.is_live(handle) implies (next.minted_within(k, handle)
        <==> after.scope_allocations.skip(after.scope_marks[k] as int).contains(
        handle_index(handle) as u32,
    )) by {
        let mark = table.scope_marks[k] as int;
        let before_tail = table.scope_allocations.skip(mark);
        let after_tail = after.scope_allocations.skip(mark);
        assert(after_tail =~= before_tail.push(index as u32));
        assert(after_tail[before_tail.len() as int] == index as u32);
        if handle == fresh {
            assert(next.scopes[last].contains(fresh));
            assert(after_tail.contains(index as u32));
        } else {
            assert(after.live().dom().contains(handle));
            assert(table.live().dom().contains(handle));
            assert(table.is_live(handle));
            assert(handle_index(handle) != index) by {
                if handle_index(handle) == index {
                    lemma_live_handle(after, handle);
                    assert(after.live().dom().contains(fresh));
                    lemma_live_handle(after, fresh);
                }
            }
            assert(ledger.minted_within(k, handle) <==> before_tail.contains(
                handle_index(handle) as u32,
            ));
            if before_tail.contains(handle_index(handle) as u32) {
                let j = choose|j: int|
                    0 <= j < before_tail.len() && before_tail[j] == handle_index(handle) as u32;
                assert(after_tail[j] == handle_index(handle) as u32);
            }
            if after_tail.contains(handle_index(handle) as u32) {
                let j = choose|j: int|
                    0 <= j < after_tail.len() && after_tail[j] == handle_index(handle) as u32;
                assert(before_tail[j] == handle_index(handle) as u32);
            }
            if next.minted_within(k, handle) {
                let j = choose|j: int|
                    k <= j < next.scopes.len() && (#[trigger] next.scopes[j]).contains(handle);
                assert(ledger.scopes[j].contains(handle));
            }
            if ledger.minted_within(k, handle) {
                let j = choose|j: int|
                    k <= j < ledger.scopes.len() && (#[trigger] ledger.scopes[j]).contains(handle);
                assert(next.scopes[j].contains(handle));
            }
        }
    }
    assert forall|k: int, handle: WasmHandle|
        #![trigger next.scopes[k].contains(handle)]
        0 <= k < next.scopes.len() && next.scopes[k].contains(handle) implies next.minted.contains(
        handle,
    ) by {
        if handle != fresh {
            assert(ledger.scopes[k].contains(handle));
        }
    }
}

/// Closing the innermost scope keeps the ledger true.
proof fn lemma_ledger_exit<T>(ledger: Ledger<T>, table: TableView<T>)
    requires
        ledger.agrees(table),
        table.depth() > 0,
        table.depth() <= u32::MAX,
    ensures
        ledger.updated(table, TableOp::ExitScope(table.depth() as u32)).agrees(table.exited()),
{
    let after = table.exited();
    let next = ledger.updated(table, TableOp::ExitScope(table.depth() as u32));
    let released = table.all_released(table.innermost());
    let last = table.depth() - 1;
    let gone = table.innermost();
    operations_keep_the_table(table, TableOp::ExitScope(table.depth() as u32));
    releasing_many_ends_their_handles(table, gone);
    lemma_all_released_spends(table, gone);
    assert forall|handle: WasmHandle| #[trigger]
        after.spent(handle) <==> next.minted.contains(handle) by {
        assert(after.spent(handle) == released.spent(handle));
    }
    assert forall|handle: WasmHandle| #[trigger] table.is_live(handle) implies gone.contains(
        handle_index(handle) as u32,
    ) == ledger.scopes.last().contains(handle) by {
        assert(ledger.minted_within(last, handle) <==> gone.contains(handle_index(handle) as u32));
        if ledger.scopes.last().contains(handle) {
            assert(ledger.scopes[last].contains(handle));
        }
    }
    assert forall|handle: WasmHandle| #[trigger]
        after.is_live(handle) <==> table.is_live(handle) && !ledger.scopes.last().contains(
            handle,
        ) by {
        assert(after.is_live(handle) == released.is_live(handle));
    }
    assert(after.live() =~= next.held) by {
        assert forall|handle: WasmHandle| #[trigger]
            after.is_live(handle) implies after.live()[handle] == ledger.held[handle] by {
            assert(released.is_live(handle));
            assert(table.live().dom().contains(handle));
        }
        assert forall|handle: WasmHandle|
            after.live().dom().contains(handle) == next.held.dom().contains(handle) by {
            assert(table.live().dom().contains(handle) == table.is_live(handle));
            assert(after.live().dom().contains(handle) == after.is_live(handle));
        }
    }
    assert forall|k: int, handle: WasmHandle|
        #![trigger next.minted_within(k, handle)]
        0 <= k < next.scopes.len() && after.is_live(handle) implies (next.minted_within(k, handle)
        <==> after.scope_allocations.skip(after.scope_marks[k] as int).contains(
        handle_index(handle) as u32,
    )) by {
        let wanted = handle_index(handle) as u32;
        let mark = table.scope_marks[k] as int;
        let tail = table.scope_allocations.skip(mark);
        let kept = after.scope_allocations.skip(mark);
        assert(table.scope_marks[k] <= table.scope_marks[last]);
        assert(tail =~= kept + gone);
        assert(ledger.minted_within(k, handle) <==> tail.contains(wanted));
        assert(!gone.contains(wanted));
        if tail.contains(wanted) {
            let j = choose|j: int| 0 <= j < tail.len() && tail[j] == wanted;
            if j >= kept.len() {
                assert(gone[j - kept.len()] == wanted);
            }
            assert(kept[j] == wanted);
        }
        if kept.contains(wanted) {
            let j = choose|j: int| 0 <= j < kept.len() && kept[j] == wanted;
            assert(tail[j] == wanted);
        }
        if next.minted_within(k, handle) {
            let j = choose|j: int|
                k <= j < next.scopes.len() && (#[trigger] next.scopes[j]).contains(handle);
            assert(ledger.scopes[j].contains(handle));
        }
        if ledger.minted_within(k, handle) {
            let j = choose|j: int|
                k <= j < ledger.scopes.len() && (#[trigger] ledger.scopes[j]).contains(handle);
            assert(j != last);
            assert(next.scopes[j].contains(handle));
        }
    }
    assert forall|k: int, handle: WasmHandle|
        #![trigger next.scopes[k].contains(handle)]
        0 <= k < next.scopes.len() && next.scopes[k].contains(handle) implies next.minted.contains(
        handle,
    ) by {
        assert(ledger.scopes[k].contains(handle));
    }
}

/// The ledger of a history is true of the table it leads to.
proof fn lemma_ledger<T>(max_handles: u32, ops: Seq<TableOp<T>>)
    requires
        1 <= max_handles <= MAX_INDEX + 1,
    ensures
        ledger_of(max_handles, ops).agrees(TableView::new(max_handles).run(ops)),
    decreases ops.len(),
{
    let start = TableView::<T>::new(max_handles);
    if ops.len() > 0 {
        lemma_ledger(max_handles, ops.drop_last());
        lemma_ledger_step(
            ledger_of(max_handles, ops.drop_last()),
            start.run(ops.drop_last()),
            ops.last(),
        );
    } else {
        assert(start.live() =~= Map::<WasmHandle, T>::empty());
    }
}

/// A handle resolves exactly while it is held: after any history of a table, it resolves to an
/// object if and only if it was minted for that object and has not been released since, by its
/// removal, by the closing of the scope it was minted in, or by a clearing of the table. One that
/// was minted and released is stale, however its slot is used or given up afterwards, and one that
/// was never minted is invalid.
pub proof fn a_handle_resolves_exactly_while_it_is_held<T>(
    max_handles: u32,
    ops: Seq<TableOp<T>>,
    handle: WasmHandle,
)
    requires
        1 <= max_handles <= MAX_INDEX + 1,
    ensures
        ({
            let ledger = ledger_of(max_handles, ops);
            let table = TableView::new(max_handles).run(ops);
            &&& table.live() == ledger.held
            &&& table.depth() == ledger.scopes.len()
            &&& table.lookup(handle) == (if handle == NULL_HANDLE {
                Err::<T, WasmAbiStatus>(WasmAbiStatus::NullHandle)
            } else if ledger.held.dom().contains(handle) {
                Ok(ledger.held[handle])
            } else if ledger.minted.contains(handle) {
                Err(WasmAbiStatus::StaleHandle)
            } else {
                Err(WasmAbiStatus::InvalidHandle)
            })
        }),
{
    let table = TableView::new(max_handles).run(ops);
    let ledger = ledger_of(max_handles, ops);
    lemma_ledger(max_handles, ops);
    assert(table.live().dom().contains(handle) == table.is_live(handle));
    assert(table.spent(handle) <==> ledger.minted.contains(handle));
}

/// A table takes as many objects as its cap says: with fewer live handles there is room for one
/// more, unless all slots have been used up, and with as many there is none. An insertion makes
/// one more handle live.
pub proof fn there_is_room_below_the_cap<T>(
    max_handles: u32,
    ops: Seq<TableOp<T>>,
    payload: T,
)
    requires
        1 <= max_handles <= MAX_INDEX + 1,
    ensures
        ({
            let table = TableView::new(max_handles).run(ops);
            let after = table.apply(TableOp::Insert(payload));
            let count = table.live().dom().len();
            &&& count <= max_handles
            &&& count == max_handles ==> !table.can_insert() && after == table
            &&& count < max_handles && ops.len() < 0x10_0000 ==> table.can_insert()
            &&& table.can_insert() ==> after.live().dom().len() == count + 1
        }),
{
    let start = TableView::<T>::new(max_handles);
    let table = start.run(ops);
    histories_keep_the_table(start, ops);
    live_handles_are_counted(table);
    lemma_slots_are_few(start, ops);
    if table.can_insert() {
        inserting_mints_a_fresh_handle(table, payload);
        live_handles_are_counted(table.inserted(payload));
    }
}

/// An operation adds one slot at the most and leaves the cap alone.
proof fn lemma_slots_are_few<T>(table: TableView<T>, ops: Seq<TableOp<T>>)
    requires
        table.wf(),
    ensures
        table.run(ops).slots.len() <= table.slots.len() + ops.len(),
        table.run(ops).max_handles == table.max_handles,
    decreases ops.len(),
{
    if ops.len() > 0 {
        let before = table.run(ops.drop_last());
        lemma_slots_are_few(table, ops.drop_last());
        histories_keep_the_table(table, ops.drop_last());
        releasing_many_ends_their_handles(before, before.innermost());
    }
}

/// The slot that is freed last is used first, in its next generation: the handle that is minted
/// next carries the same index. Once it is used again, the table goes on as if the slot had never
/// been freed.
pub proof fn a_freed_slot_is_used_first<T>(table: TableView<T>, handle: WasmHandle, payload: T)
    requires
        table.wf(),
        table.is_live(handle),
        handle < 0x7FF0_0000,
    ensures
        ({
            let freed = table.apply(TableOp::Remove(handle));
            let used = freed.apply(TableOp::Insert(payload));
            &&& freed.can_insert()
            &&& freed.next_handle() == handle + 0x10_0000
            &&& used.lookup((handle + 0x10_0000) as u32) == Ok::<T, WasmAbiStatus>(payload)
            &&& used.can_insert() == table.can_insert()
            &&& used.can_insert() ==> used.next_handle() == table.next_handle()
        }),
{
    let freed = table.apply(TableOp::Remove(handle));
    let index = handle_index(handle);
    let used = freed.inserted(payload);
    packing_undoes_unpacking(handle);
    releasing_ends_one_handle(table, index);
    releasing_makes_room(table, handle);
    inserting_mints_a_fresh_handle(freed, payload);
    assert(freed.free_list.last() == index as u32);
    assert(freed.free_list.drop_last() =~= table.free_list);
    assert(used.live().dom().contains(freed.next_handle()));
    if table.free_list.len() > 0 {
        let next = table.free_list.last() as int;
        assert(table.free_list[table.free_list.len() - 1] == next as u32);
        assert(table.slots[next].payload is None);
        assert(used.slots[next] == table.slots[next]);
    }
}

/// As long as nothing is released, slots are used in the order of their indices, each in its first
/// generation.
pub proof fn fresh_slots_are_used_in_order<T>(max_handles: u32, payloads: Seq<T>)
    requires
        payloads.len() < max_handles <= MAX_INDEX + 1,
    ensures
        ({
            let table = TableView::new(max_handles).run(
                payloads.map_values(|payload: T| TableOp::Insert(payload)),
            );
            &&& table.can_insert()
            &&& table.next_handle() == 0x10_0000 + payloads.len()
            &&& table.live().dom().len() == payloads.len()
        }),
{
    let start = TableView::<T>::new(max_handles);
    lemma_fresh_slots(max_handles, payloads);
    let ops = payloads.map_values(|payload: T| TableOp::Insert(payload));
    histories_keep_the_table(start, ops);
    live_handles_are_counted(start.run(ops));
}

/// What such a run leads to.
proof fn lemma_fresh_slots<T>(max_handles: u32, payloads: Seq<T>)
    requires
        payloads.len() <= max_handles <= MAX_INDEX + 1,
    ensures
        ({
            let table = TableView::new(max_handles).run(
                payloads.map_values(|payload: T| TableOp::Insert(payload)),
            );
            &&& table.free_list.len() == 0
            &&& table.slots.len() == payloads.len()
            &&& occupied(table.slots) == payloads.len()
            &&& table.max_handles == max_handles
        }),
    decreases payloads.len(),
{
    let ops = payloads.map_values(|payload: T| TableOp::Insert(payload));
    if payloads.len() > 0 {
        let rest = payloads.drop_last();
        let before = TableView::<T>::new(max_handles).run(
            rest.map_values(|payload: T| TableOp::Insert(payload)),
        );
        lemma_fresh_slots(max_handles, rest);
        assert(ops.drop_last() =~= rest.map_values(|payload: T| TableOp::Insert(payload)));
        assert(ops.last() == TableOp::Insert(payloads.last()));
        lemma_occupied_push(before.slots, before.inserted(payloads.last()).slots.last());
    }
}

/// Walking the slots meets each live object as often as handles name it: an insertion adds the
/// object once, and a removal takes out once what the handle named.
pub proof fn walking_meets_each_live_object_once<T>(
    table: TableView<T>,
    payload: T,
    handle: WasmHandle,
)
    requires
        table.wf(),
    ensures
        occupants(TableView::<T>::new(table.max_handles).slots).len() == 0,
        table.can_insert() ==> occupants(
            table.apply(TableOp::Insert(payload)).slots,
        ).to_multiset() == occupants(table.slots).to_multiset().insert(payload),
        table.is_live(handle) ==> occupants(
            table.apply(TableOp::Remove(handle)).slots,
        ).to_multiset() == occupants(table.slots).to_multiset().remove(table.live()[handle]),
        table.is_live(handle) ==> occupants(table.slots).to_multiset().count(table.live()[handle])
            > 0,
{
    broadcast use vstd::seq_lib::group_to_multiset_ensures;

    let index = table.next_index();
    if table.can_insert() {
        let after = table.inserted(payload);
        if table.free_list.len() > 0 {
            assert(table.free_list[table.free_list.len() - 1] == index as u32);
            lemma_occupants_update(table.slots, index, after.slots[index]);
        } else {
            assert(after.slots.drop_last() =~= table.slots);
        }
    }
    if table.is_live(handle) {
        let slot = table.slots[handle_index(handle)];
        lemma_occupants_update(table.slots, handle_index(handle), slot.vacated());
        lemma_occupants(table.slots);
    }
}

/// Filling or vacating one slot adds or takes out its object.
proof fn lemma_occupants_update<T>(slots: Seq<Slot<T>>, index: int, slot: Slot<T>)
    requires
        0 <= index < slots.len(),
        slots[index].payload is Some <==> slot.payload is None,
    ensures
        ({
            let before = occupants(slots).to_multiset();
            let after = occupants(slots.update(index, slot)).to_multiset();
            match slot.payload {
                Some(payload) => after == before.insert(payload),
                None => before == after.insert(slots[index].payload->0),
            }
        }),
    decreases slots.len(),
{
    broadcast use vstd::seq_lib::group_to_multiset_ensures;

    let updated = slots.update(index, slot);
    if index == slots.len() - 1 {
        assert(updated.drop_last() =~= slots.drop_last());
    } else {
        lemma_occupants_update(slots.drop_last(), index, slot);
        assert(updated.drop_last() =~= slots.drop_last().update(index, slot));
        assert(updated.last() == slots.last());
        let before = occupants(slots).to_multiset();
        let after = occupants(updated).to_multiset();
        match slot.payload {
            Some(payload) => {
                assert(after =~= before.insert(payload));
            },
            None => {
                assert(before =~= after.insert(slots[index].payload->0));
            },
        }
    }
}

} // verus!
