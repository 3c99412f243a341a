//! The laws of handle scopes: closing a scope releases what was allocated inside it, and
//! nothing else.

use vstd::prelude::*;

use crate::handle_laws::{
    evolution_is_transitive, inserting_mints_a_fresh_handle, lemma_live_handle,
    operations_keep_the_table, releasing_ends_one_handle, releasing_many_ends_their_handles,
};
use crate::handle_model::{TableOp, TableView};
use crate::wasm_abi::{handle_index, unpacking_undoes_packing, WasmHandle, MIN_GENERATION};

verus! {

impl<T> TableView<T> {
    /// Whether a run of operations never closes a scope of those that were open at first: the
    /// depth stays at `depth` or above all along.
    pub open spec fn stays_inside(self, ops: Seq<TableOp<T>>, depth: nat) -> bool
        decreases ops.len(),
    {
        &&& self.run(ops).depth() >= depth
        &&& ops.len() > 0 ==> self.stays_inside(ops.drop_last(), depth)
    }

    /// What holds of every state `now` inside a scope that was opened in the state `self`.
    spec fn inside(self, now: Self) -> bool {
        let base = self.scope_allocations.len();
        &&& now.wf()
        &&& self.evolves_to(now)
        &&& now.depth() > self.depth()
        &&& now.scope_marks.take(self.depth() as int + 1) == self.scope_marks.push(base)
        &&& now.scope_allocations.len() >= base
        &&& now.scope_allocations.take(base as int) == self.scope_allocations
        &&& forall|handle: WasmHandle|
            #![trigger now.is_live(handle)]
            now.is_live(handle) ==> (self.is_live(handle) <==> !now.scope_allocations.skip(
                base as int,
            ).contains(handle_index(handle) as u32))
    }
}

/// One operation inside a scope stays inside it, as long as it does not close it.
proof fn lemma_inside_step<T>(before: TableView<T>, now: TableView<T>, op: TableOp<T>)
    requires
        before.wf(),
        before.inside(now),
        now.apply(op).depth() > before.depth(),
    ensures
        before.inside(now.apply(op)),
{
    let base = before.scope_allocations.len() as int;
    let after = now.apply(op);
    let depth = before.depth() as int + 1;
    operations_keep_the_table(now, op);
    evolution_is_transitive(before, now, after);
    match op {
        TableOp::Insert(payload) => {
            if now.can_insert() {
                inserting_mints_a_fresh_handle(now, payload);
                let fresh = now.next_handle();
                let index = now.next_index();
                assert(after.scope_allocations.take(base) =~= before.scope_allocations) by {
                    assert(after.scope_allocations.take(base) =~= now.scope_allocations.take(base));
                }
                let inner = now.scope_allocations.skip(base);
                let grown = after.scope_allocations.skip(base);
                assert(grown =~= inner.push(index as u32));
                assert forall|i: u32| grown.contains(i) == (inner.contains(i) || i == index) by {
                    if inner.contains(i) {
                        let j = choose|j: int| 0 <= j < inner.len() && inner[j] == i;
                        assert(grown[j] == i);
                    }
                    if grown.contains(i) {
                        let j = choose|j: int| 0 <= j < grown.len() && grown[j] == i;
                        if j < inner.len() {
                            assert(inner[j] == i);
                        }
                    }
                    assert(grown[inner.len() as int] == index as u32);
                }
                assert(after.live().dom().contains(fresh));
                assert(handle_index(fresh) == index) by {
                    if now.free_list.len() > 0 {
                        assert(now.free_list[now.free_list.len() - 1] == index as u32);
                        unpacking_undoes_packing(index, now.slots[index].generation as int);
                    } else {
                        unpacking_undoes_packing(index, MIN_GENERATION as int);
                    }
                }
                assert forall|handle: WasmHandle| after.is_live(handle) implies (before.is_live(
                    handle,
                ) <==> !grown.contains(handle_index(handle) as u32)) by {
                    assert(after.live().dom().contains(handle));
                    if handle == fresh {
                        if before.is_live(handle) {
                            lemma_live_handle(before, handle);
                            assert(now.spent(handle));
                        }
                    } else {
                        assert(now.live().dom().contains(handle));
                        assert(now.is_live(handle));
                        assert(handle_index(handle) != index) by {
                            if handle_index(handle) == index {
                                lemma_live_handle(after, handle);
                                lemma_live_handle(after, fresh);
                            }
                        }
                    }
                }
            }
        },
        TableOp::Remove(handle) => {
            if now.is_live(handle) {
                releasing_ends_one_handle(now, handle_index(handle));
            }
        },
        TableOp::EnterScope => {
            assert(after.scope_marks.take(depth) =~= now.scope_marks.take(depth));
            assert forall|handle: WasmHandle| #[trigger] after.is_live(handle) implies now.is_live(
                handle,
            ) by {}
        },
        TableOp::ExitScope(token) => {
            if now.depth() > 0 && token == now.depth() {
                let mark = now.scope_marks.last() as int;
                assert(now.scope_marks.take(depth)[depth - 1] == base);
                assert(now.scope_marks[depth - 1] == base);
                assert(mark >= base);
                assert(after.scope_marks.take(depth) =~= now.scope_marks.take(depth));
                releasing_many_ends_their_handles(now, now.innermost());
                assert(after.scope_allocations.take(base) =~= now.scope_allocations.take(base));
                let inner = now.scope_allocations.skip(base);
                let kept = after.scope_allocations.skip(base);
                let gone = now.innermost();
                assert(inner =~= kept + gone);
                assert forall|i: u32|
                    inner.contains(i) == (kept.contains(i) || gone.contains(i)) by {
                    if inner.contains(i) {
                        let j = choose|j: int| 0 <= j < inner.len() && inner[j] == i;
                        if j < kept.len() {
                            assert(kept[j] == i);
                        } else {
                            assert(gone[j - kept.len()] == i);
                        }
                    }
                    if kept.contains(i) {
                        let j = choose|j: int| 0 <= j < kept.len() && kept[j] == i;
                        assert(inner[j] == i);
                    }
                    if gone.contains(i) {
                        let j = choose|j: int| 0 <= j < gone.len() && gone[j] == i;
                        assert(inner[kept.len() + j] == i);
                    }
                }
                let released = now.all_released(gone);
                assert forall|handle: WasmHandle| after.is_live(handle) implies (before.is_live(
                    handle,
                ) <==> !kept.contains(handle_index(handle) as u32)) by {
                    assert(released.is_live(handle));
                    assert(now.is_live(handle));
                }
            }
        },
        TableOp::Clear => {},
    }
}

/// Every state that a run inside a scope passes through is inside the scope.
proof fn lemma_inside_run<T>(before: TableView<T>, ops: Seq<TableOp<T>>)
    requires
        before.wf(),
        before.entered().stays_inside(ops, before.depth() + 1),
    ensures
        before.inside(before.entered().run(ops)),
    decreases ops.len(),
{
    if ops.len() > 0 {
        lemma_inside_run(before, ops.drop_last());
        lemma_inside_step(before, before.entered().run(ops.drop_last()), ops.last());
    } else {
        let opened = before.entered();
        let base = before.scope_allocations.len() as int;
        operations_keep_the_table(before, TableOp::EnterScope);
        assert(opened.scope_marks.take(before.depth() as int + 1) =~= opened.scope_marks);
        assert(opened.scope_allocations.take(base) =~= before.scope_allocations);
        assert(opened.scope_allocations.skip(base) =~= Seq::empty());
    }
}

/// Closing the scope itself leaves what was live before it was opened and still is.
proof fn lemma_exit<T>(before: TableView<T>, end: TableView<T>)
    requires
        before.wf(),
        before.inside(end),
        end.depth() == before.depth() + 1,
    ensures
        end.exited().wf(),
        end.exited().live() == before.live().restrict(end.live().dom()),
        end.exited().scope_marks == before.scope_marks,
        end.exited().scope_allocations == before.scope_allocations,
        before.evolves_to(end.exited()),
{
    let after = end.exited();
    let base = before.scope_allocations.len() as int;
    operations_keep_the_table(end, TableOp::ExitScope(end.depth() as u32));
    releasing_many_ends_their_handles(end, end.innermost());
    let released = end.all_released(end.innermost());
    assert(end.scope_marks.take(before.depth() as int + 1) =~= end.scope_marks);
    assert(end.scope_marks.last() == base);
    assert(after.scope_marks =~= before.scope_marks);
    assert forall|handle: WasmHandle| #[trigger]
        after.is_live(handle) == (before.is_live(handle) && end.is_live(handle)) by {
        assert(after.is_live(handle) == released.is_live(handle));
    }
    assert forall|handle: WasmHandle| #[trigger]
        after.is_live(handle) implies after.live()[handle] == before.live()[handle] by {
        assert(released.is_live(handle));
        lemma_live_handle(before, handle);
        assert(before.spent(handle));
    }
    assert(after.live() =~= before.live().restrict(end.live().dom()));
    evolution_is_transitive(before, end, released);
    assert forall|handle: WasmHandle| #[trigger] after.spent(handle) == released.spent(handle) by {}
}

/// Closing a scope releases every handle allocated inside it, however the table was used in
/// between, and closes it without a trace: the handles that are live afterwards are those of
/// before that were not released by hand, they name what they named, and the enclosing scopes
/// are as they were.
pub proof fn closing_a_scope_leaves_nothing_behind<T>(before: TableView<T>, ops: Seq<TableOp<T>>)
    requires
        before.wf(),
        before.entered().stays_inside(ops, before.depth() + 1),
        before.entered().run(ops).depth() == before.depth() + 1,
    ensures
        ({
            let end = before.entered().run(ops);
            let after = end.exited();
            &&& after.wf()
            &&& after.live() == before.live().restrict(end.live().dom())
            &&& after.scope_marks == before.scope_marks
            &&& after.scope_allocations == before.scope_allocations
            &&& before.evolves_to(after)
        }),
{
    lemma_inside_run(before, ops);
    lemma_exit(before, before.entered().run(ops));
}

/// A scope can be closed with its own token only while it is the innermost one: any other token
/// is refused and changes nothing.
pub proof fn scopes_close_in_reverse_order<T>(table: TableView<T>, token: u32)
    requires
        token != table.depth() || table.depth() == 0,
    ensures
        table.apply(TableOp::ExitScope(token)) == table,
{
}

} // verus!
