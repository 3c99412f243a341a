//! Event listeners that live in a module.
//!
//! A listener is an ordinary function of the engine that carries two integers: the index of its
//! instance and the id that the module chose for its handler. When it fires, the dispatcher of
//! the module is called with the id and a handle to the event, inside a scope of handles that is
//! closed on the way out. A fired event therefore leaks nothing, as long as the module closes the
//! scopes it opens. A listener that is refused because calls are nested too deep leaves a failure
//! behind, for the module to find.

use vstd::prelude::*;

use crate::handle_model::{TableOp, TableView};
use crate::handles::{ObjectId, Reflector};
use crate::instance::InstanceView;
use crate::registry::{is_live, InstanceRegistry};
use crate::scope_laws::closing_a_scope_leaves_nothing_behind;
use crate::wasm_abi::{status_code, WasmAbiStatus, WasmHandle, MAX_INDEX};

verus! {

/// The integers that a listener carries.
#[derive(Clone, Copy, Debug, Eq, PartialEq, Structural)]
pub struct ListenerSlots {
    /// The index of the instance.
    pub instance: i32,
    /// The id that the module chose.
    pub callback: i32,
}

/// The integers for a listener, unless the index of the instance does not fit.
pub fn make_listener(instance_index: usize, callback_id: i32) -> (slots: Option<ListenerSlots>)
    ensures
        slots == (if instance_index <= i32::MAX {
            Some(ListenerSlots { instance: instance_index as i32, callback: callback_id })
        } else {
            None
        }),
{
    if instance_index > i32::MAX as usize {
        return None;
    }
    Some(ListenerSlots { instance: instance_index as i32, callback: callback_id })
}

/// A call of the dispatcher of a module.
#[derive(Clone, Copy, Debug, Eq, PartialEq, Structural)]
pub struct DispatchCall {
    pub instance: usize,
    /// The token of the scope that was opened for the call.
    pub scope: u32,
    pub dispatcher: ObjectId,
    pub callback_id: i32,
    /// The handle to the event, or zero if there is none.
    pub event_handle: i32,
}

/// What becomes of a listener that fires.
#[derive(Clone, Copy, Debug, Eq, PartialEq, Structural)]
pub enum Firing {
    /// The instance is gone, and the listener does nothing.
    InstanceGone,
    /// The module exports no dispatcher.
    NoDispatcher,
    /// Calls are nested too deep, which the instance records as a failure.
    TooDeep,
    /// The dispatcher is to be called.
    Dispatch(DispatchCall),
}

/// What becomes of a listener that fires.
pub open spec fn firing(
    instances: Seq<InstanceView>,
    slots: ListenerSlots,
    event: Option<Reflector>,
    max_reentrancy: u64,
) -> Firing {
    let instance = instances[slots.instance as int];
    if !is_live(instances, slots.instance as int) {
        Firing::InstanceGone
    } else if instance.dispatcher is None {
        Firing::NoDispatcher
    } else if instance.depth >= max_reentrancy {
        Firing::TooDeep
    } else {
        Firing::Dispatch(
            DispatchCall {
                instance: slots.instance as usize,
                scope: (instance.handles.depth() + 1) as u32,
                dispatcher: instance.dispatcher->0,
                callback_id: slots.callback,
                event_handle: if event is Some && instance.handles.entered().can_insert() {
                    instance.handles.entered().next_handle() as i32
                } else {
                    0
                },
            },
        )
    }
}

/// The instance once its dispatcher is about to be called: one call deeper, with a new scope
/// that holds the event.
pub open spec fn dispatching(instance: InstanceView, event: Option<Reflector>) -> InstanceView {
    InstanceView {
        depth: (instance.depth + 1) as u32,
        handles: match event {
            Some(reflector) => instance.handles.entered().apply(TableOp::Insert(reflector)),
            None => instance.handles.entered(),
        },
        ..instance
    }
}

/// The instance once its dispatcher has returned: the scope is closed if it is still the
/// innermost one, and the call is over.
pub open spec fn dispatched(instance: InstanceView, scope: u32) -> InstanceView {
    InstanceView {
        depth: if instance.depth == 0 {
            0
        } else {
            (instance.depth - 1) as u32
        },
        handles: instance.handles.apply(TableOp::ExitScope(scope)),
        ..instance
    }
}

/// The instances once a listener has fired.
pub open spec fn after_firing(
    instances: Seq<InstanceView>,
    slots: ListenerSlots,
    event: Option<Reflector>,
    max_reentrancy: u64,
) -> Seq<InstanceView> {
    let instance = instances[slots.instance as int];
    match firing(instances, slots, event, max_reentrancy) {
        Firing::Dispatch(_) => instances.update(
            slots.instance as int,
            dispatching(instance, event),
        ),
        Firing::TooDeep => instances.update(
            slots.instance as int,
            instance.noting(Err(WasmAbiStatus::Reentrancy)),
        ),
        Firing::InstanceGone | Firing::NoDispatcher => instances,
    }
}

/// Whether a listener that fires now leads to a call of the dispatcher.
pub fn will_dispatch(
    registry: &InstanceRegistry,
    slots: ListenerSlots,
    max_reentrancy: u64,
) -> (dispatches: bool)
    requires
        registry.wf(),
    ensures
        forall|event: Option<Reflector>|
            dispatches == (#[trigger] firing(registry@, slots, event, max_reentrancy) is Dispatch),
{
    if !registry.is_live(slots.instance) {
        return false;
    }
    match registry.registered(slots.instance as usize) {
        Some(instance) => instance.dispatcher().is_some() && (instance.depth() as u64)
            < max_reentrancy,
        None => false,
    }
}

/// Takes a listener that fires as far as the call of the dispatcher.
///
/// `event` is the reflector of the event if the listener was given one.
pub fn fire(
    registry: &mut InstanceRegistry,
    slots: ListenerSlots,
    event: Option<Reflector>,
    max_reentrancy: u64,
) -> (fired: Firing)
    requires
        old(registry).wf(),
        firing(old(registry)@, slots, event, max_reentrancy) is Dispatch ==> {
            let instance = old(registry)@[slots.instance as int];
            &&& instance.handles.depth() < u32::MAX
            &&& instance.depth < u32::MAX
        },
    ensures
        final(registry).wf(),
        fired == firing(old(registry)@, slots, event, max_reentrancy),
        final(registry)@ == after_firing(old(registry)@, slots, event, max_reentrancy),
        fired matches Firing::Dispatch(call) ==> call.event_handle >= 0,
{
    let ghost before = registry@;
    if !registry.is_live(slots.instance) {
        return Firing::InstanceGone;
    }
    let index: usize = slots.instance as usize;
    assert(before.update(index as int, before[index as int]) =~= before);
    let instance = registry.registered_mut(index);
    let dispatcher = match instance.dispatcher() {
        Some(dispatcher) => dispatcher,
        None => return Firing::NoDispatcher,
    };
    if let Err(status) = instance.enter_call(max_reentrancy) {
        let _ = instance.note(Err(status));
        return Firing::TooDeep;
    }
    let scope: u32 = instance.handles_mut().enter_scope();
    let event_handle: i32 = match event {
        Some(reflector) => match instance.handles_mut().insert(reflector) {
            Ok(handle) => handle as i32,
            Err(_) => 0,
        },
        None => 0,
    };
    Firing::Dispatch(
        DispatchCall {
            instance: index,
            scope,
            dispatcher,
            callback_id: slots.callback,
            event_handle,
        },
    )
}

impl DispatchCall {
    /// Ends the firing, once the dispatcher has returned, and gives what the listener reports: a
    /// trap inside the module surfaces like an exception of an ordinary listener.
    pub fn finish(self, registry: &mut InstanceRegistry, returned: bool) -> (reported: bool)
        requires
            old(registry).wf(),
            self.instance < old(registry)@.len(),
        ensures
            final(registry).wf(),
            reported == returned,
            final(registry)@ == old(registry)@.update(
                self.instance as int,
                dispatched(old(registry)@[self.instance as int], self.scope),
            ),
    {
        let instance = registry.registered_mut(self.instance);
        let _ = instance.handles_mut().exit_scope(self.scope);
        instance.exit_call();
        returned
    }
}

// ---------------------------------------------------------------------------------------
// Laws
// ---------------------------------------------------------------------------------------

/// A run of operations after another one is one run.
proof fn lemma_run_concat<T>(table: TableView<T>, first: Seq<TableOp<T>>, second: Seq<TableOp<T>>)
    ensures
        table.run(first + second) == table.run(first).run(second),
    decreases second.len(),
{
    if second.len() > 0 {
        lemma_run_concat(table, first, second.drop_last());
        assert((first + second).drop_last() =~= first + second.drop_last());
        assert((first + second).last() == second.last());
    } else {
        assert(first + second =~= first);
    }
}

/// A run that stays inside a scope stays inside it if one that does precedes it.
proof fn lemma_stays_inside_concat<T>(
    table: TableView<T>,
    first: Seq<TableOp<T>>,
    second: Seq<TableOp<T>>,
    depth: nat,
)
    requires
        table.stays_inside(first, depth),
        table.run(first).stays_inside(second, depth),
    ensures
        table.stays_inside(first + second, depth),
    decreases second.len(),
{
    lemma_run_concat(table, first, second);
    if second.len() > 0 {
        lemma_stays_inside_concat(table, first, second.drop_last(), depth);
        assert((first + second).drop_last() =~= first + second.drop_last());
    } else {
        assert(first + second =~= first);
    }
}

/// A fired event leaks nothing: however the module uses the handle table while its dispatcher
/// runs, as long as it closes the scopes it opens, the handles that are live afterwards are those
/// of before that it did not release itself. The event is gone even if the module never drops
/// it, and the open scopes and the depth of calls are as they were.
pub proof fn a_fired_event_leaks_nothing(
    before: InstanceView,
    event: Option<Reflector>,
    ops: Seq<TableOp<Reflector>>,
    end: InstanceView,
)
    requires
        before.handles.wf(),
        before.handles.depth() < u32::MAX,
        before.depth < u32::MAX,
        dispatching(before, event).handles.stays_inside(ops, before.handles.depth() + 1),
        end.handles == dispatching(before, event).handles.run(ops),
        end.handles.depth() == before.handles.depth() + 1,
        end.depth == dispatching(before, event).depth,
    ensures
        ({
            let after = dispatched(end, (before.handles.depth() + 1) as u32);
            &&& after.handles.wf()
            &&& after.handles.live() == before.handles.live().restrict(end.handles.live().dom())
            &&& after.handles.scope_marks == before.handles.scope_marks
            &&& after.handles.scope_allocations == before.handles.scope_allocations
            &&& after.depth == before.depth
        }),
{
    let opened = before.handles.entered();
    let depth = before.handles.depth() + 1;
    match event {
        Some(reflector) => {
            let insertion = seq![TableOp::Insert(reflector)];
            assert(insertion.drop_last() =~= Seq::empty());
            assert(insertion.last() == TableOp::Insert(reflector));
            assert(opened.run(insertion.drop_last()) == opened);
            assert(opened.run(insertion) == opened.apply(TableOp::Insert(reflector)));
            assert(opened.stays_inside(insertion.drop_last(), depth));
            assert(opened.stays_inside(insertion, depth));
            lemma_run_concat(opened, insertion, ops);
            lemma_stays_inside_concat(opened, insertion, ops, depth);
            closing_a_scope_leaves_nothing_behind(before.handles, insertion + ops);
        },
        None => {
            closing_a_scope_leaves_nothing_behind(before.handles, ops);
        },
    }
}

/// A module that opens a scope while its dispatcher runs and does not close it cannot make the
/// host close a scope that is not its own: the handles stay as the module left them, and the
/// depth of calls is restored all the same.
pub proof fn an_unclosed_scope_fails_closed(
    before: InstanceView,
    event: Option<Reflector>,
    end: InstanceView,
)
    requires
        before.handles.depth() < u32::MAX,
        before.depth < u32::MAX,
        end.handles.depth() != before.handles.depth() + 1,
        end.depth == dispatching(before, event).depth,
    ensures
        ({
            let after = dispatched(end, (before.handles.depth() + 1) as u32);
            &&& after.handles == end.handles
            &&& after.depth == before.depth
        }),
{
}

/// A listener that outlives its instance does nothing, whatever it is given.
pub proof fn a_listener_without_its_instance_does_nothing(
    instances: Seq<InstanceView>,
    slots: ListenerSlots,
    event: Option<Reflector>,
    max_reentrancy: u64,
)
    requires
        !is_live(instances, slots.instance as int),
    ensures
        firing(instances, slots, event, max_reentrancy) == Firing::InstanceGone,
        after_firing(instances, slots, event, max_reentrancy) == instances,
{
}

/// A listener calls the handler that it was made for: the dispatcher of its instance gets the
/// id that the module chose.
pub proof fn a_listener_calls_its_own_handler(
    instances: Seq<InstanceView>,
    instance_index: usize,
    callback_id: i32,
    event: Option<Reflector>,
    max_reentrancy: u64,
)
    requires
        instance_index <= i32::MAX,
    ensures
        ({
            let slots = ListenerSlots {
                instance: instance_index as i32,
                callback: callback_id,
            };
            firing(instances, slots, event, max_reentrancy) matches Firing::Dispatch(call) ==> {
                &&& call.instance == instance_index
                &&& call.callback_id == callback_id
                &&& instances[instance_index as int].dispatcher == Some(call.dispatcher)
            }
        }),
{
}

/// Calls into a module are never nested deeper than the limit: a listener that fires at the
/// limit is refused, and one that is let through stays within it. The refusal is a status that
/// the module can read with `error-code`, and the handles, the scopes and the depth of calls stay
/// as they were.
pub proof fn reentrancy_is_bounded(
    instances: Seq<InstanceView>,
    slots: ListenerSlots,
    event: Option<Reflector>,
    max_reentrancy: u64,
)
    requires
        is_live(instances, slots.instance as int),
        instances[slots.instance as int].depth < u32::MAX,
    ensures
        ({
            let instance = instances[slots.instance as int];
            &&& firing(instances, slots, event, max_reentrancy) is Dispatch ==> dispatching(
                instance,
                event,
            ).depth <= max_reentrancy
            &&& instance.dispatcher is Some && instance.depth >= max_reentrancy ==> {
                let after = after_firing(
                    instances,
                    slots,
                    event,
                    max_reentrancy,
                )[slots.instance as int];
                &&& firing(instances, slots, event, max_reentrancy) == Firing::TooDeep
                &&& after.error_code() == status_code(WasmAbiStatus::Reentrancy)
                &&& after == (InstanceView { pending_error: after.pending_error, ..instance })
            }
        }),
{
}

/// A listener that fires within the limit reaches its handler. The dispatcher of its instance is
/// called with the id that the listener carries and with a handle that names the event: it is a
/// new one, and in the instance as it then is it resolves to exactly that event. If there is no
/// event, or no room for it, the handle is null. The call runs in a scope of its own, one call
/// deeper, and nothing else of the instance is changed.
pub proof fn a_fired_event_reaches_its_handler(
    instances: Seq<InstanceView>,
    slots: ListenerSlots,
    event: Option<Reflector>,
    max_reentrancy: u64,
)
    requires
        0 <= slots.instance < instances.len(),
        !instances[slots.instance as int].torn_down,
        instances[slots.instance as int].dispatcher is Some,
        instances[slots.instance as int].depth < max_reentrancy,
        instances[slots.instance as int].depth < u32::MAX,
        instances[slots.instance as int].handles.wf(),
        instances[slots.instance as int].handles.depth() < u32::MAX,
    ensures
        firing(instances, slots, event, max_reentrancy) matches Firing::Dispatch(call) && {
            let before = instances[slots.instance as int];
            let after = after_firing(instances, slots, event, max_reentrancy)[call.instance as int];
            &&& call.instance == slots.instance
            &&& call.callback_id == slots.callback
            &&& before.dispatcher == Some(call.dispatcher)
            &&& call.scope == before.handles.depth() + 1
            &&& after.handles.depth() == before.handles.depth() + 1
            &&& after.handles.wf()
            &&& after.depth == before.depth + 1
            &&& after == (InstanceView { handles: after.handles, depth: after.depth, ..before })
            &&& match event {
                Some(reflector) if before.handles.live().dom().len() < before.handles.max_handles
                    && (before.handles.free_list.len() > 0 || before.handles.slots.len()
                    <= MAX_INDEX) => {
                    &&& call.event_handle > 0
                    &&& !before.handles.spent(call.event_handle as u32)
                    &&& after.handles.lookup(call.event_handle as u32) == Ok::<
                        Reflector,
                        WasmAbiStatus,
                    >(reflector)
                    &&& after.handles.live() == before.handles.live().insert(
                        call.event_handle as u32,
                        reflector,
                    )
                },
                _ => {
                    &&& call.event_handle == 0
                    &&& after.handles.live() == before.handles.live()
                },
            }
        },
        after_firing(instances, slots, event, max_reentrancy).len() == instances.len(),
        forall|other: int|
            0 <= other < instances.len() && other != slots.instance ==> (#[trigger] after_firing(
                instances,
                slots,
                event,
                max_reentrancy,
            )[other]) == instances[other],
{
    let before = instances[slots.instance as int];
    let opened = before.handles.entered();
    crate::handle_laws::live_handles_are_counted(before.handles);
    crate::handle_laws::operations_keep_the_table(before.handles, TableOp::EnterScope);
    assert(opened.live() =~= before.handles.live());
    assert(opened.can_insert() == before.handles.can_insert());
    if let Some(reflector) = event {
        crate::handle_laws::operations_keep_the_table(opened, TableOp::Insert(reflector));
        if opened.can_insert() {
            crate::handle_laws::inserting_mints_a_fresh_handle(opened, reflector);
            let fresh = opened.next_handle();
            assert(opened.inserted(reflector).live().dom().contains(fresh));
            assert(before.handles.spent(fresh) == opened.spent(fresh));
        }
    }
}

/// A listener calls nothing if its instance has no dispatcher or if calls are nested up to the
/// limit already.
pub proof fn a_listener_that_cannot_run_calls_nothing(
    instances: Seq<InstanceView>,
    slots: ListenerSlots,
    event: Option<Reflector>,
    max_reentrancy: u64,
)
    requires
        0 <= slots.instance < instances.len(),
        !instances[slots.instance as int].torn_down,
    ensures
        ({
            let before = instances[slots.instance as int];
            let fired = firing(instances, slots, event, max_reentrancy);
            &&& before.dispatcher is None ==> fired == Firing::NoDispatcher && after_firing(
                instances,
                slots,
                event,
                max_reentrancy,
            ) == instances
            &&& before.dispatcher is Some && before.depth >= max_reentrancy ==> fired
                == Firing::TooDeep
        }),
{
}

/// Once the dispatcher has returned, nothing of the instance is changed but its handles and the
/// depth of calls, which is one less. If the scope of the call is still the innermost one, it is
/// closed, and what is live afterwards was live before and names what it named.
pub proof fn an_event_that_is_over_closes_its_scope(instance: InstanceView, scope: u32)
    requires
        instance.handles.wf(),
        instance.depth > 0,
    ensures
        ({
            let after = dispatched(instance, scope);
            &&& after.depth == instance.depth - 1
            &&& after == (InstanceView { handles: after.handles, depth: after.depth, ..instance })
            &&& if scope > 0 && scope == instance.handles.depth() {
                &&& after.handles.depth() == instance.handles.depth() - 1
                &&& after.handles.live().submap_of(instance.handles.live())
            } else {
                after.handles == instance.handles
            }
        }),
{
    if scope > 0 && scope == instance.handles.depth() {
        let table = instance.handles;
        crate::handle_laws::releasing_many_ends_their_handles(table, table.innermost());
        let released = table.all_released(table.innermost());
        let after = table.exited();
        assert forall|handle: WasmHandle| #[trigger]
            after.live().dom().contains(handle) implies table.live().dom().contains(handle)
            && after.live()[handle] == table.live()[handle] by {
            assert(released.is_live(handle));
        }
    }
}

} // verus!
