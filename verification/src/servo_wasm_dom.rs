//! The `ServoWasmDom` namespace, through which a page drives the ABI by hand.
//!
//! The indices that come in here are chosen by a page, so each of them is looked up anew.

use vstd::prelude::*;
use vstd::utf8::encode_utf8;

use crate::bridge::CallView;
use crate::error::Error;
use crate::handle_laws::{
    evolution_is_transitive, lemma_live_handle, operations_keep_the_table,
};
use crate::handle_model::TableOp;
use crate::handles::{ObjectId, Reflector};
use crate::import_object::{all_nameable, build_import_object, object_of, ImportObjectPlan};
use crate::imports::{import_table, ImportView, MemberImport};
use crate::instance::{tearing_down_is_final, InstanceView, WasmDomInstance};
use crate::memory::BufferProperty;
use crate::registry::{is_live, InstanceRegistry};
use crate::wasm_abi::{carried_message, status_code, WasmAbiStatus, WasmHandle};

verus! {

// ---------------------------------------------------------------------------------------
// Errors
// ---------------------------------------------------------------------------------------

/// The error for an index that names no instance.
pub open spec fn no_such_instance(error: Error) -> bool {
    error matches Error::NotFound(Some(text)) && text@ == "no such wasm-dom instance"@
}

/// The error for an instance that is torn down: the index is right, the instance is gone.
pub open spec fn has_been_torn_down(error: Error) -> bool {
    error matches Error::InvalidState(Some(text)) && text@
        == "wasm-dom instance has been torn down"@
}

/// An error of the operation itself, with a message.
pub open spec fn operation_failed(error: Error, message: Seq<char>) -> bool {
    error matches Error::Operation(Some(text)) && text@ == message
}

/// A JavaScript type error with a message.
pub open spec fn wrong_type(error: Error, message: Seq<char>) -> bool {
    error matches Error::Type(bytes) && bytes@ == encode_utf8(message)
}

/// The error for a limit that is reached, without numbers.
pub open spec fn quota_exceeded() -> Error {
    Error::QuotaExceeded { quota: None, requested: None }
}

/// A JavaScript type error with a message.
pub fn type_error(message: &str) -> (error: Error)
    ensures
        wrong_type(error, message@),
{
    Error::Type(vstd::slice::slice_to_vec(message.as_bytes()))
}

// ---------------------------------------------------------------------------------------
// Lookup
// ---------------------------------------------------------------------------------------

/// Resolves an index, whether or not its instance is torn down.
pub fn registered_instance_for(registry: &InstanceRegistry, index: i32) -> (found: Result<
    usize,
    Error,
>)
    ensures
        match found {
            Ok(place) => 0 <= index < registry@.len() && place == index,
            Err(error) => !(0 <= index < registry@.len()) && no_such_instance(error),
        },
{
    if index >= 0 && (index as usize) < registry.count() {
        Ok(index as usize)
    } else {
        Err(Error::NotFound(Some("no such wasm-dom instance".to_owned())))
    }
}

/// Resolves an index to an instance that is not torn down.
pub fn instance_for(registry: &InstanceRegistry, index: i32) -> (found: Result<usize, Error>)
    requires
        registry.wf(),
    ensures
        match found {
            Ok(place) => is_live(registry@, index as int) && place == index,
            Err(error) => if 0 <= index < registry@.len() {
                registry@[index as int].torn_down && has_been_torn_down(error)
            } else {
                no_such_instance(error)
            },
        },
{
    let place: usize = match registered_instance_for(registry, index) {
        Ok(place) => place,
        Err(error) => return Err(error),
    };
    if !registry.is_live(index) {
        return Err(Error::InvalidState(Some("wasm-dom instance has been torn down".to_owned())));
    }
    Ok(place)
}

// ---------------------------------------------------------------------------------------
// The members of the namespace
// ---------------------------------------------------------------------------------------

/// Registers a new instance and gives the index that its host calls carry. The registry is never
/// shrunk, so a limit keeps a page from growing it without end.
pub fn create_instance(
    registry: &mut InstanceRegistry,
    max_instances: u64,
    max_handles: u64,
) -> (created: Result<i32, Error>)
    requires
        old(registry).wf(),
    ensures
        final(registry).wf(),
        final(registry)@ == (if old(registry)@.len() < max_instances {
            old(registry)@.push(InstanceView::fresh(max_handles))
        } else {
            old(registry)@
        }),
        final(registry)@ == after_op(
            old(registry)@,
            (GlobalOp::Create { max_instances, max_handles }),
        ),
        match created {
            Ok(index) => {
                &&& old(registry)@.len() < max_instances
                &&& index == old(registry)@.len()
            },
            Err(error) => {
                &&& error == quota_exceeded()
                &&& old(registry)@.len() >= max_instances || old(registry)@.len() > i32::MAX
            },
        },
{
    let count: u64 = registry.count() as u64;
    if count >= max_instances {
        return Err(Error::QuotaExceeded { quota: None, requested: None });
    }
    let index: usize = registry.register(WasmDomInstance::new(max_handles));
    match i32::try_from(index) {
        Ok(index) => Ok(index),
        Err(_) => Err(Error::QuotaExceeded { quota: None, requested: None }),
    }
}

/// Plans the object to instantiate a module against. The index is checked before anything is
/// built, so that no object is wired to an instance that does not exist.
pub fn plan_import_object(
    registry: &InstanceRegistry,
    members: &[MemberImport],
    instance: i32,
) -> (plan: Result<ImportObjectPlan, Error>)
    requires
        registry.wf(),
    ensures
        match plan {
            Ok(object) => {
                &&& is_live(registry@, instance as int)
                &&& all_nameable(members@)
                &&& object@ == object_of(
                    import_table(members@),
                    import_table(members@).len(),
                    instance,
                )
            },
            Err(error) => if is_live(registry@, instance as int) {
                &&& !all_nameable(members@)
                &&& operation_failed(error, "could not build the import object"@)
            } else if 0 <= instance < registry@.len() {
                has_been_torn_down(error)
            } else {
                no_such_instance(error)
            },
        },
{
    let index: usize = match instance_for(registry, instance) {
        Ok(index) => index,
        Err(error) => return Err(error),
    };
    match build_import_object(index, members) {
        Some(object) => Ok(object),
        None => Err(Error::Operation(Some("could not build the import object".to_owned()))),
    }
}

/// What making a planned object came to.
pub enum MadeObject {
    /// The engine could not make it.
    Failed,
    /// The engine made it, or a null.
    Made(Reflector),
}

/// Gives out the import object that the engine made of a plan.
pub fn finish_import_object(made: MadeObject) -> (object: Result<ObjectId, Error>)
    ensures
        match made {
            MadeObject::Made(Some(made)) => object == Ok::<ObjectId, Error>(made),
            MadeObject::Made(None) => object matches Err(error) && operation_failed(
                error,
                "import object was null"@,
            ),
            MadeObject::Failed => object matches Err(error) && operation_failed(
                error,
                "could not build the import object"@,
            ),
        },
{
    match made {
        MadeObject::Made(Some(object)) => Ok(object),
        MadeObject::Made(None) => Err(
            Error::Operation(Some("import object was null".to_owned())),
        ),
        MadeObject::Failed => Err(
            Error::Operation(Some("could not build the import object".to_owned())),
        ),
    }
}

/// Binds the memory that the instantiated module exports.
pub fn bind_memory(
    registry: &mut InstanceRegistry,
    instance: i32,
    memory: Reflector,
) -> (bound: Result<(), Error>)
    requires
        old(registry).wf(),
    ensures
        final(registry).wf(),
        final(registry)@ == after_op(
            old(registry)@,
            (GlobalOp::BindMemory { instance, memory }),
        ),
        match bound {
            Ok(_) => {
                &&& is_live(old(registry)@, instance as int)
                &&& memory is Some
                &&& final(registry)@ == old(registry)@.update(
                    instance as int,
                    (InstanceView { memory, ..old(registry)@[instance as int] }),
                )
            },
            Err(error) => {
                &&& final(registry)@ == old(registry)@
                &&& if is_live(old(registry)@, instance as int) {
                    memory is None && wrong_type(error, "memory must be an object"@)
                } else if 0 <= instance < old(registry)@.len() {
                    has_been_torn_down(error)
                } else {
                    no_such_instance(error)
                }
            },
        },
{
    let index: usize = match instance_for(registry, instance) {
        Ok(index) => index,
        Err(error) => return Err(error),
    };
    if memory.is_none() {
        return Err(type_error("memory must be an object"));
    }
    registry.registered_mut(index).set_memory(memory);
    Ok(())
}

/// Binds the dispatcher that the instantiated module exports.
pub fn bind_dispatcher(
    registry: &mut InstanceRegistry,
    instance: i32,
    dispatcher: Reflector,
) -> (bound: Result<(), Error>)
    requires
        old(registry).wf(),
    ensures
        final(registry).wf(),
        final(registry)@ == after_op(
            old(registry)@,
            (GlobalOp::BindDispatcher { instance, dispatcher }),
        ),
        match bound {
            Ok(_) => {
                &&& is_live(old(registry)@, instance as int)
                &&& dispatcher is Some
                &&& final(registry)@ == old(registry)@.update(
                    instance as int,
                    (InstanceView { dispatcher, ..old(registry)@[instance as int] }),
                )
            },
            Err(error) => {
                &&& final(registry)@ == old(registry)@
                &&& if is_live(old(registry)@, instance as int) {
                    dispatcher is None && wrong_type(error, "dispatcher must be a function"@)
                } else if 0 <= instance < old(registry)@.len() {
                    has_been_torn_down(error)
                } else {
                    no_such_instance(error)
                }
            },
        },
{
    let index: usize = match instance_for(registry, instance) {
        Ok(index) => index,
        Err(error) => return Err(error),
    };
    if dispatcher.is_none() {
        return Err(type_error("dispatcher must be a function"));
    }
    registry.registered_mut(index).set_dispatcher(dispatcher);
    Ok(())
}

/// Releases every handle of an instance and makes further host calls fail. Doing it twice is no
/// error.
pub fn tear_down(registry: &mut InstanceRegistry, instance: i32) -> (done: Result<(), Error>)
    requires
        old(registry).wf(),
    ensures
        final(registry).wf(),
        final(registry)@ == after_op(old(registry)@, (GlobalOp::TearDown { instance })),
        match done {
            Ok(_) => {
                &&& 0 <= instance < old(registry)@.len()
                &&& final(registry)@ == old(registry)@.update(
                    instance as int,
                    old(registry)@[instance as int].after_tear_down(),
                )
            },
            Err(error) => {
                &&& !(0 <= instance < old(registry)@.len())
                &&& no_such_instance(error)
                &&& final(registry)@ == old(registry)@
            },
        },
{
    let index: usize = match registered_instance_for(registry, instance) {
        Ok(index) => index,
        Err(error) => return Err(error),
    };
    registry.registered_mut(index).tear_down();
    Ok(())
}

/// The number of live handles of an instance, which can be read after it is torn down too.
pub fn handle_count(registry: &InstanceRegistry, instance: i32) -> (count: Result<i32, Error>)
    requires
        registry.wf(),
    ensures
        match count {
            Ok(count) => {
                &&& 0 <= instance < registry@.len()
                &&& count == registry@[instance as int].handles.live().dom().len()
            },
            Err(error) => !(0 <= instance < registry@.len()) && no_such_instance(error),
        },
{
    let index: usize = match registered_instance_for(registry, instance) {
        Ok(index) => index,
        Err(error) => return Err(error),
    };
    match registry.registered(index) {
        Some(instance) => {
            let count: u32 = instance.handles().len();
            Ok(count as i32)
        },
        None => {
            assert(false);
            Err(Error::NotFound(Some("no such wasm-dom instance".to_owned())))
        },
    }
}

// ---------------------------------------------------------------------------------------
// Laws
// ---------------------------------------------------------------------------------------

/// Something that a page or a module does to the instances of a global.
pub enum GlobalOp {
    Create { max_instances: u64, max_handles: u64 },
    BindMemory { instance: i32, memory: Reflector },
    BindDispatcher { instance: i32, dispatcher: Reflector },
    TearDown { instance: i32 },
    Call { call: CallView, buffer: BufferProperty, table: Seq<ImportView> },
    /// What a member of the DOM or the dispatch of an event does to the handles of an instance.
    UseHandles { instance: i32, op: TableOp<Reflector> },
}

/// The instances after such an operation.
pub open spec fn after_op(instances: Seq<InstanceView>, op: GlobalOp) -> Seq<InstanceView> {
    match op {
        GlobalOp::Create { max_instances, max_handles } => if instances.len() < max_instances {
            instances.push(InstanceView::fresh(max_handles))
        } else {
            instances
        },
        GlobalOp::BindMemory { instance, memory } => if is_live(instances, instance as int)
            && memory is Some {
            instances.update(
                instance as int,
                InstanceView { memory, ..instances[instance as int] },
            )
        } else {
            instances
        },
        GlobalOp::BindDispatcher { instance, dispatcher } => if is_live(
            instances,
            instance as int,
        ) && dispatcher is Some {
            instances.update(
                instance as int,
                InstanceView { dispatcher, ..instances[instance as int] },
            )
        } else {
            instances
        },
        GlobalOp::TearDown { instance } => if 0 <= instance < instances.len() {
            instances.update(instance as int, instances[instance as int].after_tear_down())
        } else {
            instances
        },
        GlobalOp::Call { call, buffer, table } => call.instances_after(instances, buffer, table),
        GlobalOp::UseHandles { instance, op } => if 0 <= instance < instances.len() {
            instances.update(
                instance as int,
                InstanceView {
                    handles: instances[instance as int].handles.apply(op),
                    ..instances[instance as int]
                },
            )
        } else {
            instances
        },
    }
}

/// The instances after a run of operations.
pub open spec fn after_ops(instances: Seq<InstanceView>, ops: Seq<GlobalOp>) -> Seq<InstanceView>
    decreases ops.len(),
{
    if ops.len() == 0 {
        instances
    } else {
        after_op(after_ops(instances, ops.drop_last()), ops.last())
    }
}

/// A new instance is live, holds nothing and comes after those there are, which stay as they are;
/// none is created where the limit is reached.
pub proof fn creating_adds_a_live_instance(
    instances: Seq<InstanceView>,
    max_instances: u64,
    max_handles: u64,
)
    ensures
        ({
            let after = after_op(instances, GlobalOp::Create { max_instances, max_handles });
            if instances.len() < max_instances {
                &&& after.len() == instances.len() + 1
                &&& forall|i: int| 0 <= i < instances.len() ==> #[trigger] after[i] == instances[i]
                &&& is_live(after, instances.len() as int)
                &&& after.last().handles.live().dom().len() == 0
                &&& after.last().memory is None
                &&& after.last().dispatcher is None
            } else {
                after == instances
            }
        }),
{
    let handles = InstanceView::fresh(max_handles).handles;
    assert(handles.live().dom() =~= Set::<WasmHandle>::empty());
}

/// Binding gives the named instance what is bound, in place of what was, if the instance is
/// live and there is something to bind. The rest of it, and every other instance, stays.
pub proof fn binding_is_for_the_instance_named(
    instances: Seq<InstanceView>,
    instance: i32,
    bound: Reflector,
)
    ensures
        ({
            let memory = after_op(instances, GlobalOp::BindMemory { instance, memory: bound });
            let dispatcher = after_op(
                instances,
                GlobalOp::BindDispatcher { instance, dispatcher: bound },
            );
            let binds = 0 <= instance < instances.len() && !instances[instance as int].torn_down
                && bound is Some;
            &&& memory.len() == instances.len()
            &&& dispatcher.len() == instances.len()
            &&& forall|i: int|
                0 <= i < instances.len() && (i != instance || !binds) ==> (#[trigger] memory[i])
                    == instances[i]
            &&& forall|i: int|
                0 <= i < instances.len() && (i != instance || !binds) ==> (
                #[trigger] dispatcher[i]) == instances[i]
            &&& binds ==> {
                let before = instances[instance as int];
                let with_memory = memory[instance as int];
                let with_dispatcher = dispatcher[instance as int];
                &&& with_memory.memory == bound
                &&& with_memory.dispatcher == before.dispatcher
                &&& with_memory.keeps_the_rest_of(before)
                &&& with_dispatcher.dispatcher == bound
                &&& with_dispatcher.memory == before.memory
                &&& with_dispatcher.keeps_the_rest_of(before)
            }
        }),
{
}

/// Tearing down ends the named instance alone: it is not live any more and has no live handle;
/// every other instance stays as it is.
pub proof fn tearing_down_ends_the_instance_named(instances: Seq<InstanceView>, instance: i32)
    requires
        0 <= instance < instances.len() ==> instances[instance as int].handles.wf(),
    ensures
        ({
            let after = after_op(instances, GlobalOp::TearDown { instance });
            &&& after.len() == instances.len()
            &&& forall|i: int|
                0 <= i < instances.len() && i != instance ==> (#[trigger] after[i])
                    == instances[i]
            &&& !is_live(after, instance as int)
            &&& 0 <= instance < instances.len()
                ==> after[instance as int].handles.live().dom().len() == 0
        }),
{
    if 0 <= instance < instances.len() {
        let before = instances[instance as int];
        tearing_down_is_final(before, 0);
        assert(before.after_tear_down().handles.live().dom() =~= Set::<WasmHandle>::empty());
    }
}

/// A live instance is one that was registered and is not torn down.
pub proof fn an_instance_is_live_until_it_is_torn_down(instances: Seq<InstanceView>, index: int)
    ensures
        is_live(instances, index) <==> 0 <= index < instances.len()
            && !instances[index].torn_down,
{
}

/// An error says by its kind and its text what is wrong.
pub proof fn errors_say_what_is_wrong(error: Error, message: Seq<char>)
    ensures
        no_such_instance(error) ==> error is NotFound && carried_message(error) == Some(
            "no such wasm-dom instance"@,
        ),
        has_been_torn_down(error) ==> error is InvalidState && carried_message(error) == Some(
            "wasm-dom instance has been torn down"@,
        ),
        operation_failed(error, message) ==> error is Operation && carried_message(error) == Some(
            message,
        ),
        wrong_type(error, message) ==> (error matches Error::Type(bytes) && bytes@ == encode_utf8(
            message,
        )),
        quota_exceeded() == (Error::QuotaExceeded { quota: None, requested: None }),
{
}

/// No index is ever taken back: whatever is done, the registry does not shrink.
pub proof fn indices_stay_valid(instances: Seq<InstanceView>, ops: Seq<GlobalOp>)
    ensures
        after_ops(instances, ops).len() >= instances.len(),
    decreases ops.len(),
{
    if ops.len() > 0 {
        indices_stay_valid(instances, ops.drop_last());
    }
}

/// A page cannot grow the registry beyond the limit, however often it asks for an instance.
pub proof fn the_registry_is_bounded(
    instances: Seq<InstanceView>,
    ops: Seq<GlobalOp>,
    limit: u64,
)
    requires
        instances.len() <= limit,
        forall|i: int|
            0 <= i < ops.len() ==> ((#[trigger] ops[i]) matches GlobalOp::Create {
                max_instances,
                ..
            } ==> max_instances <= limit),
    ensures
        after_ops(instances, ops).len() <= limit,
    decreases ops.len(),
{
    if ops.len() > 0 {
        let rest = ops.drop_last();
        assert forall|i: int| 0 <= i < rest.len() implies ((
        #[trigger] rest[i]) matches GlobalOp::Create { max_instances, .. } ==> max_instances
            <= limit) by {
            assert(ops[i] == rest[i]);
        }
        assert(ops[ops.len() - 1] == ops.last());
        the_registry_is_bounded(instances, rest, limit);
    }
}

/// An instance that is torn down stays as it is, however often pages create instances, bind
/// memories and dispatchers or tear instances down, this one included, and whatever calls modules
/// make from then on; its handle count can still be read and is zero; and every call on it is
/// answered with the status for that. What was under way when it was torn down is not counted.
pub proof fn a_torn_down_instance_stays_so(
    instances: Seq<InstanceView>,
    index: int,
    before: InstanceView,
    ops: Seq<GlobalOp>,
    call: CallView,
    memory: BufferProperty,
    table: Seq<ImportView>,
)
    requires
        0 <= index < instances.len(),
        before.handles.wf(),
        instances[index] == before.after_tear_down(),
        call.instance_index == index,
        call.entry(table) is Some,
        forall|i: int|
            0 <= i < ops.len() ==> !((#[trigger] ops[i]) matches GlobalOp::UseHandles {
                instance,
                ..
            } && instance == index),
    ensures
        after_ops(instances, ops)[index] == instances[index],
        instances[index].handles.live().dom().len() == 0,
        call.first_step(after_ops(instances, ops), memory, table)
            == crate::bridge::StepView::Return(
            status_code(WasmAbiStatus::InstanceTornDown) as i32,
        ),
        call.instances_after(after_ops(instances, ops), memory, table) == after_ops(
            instances,
            ops,
        ),
    decreases ops.len(),
{
    indices_stay_valid(instances, ops);
    tearing_down_is_final(before, 0);
    assert(instances[index].handles.live().dom() =~= Set::<WasmHandle>::empty());
    if ops.len() > 0 {
        indices_stay_valid(instances, ops.drop_last());
        assert forall|i: int| 0 <= i < ops.drop_last().len() implies !((
        #[trigger] ops.drop_last()[i]) matches GlobalOp::UseHandles { instance, .. } && instance
            == index) by {
            assert(ops[i] == ops.drop_last()[i]);
        }
        assert(ops[ops.len() - 1] == ops.last());
        a_torn_down_instance_stays_so(
            instances,
            index,
            before,
            ops.drop_last(),
            call,
            memory,
            table,
        );
    }
}

/// One operation changes the handles of an instance only as operations on a handle table do.
proof fn lemma_handles_evolve(instances: Seq<InstanceView>, op: GlobalOp, index: int)
    requires
        0 <= index < instances.len(),
        instances[index].handles.wf(),
    ensures
        after_op(instances, op)[index].handles.wf(),
        instances[index].handles.evolves_to(after_op(instances, op)[index].handles),
{
    let handles = instances[index].handles;
    match op {
        GlobalOp::TearDown { .. } => {
            operations_keep_the_table(handles, TableOp::Clear);
        },
        GlobalOp::UseHandles { op, .. } => {
            operations_keep_the_table(handles, op);
        },
        GlobalOp::Call { call, table, .. } => {
            if call.reaches_its_import(instances, table) && call.instance_index == index {
                let args = call.integers(table)->Ok_0;
                operations_keep_the_table(handles, TableOp::Remove(args[0] as WasmHandle));
                operations_keep_the_table(handles, TableOp::EnterScope);
                operations_keep_the_table(handles, TableOp::ExitScope(args[0] as u32));
            }
        },
        _ => {},
    }
}

/// A handle that a module holds can never silently come to name another object: whatever pages,
/// modules and events do to the instances of a global, it names the object it named or is stale.
pub proof fn a_held_handle_is_safe(
    instances: Seq<InstanceView>,
    ops: Seq<GlobalOp>,
    index: int,
    handle: WasmHandle,
)
    requires
        0 <= index < instances.len(),
        instances[index].handles.wf(),
        instances[index].handles.is_live(handle),
    ensures
        ({
            let after = after_ops(instances, ops)[index].handles;
            ||| after.lookup(handle) == instances[index].handles.lookup(handle)
            ||| after.lookup(handle) == Err::<Reflector, WasmAbiStatus>(
                WasmAbiStatus::StaleHandle,
            )
        }),
{
    lemma_handles_evolve_over(instances, ops, index);
    lemma_live_handle(instances[index].handles, handle);
    assert(after_ops(instances, ops)[index].handles.spent(handle));
}

/// A run of operations changes the handles of an instance only as operations on a handle table
/// do.
proof fn lemma_handles_evolve_over(instances: Seq<InstanceView>, ops: Seq<GlobalOp>, index: int)
    requires
        0 <= index < instances.len(),
        instances[index].handles.wf(),
    ensures
        after_ops(instances, ops)[index].handles.wf(),
        instances[index].handles.evolves_to(after_ops(instances, ops)[index].handles),
    decreases ops.len(),
{
    if ops.len() > 0 {
        let before = after_ops(instances, ops.drop_last());
        indices_stay_valid(instances, ops.drop_last());
        lemma_handles_evolve_over(instances, ops.drop_last(), index);
        lemma_handles_evolve(before, ops.last(), index);
        evolution_is_transitive(
            instances[index].handles,
            before[index].handles,
            after_op(before, ops.last())[index].handles,
        );
    }
}

} // verus!
