//! What a module is told of its failures.

use vstd::prelude::*;

use crate::bridge::{
    after_member, after_own, instance_after_target_check, is_recorded, member_result, own_arity,
    own_result, CallView, MemberFailure, StepView,
};
use crate::ctx::object_argument;
use crate::event_target::{registration_of, request_of, RequestView};
use crate::handles::ObjectId;
use crate::host_functions::{after_document, document_result, RealmGlobal};
use crate::imports::{HostFunction, ImportView};
use crate::instance::InstanceView;
use crate::memory::BufferProperty;
use crate::registry::is_live;
use crate::wasm_abi::{status_code, WasmAbiStatus};

verus! {

/// A stage of a host call on an instance, with what it depends on. A call that needs the engine
/// has several. A listener that is refused at the limit of nested calls counts as one too.
pub enum Stage {
    /// The arguments cannot be decoded, and the call is over.
    Refuse { call: HostFunction },
    /// The whole of a call that needs nothing from the engine.
    RunOwn { call: HostFunction, memory: BufferProperty, args: Seq<i32> },
    /// The whole of a call of `document`, given the global of the realm.
    FindDocument { global: RealmGlobal },
    /// The object that is to get or to lose a listener is looked up.
    FindTarget { raw: i32 },
    /// The engine has told whether that object is an event target.
    CheckTarget {
        memory: BufferProperty,
        adding: bool,
        target: ObjectId,
        is_event_target: bool,
        args: Seq<i32>,
    },
    /// The engine has made a listener, or could not.
    MakeListener { listener: Option<ObjectId> },
    /// The event target has been given the listener.
    AddListener { request: RequestView, listener: ObjectId },
    /// A member of the DOM has ended.
    EndMember { outcome: Result<i32, MemberFailure> },
    /// A listener fires, and calls are nested too deep to run it.
    RefuseListener,
}

impl Stage {
    /// The instance after the stage.
    pub open spec fn after(self, instance: InstanceView) -> InstanceView {
        match self {
            Stage::Refuse { call } => if is_recorded(call) {
                instance.noting(Err(WasmAbiStatus::Type))
            } else {
                instance
            },
            Stage::RunOwn { call, memory, args } => after_own(instance, memory, call, args),
            Stage::FindDocument { global } => after_document(instance, global),
            Stage::FindTarget { raw } => match object_argument(instance, raw) {
                Ok(_) => instance,
                Err(status) => instance.noting(Err(status)),
            },
            Stage::CheckTarget { memory, adding, target, is_event_target, args } => {
                instance_after_target_check(
                    instance,
                    memory,
                    adding,
                    target,
                    is_event_target,
                    args,
                )
            },
            Stage::MakeListener { listener } => if listener is Some {
                instance
            } else {
                instance.noting(Err(WasmAbiStatus::Operation))
            },
            Stage::AddListener { request, listener } => InstanceView {
                listeners: instance.listeners.push(registration_of(request, listener)),
                ..instance
            },
            Stage::EndMember { outcome } => after_member(instance, outcome),
            Stage::RefuseListener => instance.noting(Err(WasmAbiStatus::Reentrancy)),
        }
    }

    /// The status of the failure that this stage brings, if it brings one. Of the two functions
    /// that tell a module of its failures none is counted.
    pub open spec fn failure(self, instance: InstanceView) -> Option<WasmAbiStatus> {
        match self {
            Stage::Refuse { call } => if is_recorded(call) {
                Some(WasmAbiStatus::Type)
            } else {
                None
            },
            Stage::RunOwn { call, memory, args } => match own_result(instance, memory, call, args) {
                Err(status) if is_recorded(call) => Some(status),
                _ => None,
            },
            Stage::FindDocument { global } => match document_result(instance, global) {
                Err(status) => Some(status),
                Ok(_) => None,
            },
            Stage::FindTarget { raw } => match object_argument(instance, raw) {
                Err(status) => Some(status),
                Ok(_) => None,
            },
            Stage::CheckTarget { memory, target, is_event_target, args, .. } => {
                match request_of(instance, memory, target, is_event_target, args) {
                    Err(status) => Some(status),
                    Ok(_) => None,
                }
            },
            Stage::MakeListener { listener } => if listener is Some {
                None
            } else {
                Some(WasmAbiStatus::Operation)
            },
            Stage::AddListener { .. } => None,
            Stage::EndMember { outcome } => match member_result(outcome) {
                Err(status) => Some(status),
                Ok(_) => None,
            },
            Stage::RefuseListener => Some(WasmAbiStatus::Reentrancy),
        }
    }

    /// Whether the stage is a call of `error-message` that succeeds.
    pub open spec fn delivers_the_message(self, instance: InstanceView) -> bool {
        match self {
            Stage::RunOwn { call, memory, args } => call == HostFunction::ErrorMessage
                && own_result(instance, memory, call, args) is Ok,
            _ => false,
        }
    }

    /// Whether the functions that are run without the engine are such that need none.
    pub open spec fn is_proper(self) -> bool {
        self matches Stage::RunOwn { call, .. } ==> own_arity(call) is Some
    }
}

/// The instance after a run of stages.
pub open spec fn after_stages(instance: InstanceView, stages: Seq<Stage>) -> InstanceView
    decreases stages.len(),
{
    if stages.len() == 0 {
        instance
    } else {
        stages.last().after(after_stages(instance, stages.drop_last()))
    }
}

/// The code of the failure that came last in a run of stages and whose message has not been
/// delivered since, or zero. What counts before the run is what the instance holds.
pub open spec fn last_failure(instance: InstanceView, stages: Seq<Stage>) -> i32
    decreases stages.len(),
{
    if stages.len() == 0 {
        instance.error_code()
    } else {
        let before = after_stages(instance, stages.drop_last());
        let stage = stages.last();
        if stage.delivers_the_message(before) {
            0
        } else {
            match stage.failure(before) {
                Some(status) => status_code(status) as i32,
                None => last_failure(instance, stages.drop_last()),
            }
        }
    }
}

/// `error-code` gives the code of the most recent failure: whatever calls an instance has seen,
/// it is the code of the one that failed last, until `error-message` has delivered its message.
/// Reading the code, as often as a module likes, and failing to read the message change nothing.
pub proof fn error_code_gives_the_most_recent_failure(
    instance: InstanceView,
    stages: Seq<Stage>,
    memory: BufferProperty,
    args: Seq<i32>,
)
    requires
        forall|i: int| 0 <= i < stages.len() ==> (#[trigger] stages[i]).is_proper(),
    ensures
        own_result(after_stages(instance, stages), memory, HostFunction::ErrorCode, args) == Ok::<
            i32,
            WasmAbiStatus,
        >(last_failure(instance, stages)),
    decreases stages.len(),
{
    if stages.len() > 0 {
        let rest = stages.drop_last();
        assert forall|i: int| 0 <= i < rest.len() implies (#[trigger] rest[i]).is_proper() by {
            assert(stages[i] == rest[i]);
        }
        assert(stages[stages.len() - 1].is_proper());
        error_code_gives_the_most_recent_failure(instance, rest, memory, args);
    }
}

/// A call that is answered with a failure before the engine is asked leaves that failure behind,
/// for `error-code` to tell.
pub proof fn a_failed_call_is_remembered(
    call: CallView,
    instances: Seq<InstanceView>,
    memory: BufferProperty,
    table: Seq<ImportView>,
    value: i32,
)
    requires
        call.entry(table) matches Some(entry) && is_recorded(entry.call),
        is_live(instances, call.instance_index as int),
        instances[call.instance_index as int].handles.wf(),
        call.first_step(instances, memory, table) == StepView::Return(value),
        value < 0,
    ensures
        call.instances_after(instances, memory, table)[call.instance_index as int].error_code()
            == value,
{
    crate::handle_laws::live_handles_are_counted(instances[call.instance_index as int].handles);
}

} // verus!
