//! Dispatching the host calls of a module.
//!
//! Every import is backed by one host function of the engine, which carries two integers: the
//! index of its instance and the index of its import. A call is decoded, looked up and run here.
//! What only the engine can do is handed out as a step; its answer leads to the next step, until
//! there is a value to return to the module.

use vstd::prelude::*;
use vstd::utf8::encode_utf8;

use crate::ctx::object_argument;
use crate::error::Error;
use crate::event_target::{
    decode_request, record_listener, registration_of, request_of, take_back_listener,
    ListenerRequest, RequestView,
};
use crate::handles::ObjectId;
use crate::host_functions::{
    after_document, after_error_message, after_handle_drop, after_handle_eq, after_scope_enter,
    after_scope_exit, after_string_read, attached_after_error_message, attached_after_string_read,
    document_result, error_message_result, handle_drop_result, handle_eq_result,
    scope_enter_result, scope_exit_result, string_read_result, RealmGlobal,
};
use crate::imports::{import_at, import_table, HostFunction, ImportView, MemberImport};
use crate::instance::{InstanceView, WasmDomInstance};
use crate::memory::BufferProperty;
use crate::registry::{is_live, InstanceRegistry};
use crate::wasm_abi::{
    error_status, plan_string_write, status_code, string_write_plan, StringWrite, WasmAbiStatus,
    SDA_ABI_VERSION,
};

verus! {

/// The most arguments that an import may take.
pub const MAX_ARGS: usize = 8;

/// An argument as the engine passes it.
#[derive(Clone, Copy, Debug, Eq, PartialEq, Structural)]
pub enum ArgValue {
    Int32(i32),
    /// A double, as its bits.
    Double(u64),
    /// No value: the module declared fewer parameters than the import takes.
    Undefined,
    /// Anything else.
    Other,
}

// ---------------------------------------------------------------------------------------
// Arguments
// ---------------------------------------------------------------------------------------

/// The exponent field of a double.
pub open spec fn exponent_field(bits: u64) -> int {
    (bits as int / 0x10_0000_0000_0000) % 0x800
}

/// The fraction field of a double.
pub open spec fn fraction_field(bits: u64) -> int {
    bits as int % 0x10_0000_0000_0000
}

/// Whether a double is negative, zero included.
pub open spec fn sign_field(bits: u64) -> bool {
    bits >= 0x8000_0000_0000_0000
}

/// Whether a double is neither infinite nor not a number.
pub open spec fn is_finite(bits: u64) -> bool {
    exponent_field(bits) != 0x7FF
}

/// How large a finite double is, rounded toward zero. From `2^31` on, where the magnitude leaves
/// the range of an integer, it is taken as `2^31`.
pub open spec fn magnitude(bits: u64) -> int {
    let exponent = exponent_field(bits) - 1023;
    if exponent < 0 {
        0
    } else if exponent >= 31 {
        0x8000_0000
    } else {
        (0x10_0000_0000_0000 + fraction_field(bits)) / vstd::arithmetic::power2::pow2(
            (52 - exponent) as nat,
        ) as int
    }
}

/// A finite double as an integer: rounded toward zero and brought into range.
pub open spec fn truncated(bits: u64) -> int {
    if sign_field(bits) {
        -magnitude(bits)
    } else if magnitude(bits) > i32::MAX {
        i32::MAX as int
    } else {
        magnitude(bits)
    }
}

/// The integer that an argument stands for.
pub open spec fn integer_of(value: ArgValue) -> Result<i32, WasmAbiStatus> {
    match value {
        ArgValue::Int32(value) => Ok(value),
        ArgValue::Double(bits) => if is_finite(bits) {
            Ok(truncated(bits) as i32)
        } else {
            Err(WasmAbiStatus::Type)
        },
        _ => Err(WasmAbiStatus::Type),
    }
}

/// The integers that the arguments of a call stand for. Extra arguments are ignored.
pub open spec fn integers_of(args: Seq<ArgValue>, nargs: nat) -> Result<Seq<i32>, WasmAbiStatus> {
    if nargs > MAX_ARGS || args.len() < nargs {
        Err(WasmAbiStatus::Type)
    } else if forall|i: int| 0 <= i < nargs ==> integer_of(#[trigger] args[i]) is Ok {
        Ok(Seq::new(nargs, |i: int| integer_of(args[i])->Ok_0))
    } else {
        Err(WasmAbiStatus::Type)
    }
}

/// Decodes a double, which has to be finite.
fn decode_double(bits: u64) -> (decoded: Result<i32, WasmAbiStatus>)
    ensures
        decoded == (if is_finite(bits) {
            Ok::<i32, WasmAbiStatus>(truncated(bits) as i32)
        } else {
            Err(WasmAbiStatus::Type)
        }),
        is_finite(bits) ==> i32::MIN <= truncated(bits) <= i32::MAX,
{
    let exponent: u64 = (bits >> 52u64) & 0x7FF;
    let fraction: u64 = bits & 0xF_FFFF_FFFF_FFFF;
    assert((bits >> 52u64) & 0x7FFu64 == (bits / 0x10_0000_0000_0000u64) % 0x800u64)
        by (bit_vector);
    assert(bits & 0xF_FFFF_FFFF_FFFFu64 == bits % 0x10_0000_0000_0000u64) by (bit_vector);
    if exponent == 0x7FF {
        return Err(WasmAbiStatus::Type);
    }
    let negative = bits >= 0x8000_0000_0000_0000;
    if exponent < 1023 {
        return Ok(0);
    }
    if exponent >= 1023 + 31 {
        return Ok(
            if negative {
                i32::MIN
            } else {
                i32::MAX
            },
        );
    }
    let shift: u64 = 1075 - exponent;
    let significand: u64 = 0x10_0000_0000_0000 + fraction;
    let whole: u64 = significand >> shift;
    proof {
        vstd::bits::lemma_u64_shr_is_div(significand, shift);
        assert(significand >> shift < 0x8000_0000u64) by (bit_vector)
            requires
                significand < 0x20_0000_0000_0000u64,
                22 <= shift <= 52,
        ;
    }
    if negative {
        Ok(-(whole as i32))
    } else {
        Ok(whole as i32)
    }
}

/// Decodes one argument.
pub fn decode_i32(value: ArgValue) -> (decoded: Result<i32, WasmAbiStatus>)
    ensures
        decoded == integer_of(value),
{
    match value {
        ArgValue::Int32(value) => Ok(value),
        ArgValue::Double(bits) => decode_double(bits),
        ArgValue::Undefined => Err(WasmAbiStatus::Type),
        ArgValue::Other => Err(WasmAbiStatus::Type),
    }
}

/// Decodes the arguments of a call.
pub fn decode_arguments(args: &[ArgValue], nargs: usize) -> (decoded: Result<
    Vec<i32>,
    WasmAbiStatus,
>)
    ensures
        match decoded {
            Ok(values) => integers_of(args@, nargs as nat) == Ok::<Seq<i32>, WasmAbiStatus>(
                values@,
            ),
            Err(status) => integers_of(args@, nargs as nat) == Err::<Seq<i32>, WasmAbiStatus>(
                status,
            ),
        },
{
    if nargs > MAX_ARGS || args.len() < nargs {
        return Err(WasmAbiStatus::Type);
    }
    let mut values: Vec<i32> = Vec::new();
    for i in 0..nargs
        invariant
            nargs <= MAX_ARGS,
            nargs <= args@.len(),
            values@.len() == i,
            forall|j: int|
                0 <= j < i ==> integer_of(#[trigger] args@[j]) == Ok::<i32, WasmAbiStatus>(
                    values@[j],
                ),
    {
        match decode_i32(args[i]) {
            Ok(value) => values.push(value),
            Err(status) => {
                assert(integer_of(args@[i as int]) is Err);
                return Err(status);
            },
        }
    }
    assert(values@ =~= Seq::new(nargs as nat, |i: int| integer_of(args@[i])->Ok_0));
    Ok(values)
}

// ---------------------------------------------------------------------------------------
// The functions that the host runs by itself
// ---------------------------------------------------------------------------------------

/// Whether a failure of a host function is recorded. The functions that tell a module of its last
/// failure do not replace it by one of their own.
pub open spec fn is_recorded(call: HostFunction) -> bool {
    call != HostFunction::ErrorCode && call != HostFunction::ErrorMessage
}

/// Whether a host function needs nothing from the engine, and how many arguments it reads.
pub open spec fn own_arity(call: HostFunction) -> Option<nat> {
    match call {
        HostFunction::AbiVersion => Some(0),
        HostFunction::HandleDrop => Some(1),
        HostFunction::HandleEq => Some(2),
        HostFunction::HandleScopeEnter => Some(0),
        HostFunction::HandleScopeExit => Some(1),
        HostFunction::HandleCount => Some(0),
        HostFunction::StringRead => Some(2),
        HostFunction::ErrorCode => Some(0),
        HostFunction::ErrorMessage => Some(2),
        _ => None,
    }
}

/// What such a function gives. Of the others nothing is said here.
pub open spec fn own_result(
    instance: InstanceView,
    memory: BufferProperty,
    call: HostFunction,
    args: Seq<i32>,
) -> Result<i32, WasmAbiStatus> {
    match call {
        HostFunction::AbiVersion => Ok(SDA_ABI_VERSION),
        HostFunction::HandleDrop => handle_drop_result(instance, args[0]),
        HostFunction::HandleEq => handle_eq_result(instance, args[0], args[1]),
        HostFunction::HandleScopeEnter => scope_enter_result(instance),
        HostFunction::HandleScopeExit => scope_exit_result(instance, args[0]),
        HostFunction::HandleCount => Ok(instance.handles.live().dom().len() as i32),
        HostFunction::StringRead => string_read_result(instance, memory, args[0], args[1]),
        HostFunction::ErrorCode => Ok(instance.error_code()),
        HostFunction::ErrorMessage => error_message_result(instance, memory, args[0], args[1]),
        _ => Err(WasmAbiStatus::NotEnabled),
    }
}

/// The instance after such a function ran.
pub open spec fn after_own(
    instance: InstanceView,
    memory: BufferProperty,
    call: HostFunction,
    args: Seq<i32>,
) -> InstanceView {
    match call {
        HostFunction::HandleDrop => after_handle_drop(instance, args[0]),
        HostFunction::HandleEq => after_handle_eq(instance, args[0], args[1]),
        HostFunction::HandleScopeEnter => after_scope_enter(instance),
        HostFunction::HandleScopeExit => after_scope_exit(instance, args[0]),
        HostFunction::StringRead => after_string_read(instance, memory, args[0], args[1]),
        HostFunction::ErrorMessage => after_error_message(instance, memory, args[0], args[1]),
        _ => instance,
    }
}

/// What the memory holds after such a function ran.
pub open spec fn attached_after_own(
    instance: InstanceView,
    memory: BufferProperty,
    call: HostFunction,
    args: Seq<i32>,
) -> Option<Seq<u8>> {
    match call {
        HostFunction::StringRead => attached_after_string_read(
            instance,
            memory,
            args[0],
            args[1],
        ),
        HostFunction::ErrorMessage => attached_after_error_message(
            instance,
            memory,
            args[0],
            args[1],
        ),
        _ => memory.attached(),
    }
}

/// Runs a host function that needs nothing from the engine.
fn run_own(
    instance: &mut WasmDomInstance,
    memory: &mut BufferProperty,
    call: HostFunction,
    args: &[i32],
) -> (result: Result<i32, WasmAbiStatus>)
    requires
        old(instance).wf(),
        own_arity(call) matches Some(arity) && arity <= args@.len(),
        call == HostFunction::HandleScopeEnter ==> old(instance)@.handles.depth() < u32::MAX,
    ensures
        final(instance).wf(),
        result == own_result(old(instance)@, *old(memory), call, args@),
        final(instance)@ == after_own(old(instance)@, *old(memory), call, args@),
        final(memory).attached() == attached_after_own(
            old(instance)@,
            *old(memory),
            call,
            args@,
        ),
{
    match call {
        HostFunction::AbiVersion => crate::host_functions::abi_version(),
        HostFunction::HandleDrop => crate::host_functions::handle_drop(instance, args),
        HostFunction::HandleEq => crate::host_functions::handle_eq(instance, args),
        HostFunction::HandleScopeEnter => crate::host_functions::handle_scope_enter(instance),
        HostFunction::HandleScopeExit => crate::host_functions::handle_scope_exit(instance, args),
        HostFunction::HandleCount => crate::host_functions::handle_count(instance),
        HostFunction::StringRead => crate::host_functions::string_read(instance, memory, args),
        HostFunction::ErrorCode => crate::host_functions::error_code(instance),
        HostFunction::ErrorMessage => crate::host_functions::error_message(instance, memory, args),
        HostFunction::Document | HostFunction::AddEventListener
        | HostFunction::RemoveEventListener | HostFunction::Member => {
            assert(false);
            Err(WasmAbiStatus::NotEnabled)
        },
    }
}

// ---------------------------------------------------------------------------------------
// Steps
// ---------------------------------------------------------------------------------------

/// A call of `document`, for which the engine has to tell the global of the realm.
pub struct DocumentCall {
    pub instance: usize,
}

/// A call that adds or removes a listener, for which the engine has to tell whether an object is
/// an event target.
pub struct TargetCheck {
    pub instance: usize,
    /// Whether the listener is to be added.
    pub adding: bool,
    pub target: ObjectId,
    pub args: Vec<i32>,
}

/// A call that adds a listener, for which the engine has to make the listener object.
pub struct ListenerCall {
    pub instance: usize,
    pub request: ListenerRequest,
}

/// A call that adds a listener, which the engine has to give to the event target.
pub struct AddCall {
    pub instance: usize,
    pub request: ListenerRequest,
    pub listener: ObjectId,
}

/// A call that removes a listener, which the engine has to take from the event target.
pub struct RemoveCall {
    pub request: ListenerRequest,
    pub listener: ObjectId,
}

/// A call of a member of the DOM.
pub struct MemberCall {
    pub instance: usize,
    /// The index of the import.
    pub entry: usize,
    pub args: Vec<i32>,
}

/// What has to be done next for a host call.
pub enum HostStep {
    /// The host function does not name an import, which no module can bring about.
    Trap,
    /// The call is over and gives this value.
    Return(i32),
    FindDocument(DocumentCall),
    CheckEventTarget(TargetCheck),
    MakeListener(ListenerCall),
    AddListener(AddCall),
    RemoveListener(RemoveCall),
    CallMember(MemberCall),
}

/// What has to be done next for a host call.
pub enum StepView {
    Trap,
    Return(i32),
    FindDocument { instance: nat },
    CheckEventTarget { instance: nat, adding: bool, target: ObjectId, args: Seq<i32> },
    MakeListener { instance: nat, request: RequestView },
    AddListener { instance: nat, request: RequestView, listener: ObjectId },
    RemoveListener { request: RequestView, listener: ObjectId },
    CallMember { instance: nat, entry: nat, args: Seq<i32> },
}

impl View for HostStep {
    type V = StepView;

    open spec fn view(&self) -> StepView {
        match *self {
            HostStep::Trap => StepView::Trap,
            HostStep::Return(value) => StepView::Return(value),
            HostStep::FindDocument(call) => StepView::FindDocument {
                instance: call.instance as nat,
            },
            HostStep::CheckEventTarget(check) => StepView::CheckEventTarget {
                instance: check.instance as nat,
                adding: check.adding,
                target: check.target,
                args: check.args@,
            },
            HostStep::MakeListener(call) => StepView::MakeListener {
                instance: call.instance as nat,
                request: call.request@,
            },
            HostStep::AddListener(call) => StepView::AddListener {
                instance: call.instance as nat,
                request: call.request@,
                listener: call.listener,
            },
            HostStep::RemoveListener(call) => StepView::RemoveListener {
                request: call.request@,
                listener: call.listener,
            },
            HostStep::CallMember(call) => StepView::CallMember {
                instance: call.instance as nat,
                entry: call.entry as nat,
                args: call.args@,
            },
        }
    }
}

/// What the module sees of the result of a call: the value, or the code of the failure.
pub open spec fn returned(result: Result<i32, WasmAbiStatus>) -> i32 {
    match result {
        Ok(value) => value,
        Err(status) => status_code(status) as i32,
    }
}

/// Encodes the result of a call for the module.
pub fn encode_result(result: Result<i32, WasmAbiStatus>) -> (value: i32)
    ensures
        value == returned(result),
{
    match result {
        Ok(value) => value,
        Err(status) => status.to_abi(),
    }
}

/// A host call as the engine makes it.
pub struct CallView {
    /// The index of the instance that the host function carries.
    pub instance_index: i32,
    /// The index of the import that the host function carries.
    pub entry_index: i32,
    pub args: Seq<ArgValue>,
}

impl CallView {
    /// The import that is called.
    pub open spec fn entry(self, table: Seq<ImportView>) -> Option<ImportView> {
        if 0 <= self.entry_index < table.len() {
            Some(table[self.entry_index as int])
        } else {
            None
        }
    }

    /// The arguments, decoded for the import that is called.
    pub open spec fn integers(self, table: Seq<ImportView>) -> Result<Seq<i32>, WasmAbiStatus> {
        integers_of(self.args, table[self.entry_index as int].nargs)
    }

    /// Whether the call gets as far as its import: the import exists, the instance is not torn
    /// down, and the arguments can be decoded.
    pub open spec fn reaches_its_import(
        self,
        instances: Seq<InstanceView>,
        table: Seq<ImportView>,
    ) -> bool {
        &&& self.entry(table) is Some
        &&& is_live(instances, self.instance_index as int)
        &&& self.integers(table) is Ok
    }

    /// Whether the call opens a scope of handles.
    pub open spec fn opens_a_scope(
        self,
        instances: Seq<InstanceView>,
        table: Seq<ImportView>,
    ) -> bool {
        &&& self.reaches_its_import(instances, table)
        &&& table[self.entry_index as int].call == HostFunction::HandleScopeEnter
    }

    /// Whether the call writes into the memory of the module before the engine is asked: it
    /// fetches what was kept for the module, there is something, and it fits the buffer.
    pub open spec fn touches_memory(
        self,
        instances: Seq<InstanceView>,
        table: Seq<ImportView>,
    ) -> bool {
        let instance = instances[self.instance_index as int];
        &&& self.reaches_its_import(instances, table)
        &&& instance.memory is Some
        &&& match table[self.entry_index as int].call {
            HostFunction::StringRead => instance.pending_string matches Some(bytes)
                && string_write_plan(
                bytes.len() as int,
                self.integers(table)->Ok_0[1] as int,
            ) matches Ok(StringWrite::Fits { .. }),
            HostFunction::ErrorMessage => instance.pending_error matches Some((_, message))
                && string_write_plan(
                encode_utf8(message).len() as int,
                self.integers(table)->Ok_0[1] as int,
            ) matches Ok(StringWrite::Fits { .. }),
            _ => false,
        }
    }

    /// The first step of the call.
    pub open spec fn first_step(
        self,
        instances: Seq<InstanceView>,
        memory: BufferProperty,
        table: Seq<ImportView>,
    ) -> StepView {
        if self.entry(table) is None {
            StepView::Trap
        } else if !is_live(instances, self.instance_index as int) {
            StepView::Return(status_code(WasmAbiStatus::InstanceTornDown) as i32)
        } else {
            match self.integers(table) {
                Err(status) => StepView::Return(status_code(status) as i32),
                Ok(args) => {
                    let instance = instances[self.instance_index as int];
                    match self.entry(table)->0.call {
                        HostFunction::Document => StepView::FindDocument {
                            instance: self.instance_index as nat,
                        },
                        HostFunction::AddEventListener => match object_argument(
                            instance,
                            args[0],
                        ) {
                            Ok(target) => StepView::CheckEventTarget {
                                instance: self.instance_index as nat,
                                adding: true,
                                target,
                                args,
                            },
                            Err(status) => StepView::Return(status_code(status) as i32),
                        },
                        HostFunction::RemoveEventListener => match object_argument(
                            instance,
                            args[0],
                        ) {
                            Ok(target) => StepView::CheckEventTarget {
                                instance: self.instance_index as nat,
                                adding: false,
                                target,
                                args,
                            },
                            Err(status) => StepView::Return(status_code(status) as i32),
                        },
                        HostFunction::Member => StepView::CallMember {
                            instance: self.instance_index as nat,
                            entry: self.entry_index as nat,
                            args,
                        },
                        call => StepView::Return(
                            returned(own_result(instance, memory, call, args)),
                        ),
                    }
                },
            }
        }
    }

    /// The instance that is called after the first step.
    pub open spec fn instance_after(
        self,
        instance: InstanceView,
        memory: BufferProperty,
        table: Seq<ImportView>,
    ) -> InstanceView {
        let call = self.entry(table)->0.call;
        match self.integers(table) {
            Err(status) => if is_recorded(call) {
                instance.noting(Err(status))
            } else {
                instance
            },
            Ok(args) => match call {
                HostFunction::AddEventListener | HostFunction::RemoveEventListener => {
                    match object_argument(instance, args[0]) {
                        Ok(_) => instance,
                        Err(status) => instance.noting(Err(status)),
                    }
                },
                call => after_own(instance, memory, call, args),
            },
        }
    }

    /// The instances after the first step.
    pub open spec fn instances_after(
        self,
        instances: Seq<InstanceView>,
        memory: BufferProperty,
        table: Seq<ImportView>,
    ) -> Seq<InstanceView> {
        if self.entry(table) is Some && is_live(instances, self.instance_index as int) {
            instances.update(
                self.instance_index as int,
                self.instance_after(instances[self.instance_index as int], memory, table),
            )
        } else {
            instances
        }
    }

    /// What the memory holds after the first step.
    pub open spec fn attached_after(
        self,
        instances: Seq<InstanceView>,
        memory: BufferProperty,
        table: Seq<ImportView>,
    ) -> Option<Seq<u8>> {
        if self.reaches_its_import(instances, table) {
            attached_after_own(
                instances[self.instance_index as int],
                memory,
                self.entry(table)->0.call,
                self.integers(table)->Ok_0,
            )
        } else {
            memory.attached()
        }
    }
}

/// Where the imports of the runtime stand in the table, the number of arguments is the one that
/// the function reads.
proof fn lemma_arity(members: Seq<MemberImport>, index: int)
    requires
        0 <= index < import_table(members).len(),
    ensures
        own_arity(import_table(members)[index].call) matches Some(arity) ==> arity
            == import_table(members)[index].nargs,
        import_table(members)[index].call == HostFunction::AddEventListener || import_table(
            members,
        )[index].call == HostFunction::RemoveEventListener ==> import_table(members)[index].nargs
            == 5,
{
    if index >= crate::imports::core_table().len() {
        assert(import_table(members)[index].call == HostFunction::Member);
    }
}

/// What a host call needs before it is made.
#[derive(Clone, Copy, Debug, Eq, PartialEq, Structural)]
pub struct CallNeeds {
    /// The buffer of the memory.
    pub memory: bool,
    /// Room for one more scope of handles.
    pub scope: bool,
}

/// What a host call needs, so that the buffer of the memory is fetched only for a call that
/// writes into it.
pub fn call_needs(
    registry: &InstanceRegistry,
    members: &[MemberImport],
    instance_index: i32,
    entry_index: i32,
    args: &[ArgValue],
) -> (needs: CallNeeds)
    requires
        registry.wf(),
    ensures
        ({
            let call = CallView { instance_index, entry_index, args: args@ };
            let table = import_table(members@);
            needs == (CallNeeds {
                memory: call.touches_memory(registry@, table),
                scope: call.opens_a_scope(registry@, table),
            })
        }),
{
    let nothing = CallNeeds { memory: false, scope: false };
    if entry_index < 0 || !registry.is_live(instance_index) {
        return nothing;
    }
    let entry = match import_at(entry_index as usize, members) {
        Some(entry) => entry,
        None => return nothing,
    };
    let values = match decode_arguments(args, entry.nargs) {
        Ok(values) => values,
        Err(_) => return nothing,
    };
    proof {
        lemma_arity(members@, entry_index as int);
    }
    let kept = match registry.registered(instance_index as usize) {
        Some(instance) if instance.has_memory() => match entry.call {
            HostFunction::StringRead => instance.stashed_string_len(),
            HostFunction::ErrorMessage => instance.error_message_len(),
            _ => None,
        },
        _ => None,
    };
    let memory = match kept {
        Some(len) => match plan_string_write(len, values[1]) {
            Ok(StringWrite::Fits { .. }) => true,
            _ => false,
        },
        None => false,
    };
    CallNeeds { memory, scope: entry.call == HostFunction::HandleScopeEnter }
}

/// Takes a host call as far as it goes without the engine.
///
/// `memory` is the buffer of the memory that the instance has bound, if it has. It makes no
/// difference where [`call_needs`] does not ask for it.
pub fn wasm_dom_host_call(
    registry: &mut InstanceRegistry,
    memory: &mut BufferProperty,
    members: &[MemberImport],
    instance_index: i32,
    entry_index: i32,
    args: &[ArgValue],
) -> (step: HostStep)
    requires
        old(registry).wf(),
        (CallView { instance_index, entry_index, args: args@ }).opens_a_scope(
            old(registry)@,
            import_table(members@),
        ) ==> old(registry)@[instance_index as int].handles.depth() < u32::MAX,
    ensures
        final(registry).wf(),
        ({
            let call = CallView { instance_index, entry_index, args: args@ };
            let table = import_table(members@);
            &&& step@ == call.first_step(old(registry)@, *old(memory), table)
            &&& final(registry)@ == call.instances_after(old(registry)@, *old(memory), table)
            &&& final(memory).attached() == call.attached_after(
                old(registry)@,
                *old(memory),
                table,
            )
        }),
{
    let ghost before = registry@;
    if entry_index < 0 {
        return HostStep::Trap;
    }
    let entry = match import_at(entry_index as usize, members) {
        Some(entry) => entry,
        None => return HostStep::Trap,
    };
    if !registry.is_live(instance_index) {
        return HostStep::Return(WasmAbiStatus::InstanceTornDown.to_abi());
    }
    let instance: usize = instance_index as usize;
    proof {
        lemma_arity(members@, entry_index as int);
        assert(before.update(instance as int, before[instance as int]) =~= before);
    }
    let values = match decode_arguments(args, entry.nargs) {
        Ok(values) => values,
        Err(status) => {
            if entry.call != HostFunction::ErrorCode && entry.call != HostFunction::ErrorMessage {
                let refused = registry.registered_mut(instance).note(Err(status));
                return HostStep::Return(encode_result(refused));
            }
            return HostStep::Return(status.to_abi());
        },
    };
    match entry.call {
        HostFunction::Document => HostStep::FindDocument(DocumentCall { instance }),
        HostFunction::AddEventListener | HostFunction::RemoveEventListener => {
            let state = registry.registered_mut(instance);
            match state.object_arg(values[0]) {
                Ok(target) => HostStep::CheckEventTarget(
                    TargetCheck {
                        instance,
                        adding: entry.call == HostFunction::AddEventListener,
                        target,
                        args: values,
                    },
                ),
                Err(status) => HostStep::Return(encode_result(state.note(Err(status)))),
            }
        },
        HostFunction::Member => HostStep::CallMember(
            MemberCall { instance, entry: entry_index as usize, args: values },
        ),
        _ => {
            let result = run_own(
                registry.registered_mut(instance),
                memory,
                entry.call,
                values.as_slice(),
            );
            HostStep::Return(encode_result(result))
        },
    }
}

impl DocumentCall {
    /// Ends the call, given the global of the realm.
    pub fn answer(self, registry: &mut InstanceRegistry, global: RealmGlobal) -> (value: i32)
        requires
            old(registry).wf(),
            self.instance < old(registry)@.len(),
        ensures
            final(registry).wf(),
            value == returned(
                document_result(old(registry)@[self.instance as int], global),
            ),
            final(registry)@ == old(registry)@.update(
                self.instance as int,
                after_document(old(registry)@[self.instance as int], global),
            ),
    {
        let result = crate::host_functions::document(
            registry.registered_mut(self.instance),
            global,
        );
        encode_result(result)
    }
}

/// The step after the engine has told whether an object is an event target.
pub open spec fn after_target_check(
    instance: InstanceView,
    memory: BufferProperty,
    index: nat,
    adding: bool,
    target: ObjectId,
    is_event_target: bool,
    args: Seq<i32>,
) -> StepView {
    match request_of(instance, memory, target, is_event_target, args) {
        Err(status) => StepView::Return(status_code(status) as i32),
        Ok(request) => if adding {
            StepView::MakeListener { instance: index, request }
        } else {
            match instance.forgotten(
                request.target,
                request.callback_id,
                request.event_type,
                request.options.capture,
            ) {
                Some(listener) => StepView::RemoveListener { request, listener },
                None => StepView::Return(0),
            }
        },
    }
}

/// The instance after that step: a listener that is to be removed is taken back, and a failure is
/// recorded.
pub open spec fn instance_after_target_check(
    instance: InstanceView,
    memory: BufferProperty,
    adding: bool,
    target: ObjectId,
    is_event_target: bool,
    args: Seq<i32>,
) -> InstanceView {
    match request_of(instance, memory, target, is_event_target, args) {
        Err(status) => instance.noting(Err(status)),
        Ok(request) => if adding {
            instance
        } else {
            instance.after_forgetting(
                request.target,
                request.callback_id,
                request.event_type,
                request.options.capture,
            )
        },
    }
}

impl TargetCheck {
    /// Goes on with the call, given whether the object is an event target.
    pub fn answer(
        self,
        registry: &mut InstanceRegistry,
        memory: &BufferProperty,
        is_event_target: bool,
    ) -> (step: HostStep)
        requires
            old(registry).wf(),
            self.instance < old(registry)@.len(),
            self.args@.len() >= 5,
        ensures
            final(registry).wf(),
            step@ == after_target_check(
                old(registry)@[self.instance as int],
                *memory,
                self.instance as nat,
                self.adding,
                self.target,
                is_event_target,
                self.args@,
            ),
            final(registry)@ == old(registry)@.update(
                self.instance as int,
                instance_after_target_check(
                    old(registry)@[self.instance as int],
                    *memory,
                    self.adding,
                    self.target,
                    is_event_target,
                    self.args@,
                ),
            ),
    {
        let ghost before = registry@;
        let index: usize = self.instance;
        assert(before.update(index as int, before[index as int]) =~= before);
        let instance = registry.registered_mut(index);
        let request = match decode_request(
            instance,
            memory,
            self.target,
            is_event_target,
            self.args.as_slice(),
        ) {
            Ok(request) => request,
            Err(status) => return HostStep::Return(encode_result(instance.note(Err(status)))),
        };
        if self.adding {
            return HostStep::MakeListener(ListenerCall { instance: index, request });
        }
        match take_back_listener(instance, &request) {
            Some(listener) => HostStep::RemoveListener(RemoveCall { request, listener }),
            None => HostStep::Return(0),
        }
    }
}

impl ListenerCall {
    /// Goes on with the call, given the listener object if one could be made.
    pub fn answer(self, registry: &mut InstanceRegistry, listener: Option<ObjectId>) -> (step:
        HostStep)
        requires
            old(registry).wf(),
            self.instance < old(registry)@.len(),
        ensures
            final(registry).wf(),
            match listener {
                Some(listener) => {
                    &&& step@ == StepView::AddListener {
                        instance: self.instance as nat,
                        request: self.request@,
                        listener,
                    }
                    &&& final(registry)@ == old(registry)@
                },
                None => {
                    &&& step@ == StepView::Return(status_code(WasmAbiStatus::Operation) as i32)
                    &&& final(registry)@ == old(registry)@.update(
                        self.instance as int,
                        old(registry)@[self.instance as int].noting(
                            Err(WasmAbiStatus::Operation),
                        ),
                    )
                },
            },
    {
        match listener {
            Some(listener) => HostStep::AddListener(
                AddCall { instance: self.instance, request: self.request, listener },
            ),
            None => {
                let failed = registry.registered_mut(self.instance).note(
                    Err(WasmAbiStatus::Operation),
                );
                HostStep::Return(encode_result(failed))
            },
        }
    }
}

impl AddCall {
    /// Ends the call, once the event target has been given the listener.
    pub fn done(self, registry: &mut InstanceRegistry) -> (value: i32)
        requires
            old(registry).wf(),
            self.instance < old(registry)@.len(),
        ensures
            final(registry).wf(),
            value == 0,
            final(registry)@ == old(registry)@.update(
                self.instance as int,
                (InstanceView {
                    listeners: old(registry)@[self.instance as int].listeners.push(
                        registration_of(self.request@, self.listener),
                    ),
                    ..old(registry)@[self.instance as int]
                }),
            ),
    {
        record_listener(registry.registered_mut(self.instance), self.request, self.listener);
        0
    }
}

impl RemoveCall {
    /// Ends the call, once the listener has been taken from the event target.
    pub fn done(self) -> (value: i32)
        ensures
            value == 0,
    {
        0
    }
}

/// Why a member of the DOM did not do what it was called for.
pub enum MemberFailure {
    /// The operation of the DOM failed.
    Dom(Error),
    /// The call could not be decoded, or its result could not be encoded.
    Abi(WasmAbiStatus),
}

/// What a call of a member gives, by how the member ended.
pub open spec fn member_result(outcome: Result<i32, MemberFailure>) -> Result<i32, WasmAbiStatus> {
    match outcome {
        Ok(value) => Ok(value),
        Err(MemberFailure::Dom(error)) => Err(error_status(error)),
        Err(MemberFailure::Abi(status)) => Err(status),
    }
}

/// The instance after a call of a member: a failure is recorded, with the message of the error
/// behind it if there is one.
pub open spec fn after_member(
    instance: InstanceView,
    outcome: Result<i32, MemberFailure>,
) -> InstanceView {
    match outcome {
        Ok(_) => instance,
        Err(MemberFailure::Dom(error)) => instance.failed_with(error),
        Err(MemberFailure::Abi(status)) => instance.noting(Err(status)),
    }
}

impl MemberCall {
    /// Ends the call, given how the member ended.
    pub fn finish(
        self,
        registry: &mut InstanceRegistry,
        outcome: Result<i32, MemberFailure>,
    ) -> (value: i32)
        requires
            old(registry).wf(),
            self.instance < old(registry)@.len(),
        ensures
            final(registry).wf(),
            value == returned(member_result(outcome)),
            final(registry)@ == old(registry)@.update(
                self.instance as int,
                after_member(old(registry)@[self.instance as int], outcome),
            ),
    {
        let ghost before = registry@;
        assert(before.update(self.instance as int, before[self.instance as int]) =~= before);
        let instance = registry.registered_mut(self.instance);
        match outcome {
            Ok(value) => value,
            Err(MemberFailure::Dom(error)) => instance.fail(&error).to_abi(),
            Err(MemberFailure::Abi(status)) => encode_result(instance.note(Err(status))),
        }
    }
}

// ---------------------------------------------------------------------------------------
// Laws
// ---------------------------------------------------------------------------------------

/// The host traps in one place only: where the host function names no import.
pub proof fn only_a_corrupted_slot_traps(
    call: CallView,
    instances: Seq<InstanceView>,
    memory: BufferProperty,
    table: Seq<ImportView>,
)
    ensures
        call.first_step(instances, memory, table) is Trap <==> !(0 <= call.entry_index
            < table.len()),
{
}

/// A call that does not reach its import is told so by a status code. On an instance that is torn
/// down it changes nothing. On one that is not, all it leaves is the record of its failure, which
/// a refused `error-message` does not leave either.
pub proof fn a_refused_call_does_nothing(
    call: CallView,
    instances: Seq<InstanceView>,
    memory: BufferProperty,
    table: Seq<ImportView>,
)
    requires
        !call.reaches_its_import(instances, table),
        0 <= call.entry_index < table.len(),
    ensures
        call.first_step(instances, memory, table) == StepView::Return(
            status_code(
                if is_live(instances, call.instance_index as int) {
                    WasmAbiStatus::Type
                } else {
                    WasmAbiStatus::InstanceTornDown
                },
            ) as i32,
        ),
        call.instances_after(instances, memory, table) == (if is_live(
            instances,
            call.instance_index as int,
        ) && is_recorded(table[call.entry_index as int].call) {
            instances.update(
                call.instance_index as int,
                instances[call.instance_index as int].noting(Err(WasmAbiStatus::Type)),
            )
        } else {
            instances
        }),
        call.attached_after(instances, memory, table) == memory.attached(),
{
    assert(is_live(instances, call.instance_index as int) ==> instances.update(
        call.instance_index as int,
        instances[call.instance_index as int],
    ) =~= instances);
}

/// A call that does not touch the memory of the module is the same whatever that holds, and leaves
/// it as it is.
pub proof fn an_untouched_memory_makes_no_difference(
    call: CallView,
    instances: Seq<InstanceView>,
    table: Seq<ImportView>,
    memory: BufferProperty,
    other: BufferProperty,
)
    requires
        !call.touches_memory(instances, table),
    ensures
        call.first_step(instances, memory, table) == call.first_step(instances, other, table),
        call.instances_after(instances, memory, table) == call.instances_after(
            instances,
            other,
            table,
        ),
        call.attached_after(instances, memory, table) == memory.attached(),
{
}

/// A call concerns its own instance only: every other one is left as it is.
pub proof fn a_call_concerns_its_own_instance(
    call: CallView,
    instances: Seq<InstanceView>,
    memory: BufferProperty,
    table: Seq<ImportView>,
    other: int,
)
    requires
        0 <= other < instances.len(),
        other != call.instance_index,
    ensures
        call.instances_after(instances, memory, table).len() == instances.len(),
        call.instances_after(instances, memory, table)[other] == instances[other],
{
}

/// The module can tell a success from a failure by the sign of what it gets: zero or more is a
/// success, and minus two or less is a failure. The code of an earlier failure, which
/// `error-code` gives as its value, is the one exception.
pub proof fn the_sign_tells_success_from_failure(
    instance: InstanceView,
    memory: BufferProperty,
    call: HostFunction,
    args: Seq<i32>,
)
    requires
        instance.handles.wf(),
        own_arity(call) is Some,
        call != HostFunction::ErrorCode,
    ensures
        own_result(instance, memory, call, args) is Ok <==> returned(
            own_result(instance, memory, call, args),
        ) >= 0,
        own_result(instance, memory, call, args) is Err <==> returned(
            own_result(instance, memory, call, args),
        ) <= -2,
{
    crate::handle_laws::live_handles_are_counted(instance.handles);
}

/// The same holds of `document`: a handle is positive, and a failure is minus two or less.
pub proof fn the_sign_tells_how_document_ended(instance: InstanceView, global: RealmGlobal)
    requires
        instance.handles.wf(),
    ensures
        document_result(instance, global) is Ok <==> returned(document_result(instance, global))
            > 0,
        document_result(instance, global) is Err <==> returned(document_result(instance, global))
            <= -2,
{
    if instance.handles.can_insert() {
        crate::handle_laws::inserting_mints_a_fresh_handle(instance.handles, None);
    }
}

/// The same holds of the calls that add and remove listeners. One that is answered before the
/// engine is asked has failed.
pub proof fn a_listener_call_ends_early_only_if_it_fails(
    call: CallView,
    instances: Seq<InstanceView>,
    memory: BufferProperty,
    table: Seq<ImportView>,
)
    requires
        call.entry(table) matches Some(entry) && (entry.call == HostFunction::AddEventListener
            || entry.call == HostFunction::RemoveEventListener),
    ensures
        call.first_step(instances, memory, table) matches StepView::Return(value) ==> value <= -2,
{
}

/// Once the engine has told whether the object is an event target, such a call is answered with
/// minus two or less if the request is refused, and with zero if there is nothing to remove. In
/// all other cases it goes on, to end in zero, or in minus two or less if no listener can be made.
pub proof fn the_sign_tells_how_a_listener_call_ended(
    instance: InstanceView,
    memory: BufferProperty,
    index: nat,
    adding: bool,
    target: ObjectId,
    is_event_target: bool,
    args: Seq<i32>,
)
    ensures
        ({
            let request = request_of(instance, memory, target, is_event_target, args);
            let step = after_target_check(
                instance,
                memory,
                index,
                adding,
                target,
                is_event_target,
                args,
            );
            &&& request is Err <==> (step matches StepView::Return(value) && value <= -2)
            &&& request is Ok ==> (step matches StepView::Return(value) ==> value == 0 && !adding)
        }),
        status_code(WasmAbiStatus::Operation) <= -2,
{
}

/// A listener that is added and then removed is the same object both times: the event target is
/// asked to take back the very listener that it was given, and the instance is as it was before.
/// The target, the event, the handler and the phase have to agree; what is registered with other
/// targets makes no difference.
pub proof fn a_removed_listener_is_the_one_that_was_added(
    before: InstanceView,
    added: RequestView,
    listener: ObjectId,
    memory: BufferProperty,
    index: nat,
    target: ObjectId,
    args: Seq<i32>,
    removed: RequestView,
)
    requires
        forall|i: int|
            0 <= i < before.listeners.len() ==> !(#[trigger] before.listeners[i]).matches_key(
                added.target,
                added.callback_id,
                added.event_type,
                added.options.capture,
            ),
        request_of(before, memory, target, true, args) == Ok::<RequestView, WasmAbiStatus>(
            removed,
        ),
        removed.target == added.target,
        removed.callback_id == added.callback_id,
        removed.event_type == added.event_type,
        removed.options.capture == added.options.capture,
    ensures
        ({
            let registered = InstanceView {
                listeners: before.listeners.push(registration_of(added, listener)),
                ..before
            };
            &&& after_target_check(registered, memory, index, false, target, true, args)
                == StepView::RemoveListener { request: removed, listener }
            &&& instance_after_target_check(registered, memory, false, target, true, args)
                == before
        }),
{
    crate::instance::removal_hands_back_the_registered_listener(
        before,
        registration_of(added, listener),
    );
}

/// A call that touches the memory depends on it: without its buffer the call is refused, and the
/// module is told that the memory is detached.
pub proof fn a_touched_memory_is_needed(
    call: CallView,
    instances: Seq<InstanceView>,
    table: Seq<ImportView>,
)
    requires
        call.touches_memory(instances, table),
    ensures
        call.first_step(instances, BufferProperty::Unreadable, table) == StepView::Return(
            status_code(WasmAbiStatus::MemoryDetached) as i32,
        ),
{
}

} // verus!
