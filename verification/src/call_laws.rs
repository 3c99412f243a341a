//! What each import of the runtime does, by its name, as a module sees it.

use vstd::prelude::*;
use vstd::utf8::encode_utf8;

use crate::bridge::{
    after_member, after_target_check, instance_after_target_check, integer_of, integers_of,
    member_result, returned, ArgValue, CallView, HostStep, MemberFailure, StepView,
};
use crate::ctx::object_argument;
use crate::event_target::{request_of, RequestView};
use crate::handle_laws::{
    live_handles_are_counted, operations_keep_the_table, releasing_many_ends_their_handles,
};
use crate::handle_model::TableOp;
use crate::handles::{ObjectId, Reflector};
use crate::host_functions::{after_document, document_result, RealmGlobal};
use crate::imports::{
    core_import_names_are_distinct, core_table, import_table, HostFunction, ImportView,
    MemberImport,
};
use crate::instance::{lemma_first_match, InstanceView};
use crate::memory::{stands_in, BufferProperty};
use crate::scope_laws::closing_a_scope_leaves_nothing_behind;
use crate::wasm_abi::{error_text, status_code, WasmAbiStatus, WasmHandle};

verus! {

// ---------------------------------------------------------------------------------------
// Arguments
// ---------------------------------------------------------------------------------------

/// Integers are taken as they are and in their order, and arguments beyond those that count are
/// ignored. A call is refused if there are too few of them, or more than eight are declared.
pub proof fn integers_are_taken_as_they_are(args: Seq<ArgValue>, ints: Seq<i32>)
    requires
        forall|i: int|
            0 <= i < ints.len() && i < args.len() ==> #[trigger] args[i] == ArgValue::Int32(
                ints[i],
            ),
    ensures
        integers_of(args, ints.len()) == (if ints.len() <= 8 && ints.len() <= args.len() {
            Ok::<Seq<i32>, WasmAbiStatus>(ints)
        } else {
            Err(WasmAbiStatus::Type)
        }),
{
    if ints.len() <= 8 && ints.len() <= args.len() {
        assert(Seq::new(ints.len(), |i: int| integer_of(args[i])->Ok_0) =~= ints);
    }
}

/// One argument that is no number refuses the whole call.
pub proof fn an_argument_that_is_no_number_is_refused(args: Seq<ArgValue>, nargs: nat, index: int)
    requires
        0 <= index < nargs,
        index < args.len() ==> (args[index] is Undefined || args[index] is Other),
    ensures
        integers_of(args, nargs) == Err::<Seq<i32>, WasmAbiStatus>(WasmAbiStatus::Type),
{
    if nargs <= args.len() {
        assert(integer_of(args[index]) is Err);
    }
}

/// A double is rounded toward zero and brought into range. The fields of the double are its sign,
/// eleven bits of exponent and fifty-two bits of fraction; one that is infinite or not a number
/// is refused, one below one is zero, and one from two to the thirty-first on is the largest or
/// the smallest integer.
pub proof fn a_double_is_rounded_toward_zero(bits: u64)
    ensures
        ({
            let negative = bits >= 0x8000_0000_0000_0000;
            let exponent = (bits as int / 0x10_0000_0000_0000) % 0x800;
            let significand = 0x10_0000_0000_0000 + bits as int % 0x10_0000_0000_0000;
            let unit = vstd::arithmetic::power2::pow2((1075 - exponent) as nat);
            if exponent == 0x7FF {
                integer_of(ArgValue::Double(bits)) == Err::<i32, WasmAbiStatus>(
                    WasmAbiStatus::Type,
                )
            } else {
                integer_of(ArgValue::Double(bits)) matches Ok(value) && {
                    if exponent < 1023 {
                        value == 0
                    } else if exponent >= 1054 {
                        value == (if negative {
                            i32::MIN
                        } else {
                            i32::MAX
                        })
                    } else if negative {
                        value <= 0 && -value * unit <= significand < (1 - value) * unit
                    } else {
                        value >= 0 && value * unit <= significand < (value + 1) * unit
                    }
                }
            }
        }),
{
    let exponent = (bits as int / 0x10_0000_0000_0000) % 0x800;
    let significand = 0x10_0000_0000_0000 + bits as int % 0x10_0000_0000_0000;
    if 1023 <= exponent < 1054 {
        let shift = (1075 - exponent) as nat;
        let unit = vstd::arithmetic::power2::pow2(shift) as int;
        let whole = significand / unit;
        vstd::arithmetic::power2::lemma_pow2_pos(shift);
        if shift > 22 {
            vstd::arithmetic::power2::lemma_pow2_strictly_increases(22, shift);
        }
        vstd::arithmetic::power2::lemma2_to64();
        vstd::arithmetic::div_mod::lemma_fundamental_div_mod(significand, unit);
        assert(whole * unit <= significand < (whole + 1) * unit) by (nonlinear_arith)
            requires
                significand == unit * whole + significand % unit,
                0 <= significand % unit < unit,
        ;
        assert(0 <= whole < 0x8000_0000) by (nonlinear_arith)
            requires
                whole * unit <= significand < (whole + 1) * unit,
                0 <= significand < 0x20_0000_0000_0000,
                unit >= 0x40_0000,
        ;
        assert(-(-whole) * unit == whole * unit);
        assert((1 - (-whole)) * unit == (whole + 1) * unit);
    }
}

// ---------------------------------------------------------------------------------------
// Calls by name
// ---------------------------------------------------------------------------------------

/// Whether a call is made on an instance that is not torn down, of the import of the runtime with
/// a name, and with integers for arguments.
pub open spec fn is_call_of(
    call: CallView,
    instances: Seq<InstanceView>,
    members: Seq<MemberImport>,
    name: Seq<char>,
    ints: Seq<i32>,
) -> bool {
    &&& 0 <= call.instance_index < instances.len()
    &&& !instances[call.instance_index as int].torn_down
    &&& 0 <= call.entry_index < 12
    &&& import_table(members)[call.entry_index as int].name == name
    &&& call.args.len() == ints.len()
    &&& forall|i: int| 0 <= i < ints.len() ==> #[trigger] call.args[i] == ArgValue::Int32(ints[i])
}

/// Whether a call is over and gives a value.
pub open spec fn answers(step: StepView, value: int) -> bool {
    step matches StepView::Return(given) && given == value
}

/// Such a call reaches the import of that name with those integers.
proof fn lemma_call(
    call: CallView,
    instances: Seq<InstanceView>,
    members: Seq<MemberImport>,
    ints: Seq<i32>,
    place: int,
)
    requires
        0 <= place < 12,
        is_call_of(call, instances, members, core_table()[place].name, ints),
        ints.len() == core_table()[place].nargs,
    ensures
        call.entry_index == place,
        call.entry(import_table(members)) == Some(core_table()[place]),
        call.integers(import_table(members)) == Ok::<Seq<i32>, WasmAbiStatus>(ints),
        call.reaches_its_import(instances, import_table(members)),
{
    let table = import_table(members);
    assert(table[call.entry_index as int] == core_table()[call.entry_index as int]);
    core_import_names_are_distinct(call.entry_index as int, place);
    integers_are_taken_as_they_are(call.args, ints);
}

/// `abi-version` gives the version of the ABI, which is zero, and changes nothing.
pub proof fn abi_version_gives_the_version(
    call: CallView,
    instances: Seq<InstanceView>,
    memory: BufferProperty,
    members: Seq<MemberImport>,
)
    requires
        is_call_of(call, instances, members, "abi-version"@, seq![]),
    ensures
        call.first_step(instances, memory, import_table(members)) == StepView::Return(0),
        call.instances_after(instances, memory, import_table(members)) == instances,
{
    lemma_call(call, instances, members, seq![], 0);
    assert(call.instances_after(instances, memory, import_table(members)) =~= instances);
}

/// `document` asks for the document on behalf of the instance that called, and changes nothing
/// before it is there.
pub proof fn document_is_asked_for_on_behalf_of_the_caller(
    call: CallView,
    instances: Seq<InstanceView>,
    memory: BufferProperty,
    members: Seq<MemberImport>,
)
    requires
        is_call_of(call, instances, members, "document"@, seq![]),
    ensures
        call.first_step(instances, memory, import_table(members)) matches StepView::FindDocument {
            instance,
        } && instance == call.instance_index,
        call.instances_after(instances, memory, import_table(members)) == instances,
{
    lemma_call(call, instances, members, seq![], 1);
    assert(call.instances_after(instances, memory, import_table(members)) =~= instances);
}

/// In a window, `document` gives a new handle that names the document of the window, and all other
/// handles name what they named. Elsewhere there is no document, and the module is told so. If
/// there is no room, nothing is minted.
pub proof fn document_names_the_document(instance: InstanceView, global: RealmGlobal)
    requires
        instance.handles.wf(),
    ensures
        ({
            let after = after_document(instance, global);
            let value = returned(document_result(instance, global));
            &&& after == (InstanceView {
                handles: after.handles,
                pending_error: after.pending_error,
                ..instance
            })
            &&& match global {
                RealmGlobal::Window { document } => if value >= 0 {
                    &&& value > 0
                    &&& !instance.handles.spent(value as u32)
                    &&& after.handles.lookup(value as u32) == Ok::<Reflector, WasmAbiStatus>(
                        document,
                    )
                    &&& after.handles.live() == instance.handles.live().insert(
                        value as u32,
                        document,
                    )
                    &&& after.pending_error == instance.pending_error
                } else {
                    &&& value == -107
                    &&& instance.handles.live().dom().len() == instance.handles.max_handles
                        || instance.handles.slots.len() >= 0x10_0000
                    &&& after.handles == instance.handles
                    &&& after.error_code() == -107
                },
                RealmGlobal::Other => {
                    &&& value == -7
                    &&& after.handles == instance.handles
                    &&& after.error_code() == -7
                },
            }
        }),
{
    if let RealmGlobal::Window { document } = global {
        crate::ctx::a_returned_object_is_named_by_its_handle(instance, document);
    }
}

/// `handle-drop` releases the handle that it is given and no other one, if that is live. Anything
/// else is refused and releases nothing; the null handle, a handle that never existed and one
/// that is released already are told apart.
pub proof fn handle_drop_releases_its_handle(
    call: CallView,
    instances: Seq<InstanceView>,
    memory: BufferProperty,
    members: Seq<MemberImport>,
    raw: i32,
)
    requires
        is_call_of(call, instances, members, "handle-drop"@, seq![raw]),
        instances[call.instance_index as int].handles.wf(),
    ensures
        ({
            let before = instances[call.instance_index as int];
            let step = call.first_step(instances, memory, import_table(members));
            let after = call.instances_after(
                instances,
                memory,
                import_table(members),
            )[call.instance_index as int];
            let live = before.handles.live();
            &&& after.handles.depth() == before.handles.depth()
            &&& if raw > 0 && live.dom().contains(raw as u32) {
                &&& answers(step, 0)
                &&& after == (InstanceView { handles: after.handles, ..before })
                &&& after.handles.live() == live.remove(raw as u32)
                &&& after.handles.lookup(raw as u32) == Err::<Reflector, WasmAbiStatus>(
                    WasmAbiStatus::StaleHandle,
                )
            } else {
                let code = if raw < 0 {
                    -101int
                } else if raw == 0 {
                    -100int
                } else if before.handles.spent(raw as u32) {
                    -102int
                } else {
                    -101int
                };
                &&& answers(step, code)
                &&& after == (InstanceView { pending_error: after.pending_error, ..before })
                &&& after.error_code() == code
            }
        }),
{
    let before = instances[call.instance_index as int];
    lemma_call(call, instances, members, seq![raw], 2);
    if raw > 0 && before.handles.is_live(raw as u32) {
        crate::handle_laws::a_released_handle_is_stale(before.handles, raw as u32);
    }
}

/// `handle-eq` gives one exactly if both handles name an object, and the same one, and zero
/// otherwise. It changes nothing; only a negative integer is refused.
pub proof fn handle_eq_compares_objects(
    call: CallView,
    instances: Seq<InstanceView>,
    memory: BufferProperty,
    members: Seq<MemberImport>,
    left: i32,
    right: i32,
)
    requires
        is_call_of(call, instances, members, "handle-eq"@, seq![left, right]),
    ensures
        ({
            let before = instances[call.instance_index as int];
            let step = call.first_step(instances, memory, import_table(members));
            let after = call.instances_after(
                instances,
                memory,
                import_table(members),
            )[call.instance_index as int];
            let live = before.handles.live();
            let names = |raw: i32, object: ObjectId|
                raw > 0 && live.dom().contains(raw as u32) && live[raw as u32] == Some(object);
            if left < 0 || right < 0 {
                &&& answers(step, -101)
                &&& after == (InstanceView { pending_error: after.pending_error, ..before })
            } else {
                &&& answers(step, 1) <==> exists|object: ObjectId|
                    #[trigger] names(left, object) && names(right, object)
                &&& answers(step, 0) <==> !exists|object: ObjectId|
                    #[trigger] names(left, object) && names(right, object)
                &&& after == before
            }
        }),
{
    let before = instances[call.instance_index as int];
    let live = before.handles.live();
    lemma_call(call, instances, members, seq![left, right], 3);
    let names = |raw: i32, object: ObjectId|
        raw > 0 && live.dom().contains(raw as u32) && live[raw as u32] == Some(object);
    if left >= 0 && right >= 0 {
        if let Ok(object) = crate::handles::resolved(before.handles, left as u32) {
            assert(names(left, object));
        }
    }
}

/// `handle-scope-enter` opens a scope inside all others: it gives the number of scopes that are
/// then open, and no handle is minted or released.
pub proof fn handle_scope_enter_opens_a_scope(
    call: CallView,
    instances: Seq<InstanceView>,
    memory: BufferProperty,
    members: Seq<MemberImport>,
)
    requires
        is_call_of(call, instances, members, "handle-scope-enter"@, seq![]),
        instances[call.instance_index as int].handles.depth() < i32::MAX,
    ensures
        ({
            let before = instances[call.instance_index as int];
            let after = call.instances_after(
                instances,
                memory,
                import_table(members),
            )[call.instance_index as int];
            &&& call.first_step(
                instances,
                memory,
                import_table(members),
            ) matches StepView::Return(token) && token == before.handles.depth() + 1
            &&& after.handles.depth() == before.handles.depth() + 1
            &&& after.handles.live() == before.handles.live()
            &&& after == (InstanceView { handles: after.handles, ..before })
        }),
{
    let before = instances[call.instance_index as int];
    lemma_call(call, instances, members, seq![], 4);
    assert(before.handles.entered().live() =~= before.handles.live());
}

/// `handle-scope-exit` takes the number of open scopes and then closes the innermost one: there is
/// one less, and what is live afterwards was live before and names what it named. Any other
/// integer is refused and closes nothing.
pub proof fn handle_scope_exit_closes_the_innermost_scope(
    call: CallView,
    instances: Seq<InstanceView>,
    memory: BufferProperty,
    members: Seq<MemberImport>,
    token: i32,
)
    requires
        is_call_of(call, instances, members, "handle-scope-exit"@, seq![token]),
        instances[call.instance_index as int].handles.wf(),
    ensures
        ({
            let before = instances[call.instance_index as int];
            let step = call.first_step(instances, memory, import_table(members));
            let after = call.instances_after(
                instances,
                memory,
                import_table(members),
            )[call.instance_index as int];
            if token > 0 && token == before.handles.depth() {
                &&& answers(step, 0)
                &&& after.handles.depth() == before.handles.depth() - 1
                &&& after.handles == before.handles.apply(TableOp::ExitScope(token as u32))
                &&& after.handles.live().submap_of(before.handles.live())
                &&& after == (InstanceView { handles: after.handles, ..before })
            } else {
                &&& answers(step, -112)
                &&& after == (InstanceView { pending_error: after.pending_error, ..before })
                &&& after.error_code() == -112
            }
        }),
{
    let before = instances[call.instance_index as int];
    lemma_call(call, instances, members, seq![token], 5);
    if token > 0 && token == before.handles.depth() {
        let table = before.handles;
        releasing_many_ends_their_handles(table, table.innermost());
        let released = table.all_released(table.innermost());
        let after = table.exited();
        assert forall|handle: WasmHandle| #[trigger]
            after.live().dom().contains(handle) implies table.live().dom().contains(handle)
            && after.live()[handle] == table.live()[handle] by {
            assert(released.is_live(handle));
        }
    }
}

/// A scope releases everything that is minted in it: whatever is done with the handles between a
/// `handle-scope-enter` and the `handle-scope-exit` with its token, as long as the scopes opened
/// in between are closed, no handle minted in between is live afterwards, and those of before are
/// as they were unless they were released themselves.
pub proof fn a_scope_releases_what_is_minted_in_it(
    enter: CallView,
    exit: CallView,
    before: Seq<InstanceView>,
    inside: Seq<InstanceView>,
    ops: Seq<TableOp<Reflector>>,
    memory: BufferProperty,
    later_memory: BufferProperty,
    members: Seq<MemberImport>,
    token: i32,
)
    requires
        is_call_of(enter, before, members, "handle-scope-enter"@, seq![]),
        before[enter.instance_index as int].handles.wf(),
        enter.first_step(before, memory, import_table(members)) == StepView::Return(token),
        token > 0,
        is_call_of(exit, inside, members, "handle-scope-exit"@, seq![token]),
        exit.instance_index == enter.instance_index,
        ({
            let opened = enter.instances_after(
                before,
                memory,
                import_table(members),
            )[enter.instance_index as int].handles;
            let end = inside[exit.instance_index as int].handles;
            &&& opened.stays_inside(ops, opened.depth())
            &&& end == opened.run(ops)
            &&& end.depth() == opened.depth()
        }),
    ensures
        exit.first_step(inside, later_memory, import_table(members)) == StepView::Return(0),
        ({
            let start = before[enter.instance_index as int].handles;
            let end = inside[exit.instance_index as int].handles;
            let after = exit.instances_after(
                inside,
                later_memory,
                import_table(members),
            )[exit.instance_index as int].handles;
            &&& after.depth() == start.depth()
            &&& forall|handle: WasmHandle|
                after.live().dom().contains(handle) <==> start.live().dom().contains(handle)
                    && end.live().dom().contains(handle)
            &&& forall|handle: WasmHandle| #[trigger]
                after.live().dom().contains(handle) ==> after.live()[handle]
                    == start.live()[handle]
        }),
{
    let start = before[enter.instance_index as int].handles;
    lemma_call(enter, before, members, seq![], 4);
    lemma_call(exit, inside, members, seq![token], 5);
    operations_keep_the_table(start, TableOp::EnterScope);
    closing_a_scope_leaves_nothing_behind(start, ops);
}

/// `handle-count` gives the number of live handles and changes nothing.
pub proof fn handle_count_counts_the_live_handles(
    call: CallView,
    instances: Seq<InstanceView>,
    memory: BufferProperty,
    members: Seq<MemberImport>,
)
    requires
        is_call_of(call, instances, members, "handle-count"@, seq![]),
        instances[call.instance_index as int].handles.wf(),
    ensures
        call.first_step(instances, memory, import_table(members)) matches StepView::Return(count)
            && count == instances[call.instance_index as int].handles.live().dom().len(),
        call.instances_after(instances, memory, import_table(members)) == instances,
{
    lemma_call(call, instances, members, seq![], 6);
    live_handles_are_counted(instances[call.instance_index as int].handles);
    assert(call.instances_after(instances, memory, import_table(members)) =~= instances);
}

/// `string-read` delivers the string that was kept, once: if the buffer has room for it and lies
/// in the memory, exactly its bytes are written there, the module is told how many, and nothing
/// is kept any more. If not, the module is told why and the string is still kept. That nothing is
/// kept is no failure.
pub proof fn string_read_delivers_the_kept_string(
    call: CallView,
    instances: Seq<InstanceView>,
    memory: BufferProperty,
    members: Seq<MemberImport>,
    ptr: i32,
    cap: i32,
)
    requires
        is_call_of(call, instances, members, "string-read"@, seq![ptr, cap]),
    ensures
        ({
            let before = instances[call.instance_index as int];
            let step = call.first_step(instances, memory, import_table(members));
            let after = call.instances_after(
                instances,
                memory,
                import_table(members),
            )[call.instance_index as int];
            let held = call.attached_after(instances, memory, import_table(members));
            match before.pending_string {
                None => answers(step, 0) && after == before && held
                    == memory.attached(),
                Some(bytes) => match refusal(before, memory, bytes, ptr, cap) {
                    Some(code) => {
                        &&& answers(step, code)
                        &&& after == (InstanceView { pending_error: after.pending_error, ..before })
                        &&& after.error_code() == code
                        &&& held == memory.attached()
                    },
                    None => {
                        &&& step matches StepView::Return(len) && len == bytes.len()
                        &&& after == (InstanceView { pending_string: None, ..before })
                        &&& held matches Some(now) && stands_in(
                            memory.attached()->0,
                            now,
                            ptr as int,
                            bytes,
                        )
                    },
                },
            }
        }),
{
    lemma_call(call, instances, members, seq![ptr, cap], 7);
}

/// The code that a delivery is refused with, if it is: a buffer that is too small, a memory that
/// is not there, and a buffer that does not lie in the memory.
pub open spec fn refusal(
    instance: InstanceView,
    memory: BufferProperty,
    bytes: Seq<u8>,
    ptr: i32,
    cap: i32,
) -> Option<int> {
    if cap < 0 || bytes.len() > cap {
        Some(-104int)
    } else if instance.memory is None || memory.attached() is None {
        Some(-108int)
    } else if ptr < 0 || ptr + bytes.len() > memory.attached()->0.len() {
        Some(-104int)
    } else {
        None
    }
}

/// `error-code` gives the code of the recorded failure, or zero, and changes nothing.
pub proof fn error_code_gives_the_recorded_code(
    call: CallView,
    instances: Seq<InstanceView>,
    memory: BufferProperty,
    members: Seq<MemberImport>,
)
    requires
        is_call_of(call, instances, members, "error-code"@, seq![]),
    ensures
        call.first_step(instances, memory, import_table(members)) == StepView::Return(
            match instances[call.instance_index as int].pending_error {
                Some((code, _)) => code,
                None => 0,
            },
        ),
        call.instances_after(instances, memory, import_table(members)) == instances,
{
    lemma_call(call, instances, members, seq![], 8);
    assert(call.instances_after(instances, memory, import_table(members)) =~= instances);
}

/// `error-message` delivers the message of the recorded failure, encoded as UTF-8, in the way of
/// `string-read`, and with it the failure is gone. One that cannot be delivered changes nothing.
pub proof fn error_message_delivers_the_recorded_message(
    call: CallView,
    instances: Seq<InstanceView>,
    memory: BufferProperty,
    members: Seq<MemberImport>,
    ptr: i32,
    cap: i32,
)
    requires
        is_call_of(call, instances, members, "error-message"@, seq![ptr, cap]),
    ensures
        ({
            let before = instances[call.instance_index as int];
            let step = call.first_step(instances, memory, import_table(members));
            let after = call.instances_after(
                instances,
                memory,
                import_table(members),
            )[call.instance_index as int];
            let held = call.attached_after(instances, memory, import_table(members));
            match before.pending_error {
                None => answers(step, 0) && after == before && held
                    == memory.attached(),
                Some((_, message)) => match refusal(
                    before,
                    memory,
                    encode_utf8(message),
                    ptr,
                    cap,
                ) {
                    Some(code) => {
                        &&& answers(step, code)
                        &&& after == before
                        &&& held == memory.attached()
                    },
                    None => {
                        &&& step matches StepView::Return(len) && len == encode_utf8(message).len()
                        &&& after == (InstanceView { pending_error: None, ..before })
                        &&& held matches Some(now) && stands_in(
                            memory.attached()->0,
                            now,
                            ptr as int,
                            encode_utf8(message),
                        )
                    },
                },
            }
        }),
{
    lemma_call(call, instances, members, seq![ptr, cap], 9);
}

/// The calls that add and remove a listener look up the object that their first argument names,
/// and have it checked on behalf of the instance that called, with all the arguments they were
/// given. Which of the two it is, is kept. If the argument names no object, the module is told
/// why.
pub proof fn a_listener_call_is_about_the_object_it_names(
    call: CallView,
    instances: Seq<InstanceView>,
    memory: BufferProperty,
    members: Seq<MemberImport>,
    ints: Seq<i32>,
    adds: bool,
)
    requires
        ints.len() == 5,
        is_call_of(
            call,
            instances,
            members,
            if adds {
                "add-event-listener"@
            } else {
                "remove-event-listener"@
            },
            ints,
        ),
    ensures
        ({
            let before = instances[call.instance_index as int];
            let step = call.first_step(instances, memory, import_table(members));
            let after = call.instances_after(
                instances,
                memory,
                import_table(members),
            )[call.instance_index as int];
            let live = before.handles.live();
            if ints[0] > 0 && live.dom().contains(ints[0] as u32) && live[ints[0] as u32] is Some {
                &&& step matches StepView::CheckEventTarget { instance, adding, target, args }
                    && instance == call.instance_index && adding == adds && args == ints
                    && live[ints[0] as u32] == Some(target)
                &&& after == before
            } else {
                let code = if ints[0] < 0 {
                    -101int
                } else if ints[0] == 0 {
                    -100int
                } else if before.handles.spent(ints[0] as u32) {
                    -102int
                } else {
                    -101int
                };
                &&& answers(step, code)
                &&& after == (InstanceView { pending_error: after.pending_error, ..before })
                &&& after.error_code() == code
            }
        }),
{
    let before = instances[call.instance_index as int];
    lemma_call(
        call,
        instances,
        members,
        ints,
        if adds {
            10
        } else {
            11
        },
    );
    if let Ok(object) = object_argument(before, ints[0]) {
        crate::ctx::a_handle_argument_names_its_object(before, ints[0], object);
    } else {
        crate::ctx::a_handle_argument_names_its_object(before, ints[0], 0);
        if before.handles.live().dom().contains(ints[0] as u32) {
            if let Some(object) = before.handles.live()[ints[0] as u32] {
                crate::ctx::a_handle_argument_names_its_object(before, ints[0], object);
            }
        }
    }
}

/// A call of a member of the DOM is handed on for the instance that called, with the place of the
/// member in the table and with the arguments that the member takes, and changes nothing before.
pub proof fn a_member_is_called_on_behalf_of_the_caller(
    call: CallView,
    instances: Seq<InstanceView>,
    memory: BufferProperty,
    members: Seq<MemberImport>,
    member: int,
    ints: Seq<i32>,
)
    requires
        0 <= member < members.len(),
        0 <= call.instance_index < instances.len(),
        !instances[call.instance_index as int].torn_down,
        call.entry_index == 12 + member,
        ints.len() == members[member].nargs,
        ints.len() <= 8,
        ints.len() <= call.args.len(),
        forall|i: int|
            0 <= i < ints.len() ==> #[trigger] call.args[i] == ArgValue::Int32(ints[i]),
    ensures
        call.first_step(instances, memory, import_table(members)) matches StepView::CallMember {
            instance,
            entry,
            args,
        } && instance == call.instance_index && entry == 12 + member && args == ints,
        call.instances_after(instances, memory, import_table(members)) == instances,
{
    let table = import_table(members);
    assert(core_table().len() == 12);
    assert(table[call.entry_index as int] == members[member]@);
    integers_are_taken_as_they_are(call.args, ints);
    assert(call.instances_after(instances, memory, table) =~= instances);
}

// ---------------------------------------------------------------------------------------
// What the engine is asked for
// ---------------------------------------------------------------------------------------

/// Once the engine has told whether the object is an event target, a listener is made for a
/// request to add one, on behalf of the instance that called. A request to remove one takes back
/// the oldest listener that was registered with the same target, event, handler and phase, and
/// leaves all others in their order; if there is none, that is no failure. A request that is
/// refused is answered with its status, and only that is recorded.
pub proof fn a_listener_request_is_carried_out(
    instance: InstanceView,
    memory: BufferProperty,
    index: nat,
    adding: bool,
    target: ObjectId,
    is_event_target: bool,
    args: Seq<i32>,
)
    ensures
        ({
            let step = after_target_check(
                instance,
                memory,
                index,
                adding,
                target,
                is_event_target,
                args,
            );
            let after = instance_after_target_check(
                instance,
                memory,
                adding,
                target,
                is_event_target,
                args,
            );
            match request_of(instance, memory, target, is_event_target, args) {
                Err(status) => {
                    &&& step matches StepView::Return(code) && code == status_code(status)
                        && after.error_code() == code
                    &&& after == (InstanceView { pending_error: after.pending_error, ..instance })
                },
                Ok(request) => if adding {
                    &&& step == StepView::MakeListener { instance: index, request }
                    &&& after == instance
                } else {
                    match step {
                        StepView::RemoveListener { request: removed, listener } => {
                            &&& removed == request
                            &&& exists|place: int|
                                #![trigger instance.listeners[place]]
                                {
                                    &&& is_oldest(instance, request, place)
                                    &&& instance.listeners[place].listener == listener
                                    &&& after == (InstanceView {
                                        listeners: instance.listeners.remove(place),
                                        ..instance
                                    })
                                }
                        },
                        _ => {
                            &&& answers(step, 0)
                            &&& after == instance
                            &&& forall|i: int|
                                0 <= i < instance.listeners.len() ==> !is_for(
                                    #[trigger] instance.listeners[i],
                                    request,
                                )
                        },
                    }
                },
            }
        }),
{
    if let Ok(request) = request_of(instance, memory, target, is_event_target, args) {
        let place = crate::instance::first_match(
            instance.listeners,
            request.target,
            request.callback_id,
            request.event_type,
            request.options.capture,
        );
        lemma_first_match(
            instance.listeners,
            request.target,
            request.callback_id,
            request.event_type,
            request.options.capture,
        );
        if place < instance.listeners.len() {
            assert(is_oldest(instance, request, place as int));
        } else {
            assert forall|i: int| 0 <= i < instance.listeners.len() implies !is_for(
                #[trigger] instance.listeners[i],
                request,
            ) by {
                assert(!instance.listeners[i].matches_key(
                    request.target,
                    request.callback_id,
                    request.event_type,
                    request.options.capture,
                ));
            }
        }
    }
}

/// Whether a registered listener is one that a request is about.
pub open spec fn is_for(entry: crate::instance::ListenerView, request: RequestView) -> bool {
    &&& entry.target == request.target
    &&& entry.callback_id == request.callback_id
    &&& entry.event_type == request.event_type
    &&& entry.capture == request.options.capture
}

/// Whether the oldest of the listeners that a request is about stands at a place.
pub open spec fn is_oldest(instance: InstanceView, request: RequestView, place: int) -> bool {
    &&& 0 <= place < instance.listeners.len()
    &&& is_for(instance.listeners[place], request)
    &&& forall|i: int| 0 <= i < place ==> !is_for(#[trigger] instance.listeners[i], request)
}

/// A member of the DOM that succeeds gives its value to the module as it is. One that fails gives
/// the code of its failure, which is then what the instance has recorded, with the message of the
/// error if there is one.
pub proof fn a_member_gives_its_value_or_its_failure(
    instance: InstanceView,
    outcome: Result<i32, MemberFailure>,
)
    ensures
        ({
            let value = returned(member_result(outcome));
            let after = after_member(instance, outcome);
            &&& after == (InstanceView { pending_error: after.pending_error, ..instance })
            &&& match outcome {
                Ok(given) => value == given && after == instance,
                Err(MemberFailure::Abi(status)) => value == status_code(status)
                    && after.error_code() == value,
                Err(MemberFailure::Dom(error)) => {
                    &&& value == status_code(crate::wasm_abi::error_status(error))
                    &&& after.pending_error == Some((value, error_text(error)))
                },
            }
        }),
{
}

/// The steps of a call are shown as they are.
pub proof fn a_step_is_shown_as_it_is(step: HostStep)
    ensures
        match step {
            HostStep::Trap => step@ == StepView::Trap,
            HostStep::Return(value) => step@ == StepView::Return(value),
            HostStep::FindDocument(call) => step@ matches StepView::FindDocument { instance }
                && instance == call.instance,
            HostStep::CheckEventTarget(check) => step@ matches StepView::CheckEventTarget {
                instance,
                adding,
                target,
                args,
            } && instance == check.instance && adding == check.adding && target == check.target
                && args == check.args@,
            HostStep::MakeListener(call) => step@ matches StepView::MakeListener {
                instance,
                request,
            } && instance == call.instance && request == call.request@,
            HostStep::AddListener(call) => step@ matches StepView::AddListener {
                instance,
                request,
                listener,
            } && instance == call.instance && request == call.request@ && listener
                == call.listener,
            HostStep::RemoveListener(call) => step@ matches StepView::RemoveListener {
                request,
                listener,
            } && request == call.request@ && listener == call.listener,
            HostStep::CallMember(call) => step@ matches StepView::CallMember {
                instance,
                entry,
                args,
            } && instance == call.instance && entry == call.entry && args == call.args@,
        },
{
}

/// A call that has fewer arguments than its import takes is a type error, which is recorded; only
/// the two imports that tell of failures leave what is recorded in place.
pub proof fn a_short_call_is_a_type_error(
    call: CallView,
    instances: Seq<InstanceView>,
    memory: BufferProperty,
    members: Seq<MemberImport>,
)
    requires
        0 <= call.instance_index < instances.len(),
        !instances[call.instance_index as int].torn_down,
        0 <= call.entry_index < import_table(members).len(),
        call.args.len() < import_table(members)[call.entry_index as int].nargs,
    ensures
        answers(call.first_step(instances, memory, import_table(members)), -40),
        ({
            let before = instances[call.instance_index as int];
            let after = call.instances_after(
                instances,
                memory,
                import_table(members),
            )[call.instance_index as int];
            let name = import_table(members)[call.entry_index as int].name;
            &&& after == (InstanceView { pending_error: after.pending_error, ..before })
            &&& call.entry_index < 12 && (name == "error-code"@ || name == "error-message"@)
                ==> after == before
            &&& call.entry_index >= 12 || name != "error-code"@ && name != "error-message"@
                ==> after.error_code() == -40
        }),
{
    assert(core_table().len() == 12);
    if call.entry_index < 12 {
        let index = call.entry_index as int;
        assert(import_table(members)[index] == core_table()[index]);
        if import_table(members)[index].name == core_table()[8].name {
            core_import_names_are_distinct(index, 8);
        }
        if import_table(members)[index].name == core_table()[9].name {
            core_import_names_are_distinct(index, 9);
        }
    } else {
        assert(import_table(members)[call.entry_index as int].call == HostFunction::Member);
    }
}

/// A call opens a scope exactly if the number of open scopes is one more afterwards.
pub proof fn a_call_that_opens_a_scope_adds_one(
    call: CallView,
    instances: Seq<InstanceView>,
    memory: BufferProperty,
    table: Seq<ImportView>,
)
    requires
        0 <= call.instance_index < instances.len(),
        instances[call.instance_index as int].handles.wf(),
    ensures
        call.opens_a_scope(instances, table) <==> call.instances_after(
            instances,
            memory,
            table,
        )[call.instance_index as int].handles.depth() == 1
            + instances[call.instance_index as int].handles.depth(),
{
    let handles = instances[call.instance_index as int].handles;
    if handles.depth() > 0 {
        releasing_many_ends_their_handles(handles, handles.innermost());
    }
}

} // verus!
