//! The host functions of the runtime itself.

use vstd::prelude::*;
use vstd::utf8::encode_utf8;

use crate::ctx::{after_returning_object, attached_after, delivered, object_returned};
use crate::handle_model::TableOp;
use crate::handles::{same_object, Reflector};
use crate::instance::{InstanceView, WasmDomInstance};
use crate::memory::BufferProperty;
use crate::wasm_abi::{
    handle_from_abi, status_code, WasmAbiStatus, WasmHandle, SDA_ABI_VERSION,
};

verus! {

/// The global object of the realm that a call runs in.
pub enum RealmGlobal {
    /// A window, with the reflector of its document.
    Window { document: Reflector },
    /// Anything else, such as a worker, which has no document to hand out.
    Other,
}

// ---------------------------------------------------------------------------------------
// What the calls mean
// ---------------------------------------------------------------------------------------

/// What `document` gives.
pub open spec fn document_result(instance: InstanceView, global: RealmGlobal) -> Result<
    i32,
    WasmAbiStatus,
> {
    match global {
        RealmGlobal::Window { .. } => object_returned(instance),
        RealmGlobal::Other => Err(WasmAbiStatus::NotSupported),
    }
}

/// The instance after `document`.
pub open spec fn after_document(instance: InstanceView, global: RealmGlobal) -> InstanceView {
    let result = document_result(instance, global);
    match global {
        RealmGlobal::Window { document } => after_returning_object(instance, document).noting(
            result,
        ),
        RealmGlobal::Other => instance.noting(result),
    }
}

/// What `handle-drop` gives.
pub open spec fn handle_drop_result(instance: InstanceView, raw: i32) -> Result<
    i32,
    WasmAbiStatus,
> {
    if raw < 0 {
        Err(WasmAbiStatus::InvalidHandle)
    } else {
        match instance.handles.lookup(raw as WasmHandle) {
            Ok(_) => Ok(0),
            Err(status) => Err(status),
        }
    }
}

/// The instance after `handle-drop`.
pub open spec fn after_handle_drop(instance: InstanceView, raw: i32) -> InstanceView {
    let result = handle_drop_result(instance, raw);
    if raw < 0 {
        instance.noting(result)
    } else {
        InstanceView {
            handles: instance.handles.apply(TableOp::Remove(raw as WasmHandle)),
            ..instance
        }.noting(result)
    }
}

/// What `handle-eq` gives.
pub open spec fn handle_eq_result(instance: InstanceView, left: i32, right: i32) -> Result<
    i32,
    WasmAbiStatus,
> {
    if left < 0 || right < 0 {
        Err(WasmAbiStatus::InvalidHandle)
    } else if same_object(instance.handles, left as WasmHandle, right as WasmHandle) {
        Ok(1)
    } else {
        Ok(0)
    }
}

/// The instance after `handle-eq`.
pub open spec fn after_handle_eq(instance: InstanceView, left: i32, right: i32) -> InstanceView {
    instance.noting(handle_eq_result(instance, left, right))
}

/// What `handle-scope-enter` gives: the token of the new scope, if it can be told to the module.
pub open spec fn scope_enter_result(instance: InstanceView) -> Result<i32, WasmAbiStatus> {
    if instance.handles.depth() + 1 <= i32::MAX {
        Ok((instance.handles.depth() + 1) as i32)
    } else {
        Err(WasmAbiStatus::InvalidScope)
    }
}

/// The instance after `handle-scope-enter`.
pub open spec fn after_scope_enter(instance: InstanceView) -> InstanceView {
    InstanceView { handles: instance.handles.entered(), ..instance }.noting(
        scope_enter_result(instance),
    )
}

/// What `handle-scope-exit` gives.
pub open spec fn scope_exit_result(instance: InstanceView, token: i32) -> Result<
    i32,
    WasmAbiStatus,
> {
    if token > 0 && token == instance.handles.depth() {
        Ok(0)
    } else {
        Err(WasmAbiStatus::InvalidScope)
    }
}

/// The instance after `handle-scope-exit`.
pub open spec fn after_scope_exit(instance: InstanceView, token: i32) -> InstanceView {
    if token > 0 && token == instance.handles.depth() {
        InstanceView { handles: instance.handles.exited(), ..instance }
    } else {
        instance.noting(scope_exit_result(instance, token))
    }
}

/// What `string-read` gives. That nothing is pending is no error.
pub open spec fn string_read_result(
    instance: InstanceView,
    memory: BufferProperty,
    out_ptr: i32,
    out_cap: i32,
) -> Result<i32, WasmAbiStatus> {
    match instance.pending_string {
        Some(bytes) => delivered(instance, memory, bytes, out_ptr as int, out_cap as int),
        None => Ok(0),
    }
}

/// The instance after `string-read`: a string that was not delivered is kept.
pub open spec fn after_string_read(
    instance: InstanceView,
    memory: BufferProperty,
    out_ptr: i32,
    out_cap: i32,
) -> InstanceView {
    let result = string_read_result(instance, memory, out_ptr, out_cap);
    if result is Ok {
        InstanceView { pending_string: None, ..instance }
    } else {
        instance.noting(result)
    }
}

/// What the memory holds after `string-read`.
pub open spec fn attached_after_string_read(
    instance: InstanceView,
    memory: BufferProperty,
    out_ptr: i32,
    out_cap: i32,
) -> Option<Seq<u8>> {
    match instance.pending_string {
        Some(bytes) => attached_after(
            memory,
            bytes,
            out_ptr as int,
            string_read_result(instance, memory, out_ptr, out_cap) is Ok,
        ),
        None => memory.attached(),
    }
}

/// What `error-message` gives.
pub open spec fn error_message_result(
    instance: InstanceView,
    memory: BufferProperty,
    out_ptr: i32,
    out_cap: i32,
) -> Result<i32, WasmAbiStatus> {
    match instance.pending_error {
        Some((_, message)) => delivered(
            instance,
            memory,
            encode_utf8(message),
            out_ptr as int,
            out_cap as int,
        ),
        None => Ok(0),
    }
}

/// The instance after `error-message`: a failure whose message was not delivered is kept, code
/// and all.
pub open spec fn after_error_message(
    instance: InstanceView,
    memory: BufferProperty,
    out_ptr: i32,
    out_cap: i32,
) -> InstanceView {
    if error_message_result(instance, memory, out_ptr, out_cap) is Ok {
        InstanceView { pending_error: None, ..instance }
    } else {
        instance
    }
}

/// What the memory holds after `error-message`.
pub open spec fn attached_after_error_message(
    instance: InstanceView,
    memory: BufferProperty,
    out_ptr: i32,
    out_cap: i32,
) -> Option<Seq<u8>> {
    match instance.pending_error {
        Some((_, message)) => attached_after(
            memory,
            encode_utf8(message),
            out_ptr as int,
            error_message_result(instance, memory, out_ptr, out_cap) is Ok,
        ),
        None => memory.attached(),
    }
}

// ---------------------------------------------------------------------------------------
// The calls
// ---------------------------------------------------------------------------------------

/// `abi-version`: the version of the ABI.
pub fn abi_version() -> (version: Result<i32, WasmAbiStatus>)
    ensures
        version == Ok::<i32, WasmAbiStatus>(SDA_ABI_VERSION),
{
    Ok(SDA_ABI_VERSION)
}

/// `document`: a handle to the document of the realm, from which every other object is reached.
pub fn document(instance: &mut WasmDomInstance, global: RealmGlobal) -> (result: Result<
    i32,
    WasmAbiStatus,
>)
    requires
        old(instance).wf(),
    ensures
        final(instance).wf(),
        result == document_result(old(instance)@, global),
        final(instance)@ == after_document(old(instance)@, global),
{
    let result = match global {
        RealmGlobal::Window { document } => instance.return_object(document),
        RealmGlobal::Other => Err(WasmAbiStatus::NotSupported),
    };
    instance.note(result)
}

/// `handle-drop`: releases a handle.
pub fn handle_drop(instance: &mut WasmDomInstance, args: &[i32]) -> (result: Result<
    i32,
    WasmAbiStatus,
>)
    requires
        old(instance).wf(),
        args@.len() >= 1,
    ensures
        final(instance).wf(),
        result == handle_drop_result(old(instance)@, args@[0]),
        final(instance)@ == after_handle_drop(old(instance)@, args@[0]),
{
    let handle = match handle_from_abi(args[0]) {
        Ok(handle) => handle,
        Err(status) => return instance.note(Err(status)),
    };
    let result = match instance.handles_mut().remove(handle) {
        Ok(_) => Ok(0),
        Err(status) => Err(status),
    };
    instance.note(result)
}

/// `handle-eq`: whether two handles name the same object.
pub fn handle_eq(instance: &mut WasmDomInstance, args: &[i32]) -> (result: Result<
    i32,
    WasmAbiStatus,
>)
    requires
        old(instance).wf(),
        args@.len() >= 2,
    ensures
        final(instance).wf(),
        result == handle_eq_result(old(instance)@, args@[0], args@[1]),
        final(instance)@ == after_handle_eq(old(instance)@, args@[0], args@[1]),
{
    let left = match handle_from_abi(args[0]) {
        Ok(handle) => handle,
        Err(status) => return instance.note(Err(status)),
    };
    let right = match handle_from_abi(args[1]) {
        Ok(handle) => handle,
        Err(status) => return instance.note(Err(status)),
    };
    if instance.handles().same_object(left, right) {
        Ok(1)
    } else {
        Ok(0)
    }
}

/// `handle-scope-enter`: opens a scope and gives its token.
pub fn handle_scope_enter(instance: &mut WasmDomInstance) -> (result: Result<i32, WasmAbiStatus>)
    requires
        old(instance).wf(),
        old(instance)@.handles.depth() < u32::MAX,
    ensures
        final(instance).wf(),
        result == scope_enter_result(old(instance)@),
        final(instance)@ == after_scope_enter(old(instance)@),
{
    let token: u32 = instance.handles_mut().enter_scope();
    let result = if token <= i32::MAX as u32 {
        Ok(token as i32)
    } else {
        Err(WasmAbiStatus::InvalidScope)
    };
    instance.note(result)
}

/// `handle-scope-exit`: closes the innermost scope and releases what was allocated inside it.
pub fn handle_scope_exit(instance: &mut WasmDomInstance, args: &[i32]) -> (result: Result<
    i32,
    WasmAbiStatus,
>)
    requires
        old(instance).wf(),
        args@.len() >= 1,
    ensures
        final(instance).wf(),
        result == scope_exit_result(old(instance)@, args@[0]),
        final(instance)@ == after_scope_exit(old(instance)@, args@[0]),
{
    if args[0] < 0 {
        return instance.note(Err(WasmAbiStatus::InvalidScope));
    }
    let result = match instance.handles_mut().exit_scope(args[0] as u32) {
        Ok(_) => Ok(0),
        Err(status) => Err(status),
    };
    instance.note(result)
}

/// `handle-count`: the number of live handles.
pub fn handle_count(instance: &WasmDomInstance) -> (result: Result<i32, WasmAbiStatus>)
    requires
        instance.wf(),
    ensures
        result == Ok::<i32, WasmAbiStatus>(instance@.handles.live().dom().len() as i32),
        instance@.handles.live().dom().len() <= i32::MAX,
{
    let count: u32 = instance.handles().len();
    Ok(count as i32)
}

/// `string-read`: delivers a string that did not fit the buffer of the call that produced it.
pub fn string_read(
    instance: &mut WasmDomInstance,
    memory: &mut BufferProperty,
    args: &[i32],
) -> (result: Result<i32, WasmAbiStatus>)
    requires
        old(instance).wf(),
        args@.len() >= 2,
    ensures
        final(instance).wf(),
        result == string_read_result(old(instance)@, *old(memory), args@[0], args@[1]),
        final(instance)@ == after_string_read(old(instance)@, *old(memory), args@[0], args@[1]),
        final(memory).attached() == attached_after_string_read(
            old(instance)@,
            *old(memory),
            args@[0],
            args@[1],
        ),
{
    let bytes = match instance.take_stashed_string() {
        Some(bytes) => bytes,
        None => return Ok(0),
    };
    match instance.write_stashed(memory, bytes.as_slice(), args[0], args[1]) {
        Ok(len) => Ok(len),
        Err(status) => {
            // A buffer that was too small must not cost the module its string.
            instance.stash_string(bytes);
            instance.note(Err(status))
        },
    }
}

/// `error-code`: the code of the most recent failure, which is not drained by reading it.
pub fn error_code(instance: &WasmDomInstance) -> (result: Result<i32, WasmAbiStatus>)
    ensures
        result == Ok::<i32, WasmAbiStatus>(instance@.error_code()),
{
    Ok(instance.last_error_code())
}

/// `error-message`: delivers the message of the most recent failure, and drains the failure.
pub fn error_message(
    instance: &mut WasmDomInstance,
    memory: &mut BufferProperty,
    args: &[i32],
) -> (result: Result<i32, WasmAbiStatus>)
    requires
        old(instance).wf(),
        args@.len() >= 2,
    ensures
        final(instance).wf(),
        result == error_message_result(old(instance)@, *old(memory), args@[0], args@[1]),
        final(instance)@ == after_error_message(
            old(instance)@,
            *old(memory),
            args@[0],
            args@[1],
        ),
        final(memory).attached() == attached_after_error_message(
            old(instance)@,
            *old(memory),
            args@[0],
            args@[1],
        ),
{
    let (code, message) = match instance.take_error() {
        Some(failure) => failure,
        None => return Ok(0),
    };
    match instance.write_stashed(memory, message.as_str().as_bytes(), args[0], args[1]) {
        Ok(len) => Ok(len),
        Err(status) => {
            instance.restore_error(code, message);
            Err(status)
        },
    }
}

// ---------------------------------------------------------------------------------------
// Laws
// ---------------------------------------------------------------------------------------

/// An attempt of a module to fetch something that was kept for it.
pub struct Fetch {
    /// The memory at the time of the attempt.
    pub memory: BufferProperty,
    pub out_ptr: i32,
    pub out_cap: i32,
}

/// The instance after a run of attempts to read a kept string.
pub open spec fn after_string_reads(instance: InstanceView, attempts: Seq<Fetch>) -> InstanceView
    decreases attempts.len(),
{
    if attempts.len() == 0 {
        instance
    } else {
        let last = attempts.last();
        after_string_read(
            after_string_reads(instance, attempts.drop_last()),
            last.memory,
            last.out_ptr,
            last.out_cap,
        )
    }
}

/// Whether an attempt of a run delivers the string that an instance keeps.
pub open spec fn string_arrives(instance: InstanceView, attempt: Fetch) -> bool {
    string_read_result(instance, attempt.memory, attempt.out_ptr, attempt.out_cap) is Ok
}

/// A kept string can be retrieved until it is delivered: as long as every attempt fails, it is
/// still there. Apart from the failures nothing is changed by trying.
pub proof fn a_kept_string_waits_for_its_reader(instance: InstanceView, attempts: Seq<Fetch>)
    requires
        forall|i: int|
            0 <= i < attempts.len() ==> !string_arrives(instance, #[trigger] attempts[i]),
    ensures
        after_string_reads(instance, attempts).pending_string == instance.pending_string,
        after_string_reads(instance, attempts) == (InstanceView {
            pending_error: after_string_reads(instance, attempts).pending_error,
            ..instance
        }),
    decreases attempts.len(),
{
    if attempts.len() > 0 {
        let rest = attempts.drop_last();
        assert forall|i: int| 0 <= i < rest.len() implies !string_arrives(
            instance,
            #[trigger] rest[i],
        ) by {
            assert(attempts[i] == rest[i]);
        }
        a_kept_string_waits_for_its_reader(instance, rest);
        assert(!string_arrives(instance, attempts[attempts.len() - 1]));
    }
}

/// A kept string is delivered once: an attempt that succeeds writes exactly the bytes that were
/// kept where the module asked for them, and from then on there is nothing to read.
pub proof fn a_kept_string_is_delivered_once(
    instance: InstanceView,
    bytes: Seq<u8>,
    attempt: Fetch,
    after: BufferProperty,
    later: Seq<Fetch>,
)
    requires
        instance.pending_string == Some(bytes),
        string_arrives(instance, attempt),
        after.attached() == attached_after_string_read(
            instance,
            attempt.memory,
            attempt.out_ptr,
            attempt.out_cap,
        ),
    ensures
        string_read_result(instance, attempt.memory, attempt.out_ptr, attempt.out_cap) == Ok::<
            i32,
            WasmAbiStatus,
        >(bytes.len() as i32),
        crate::memory::bytes_at(after, attempt.out_ptr as int, bytes.len() as int) == Ok::<
            Seq<u8>,
            WasmAbiStatus,
        >(bytes),
        ({
            let drained = after_string_reads(
                after_string_read(instance, attempt.memory, attempt.out_ptr, attempt.out_cap),
                later,
            );
            &&& drained.pending_string is None
            &&& forall|next: Fetch|
                #![trigger string_read_result(drained, next.memory, next.out_ptr, next.out_cap)]
                string_read_result(drained, next.memory, next.out_ptr, next.out_cap) == Ok::<
                    i32,
                    WasmAbiStatus,
                >(0)
        }),
    decreases later.len(),
{
    crate::memory::reading_gives_back_what_was_written(
        attempt.memory,
        attempt.out_ptr as int,
        bytes,
        after,
    );
    if later.len() > 0 {
        a_kept_string_is_delivered_once(instance, bytes, attempt, after, later.drop_last());
    }
}

/// A buffer that is large enough and lies in a memory that is bound and attached receives the
/// kept string.
pub proof fn a_large_enough_buffer_receives_the_string(
    instance: InstanceView,
    bytes: Seq<u8>,
    attempt: Fetch,
)
    requires
        instance.pending_string == Some(bytes),
        instance.memory is Some,
        attempt.memory.attached() is Some,
        bytes.len() <= attempt.out_cap,
        0 <= attempt.out_ptr,
        attempt.out_ptr + bytes.len() <= attempt.memory.attached()->0.len(),
    ensures
        string_arrives(instance, attempt),
{
}

/// A string that did not fit when it was returned is what a later read delivers.
pub proof fn what_did_not_fit_is_what_is_read(
    instance: InstanceView,
    bytes: Seq<u8>,
    out_cap: int,
)
    requires
        0 <= out_cap < bytes.len() <= i32::MAX,
    ensures
        crate::ctx::after_returning_string(instance, bytes, out_cap).pending_string == Some(bytes),
{
}

/// Reading the code of a failure does not drain it. A message that cannot be delivered leaves
/// code and message in place, so a retry tells the truth, and one that is delivered takes the
/// code along: from then on the code is zero.
pub proof fn a_failure_is_drained_with_its_message(
    instance: InstanceView,
    memory: BufferProperty,
    out_ptr: i32,
    out_cap: i32,
)
    ensures
        ({
            let after = after_error_message(instance, memory, out_ptr, out_cap);
            if error_message_result(instance, memory, out_ptr, out_cap) is Ok {
                after.error_code() == 0
            } else {
                after == instance
            }
        }),
{
}

/// What the module is told of a failure is the code that the failure is reported with, and the
/// message of the error.
pub proof fn a_failure_keeps_its_code(instance: InstanceView, error: crate::error::Error)
    ensures
        instance.failed_with(error).error_code() == status_code(
            crate::wasm_abi::error_status(error),
        ),
        instance.failed_with(error).error_code() <= -2,
{
}

} // verus!
