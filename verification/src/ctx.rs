//! What a host call does with its arguments and its results.
//!
//! A host call has three parts, and their order is a safety rule: decode the arguments into owned
//! values, run the DOM operation, encode the result. Nothing borrowed from the linear memory
//! survives the first part, and the last one fetches the memory anew.

use vstd::prelude::*;
use vstd::string::StringSliceAdditionalSpecFns;
use vstd::utf8::{decode_utf8, encode_utf8, valid_utf8};

use crate::handle_model::TableOp;
use crate::handles::{of_interface, resolved, ObjectId, Reflector};
use crate::instance::{InstanceView, WasmDomInstance};
use crate::memory::{
    attached_after_write, bytes_at, stands_in, write_outcome, BufferProperty,
};
use crate::wasm_abi::{
    handle_from_abi, plan_string_write, status_code, string_write_plan, StringWrite,
    WasmAbiStatus, WasmHandle, MAX_INDEX, NULL_HANDLE,
};

verus! {

// ---------------------------------------------------------------------------------------
// What the calls mean
// ---------------------------------------------------------------------------------------

/// The bytes that a pointer and a length denote. There are none before a memory is bound.
pub open spec fn bytes_argument(
    instance: InstanceView,
    memory: BufferProperty,
    ptr: int,
    len: int,
) -> Result<Seq<u8>, WasmAbiStatus> {
    if instance.memory is Some {
        bytes_at(memory, ptr, len)
    } else {
        Err(WasmAbiStatus::MemoryDetached)
    }
}

/// The text that a pointer and a length denote. Malformed UTF-8 is refused, never patched up.
pub open spec fn text_argument(
    instance: InstanceView,
    memory: BufferProperty,
    ptr: int,
    len: int,
) -> Result<Seq<char>, WasmAbiStatus> {
    match bytes_argument(instance, memory, ptr, len) {
        Ok(bytes) => if valid_utf8(bytes) {
            Ok(decode_utf8(bytes))
        } else {
            Err(WasmAbiStatus::InvalidUtf8)
        },
        Err(status) => Err(status),
    }
}

/// The object that a handle argument names. The null handle names none.
pub open spec fn object_argument(instance: InstanceView, raw: i32) -> Result<
    ObjectId,
    WasmAbiStatus,
> {
    if raw < 0 {
        Err(WasmAbiStatus::InvalidHandle)
    } else if raw == 0 {
        Err(WasmAbiStatus::NullHandle)
    } else {
        resolved(instance.handles, raw as WasmHandle)
    }
}

/// What the module is told when an object is returned to it.
pub open spec fn object_returned(instance: InstanceView) -> Result<i32, WasmAbiStatus> {
    if instance.handles.can_insert() {
        Ok(instance.handles.next_handle() as i32)
    } else {
        Err(WasmAbiStatus::TooManyHandles)
    }
}

/// The instance after an object was returned to the module.
pub open spec fn after_returning_object(
    instance: InstanceView,
    reflector: Reflector,
) -> InstanceView {
    InstanceView { handles: instance.handles.apply(TableOp::Insert(reflector)), ..instance }
}

/// What comes of writing bytes that fit into the buffer of the caller.
pub open spec fn placed(
    instance: InstanceView,
    memory: BufferProperty,
    bytes: Seq<u8>,
    out_ptr: int,
) -> Result<i32, WasmAbiStatus> {
    if instance.memory is None {
        Err(WasmAbiStatus::MemoryDetached)
    } else {
        match write_outcome(memory, out_ptr, bytes) {
            Ok(_) => Ok(bytes.len() as i32),
            Err(status) => Err(status),
        }
    }
}

/// What the module is told when a string is returned to it: the length in either case, whether
/// the bytes were written or have to be fetched.
pub open spec fn string_returned(
    instance: InstanceView,
    memory: BufferProperty,
    bytes: Seq<u8>,
    out_ptr: int,
    out_cap: int,
) -> Result<i32, WasmAbiStatus> {
    match string_write_plan(bytes.len() as int, out_cap) {
        Ok(StringWrite::Fits { .. }) => placed(instance, memory, bytes, out_ptr),
        Ok(StringWrite::Stash { len }) => Ok(len),
        Err(status) => Err(status),
    }
}

/// The instance after a string was returned: one that did not fit is kept.
pub open spec fn after_returning_string(
    instance: InstanceView,
    bytes: Seq<u8>,
    out_cap: int,
) -> InstanceView {
    if string_write_plan(bytes.len() as int, out_cap) matches Ok(StringWrite::Stash { .. }) {
        InstanceView { pending_string: Some(bytes), ..instance }
    } else {
        instance
    }
}

/// What comes of delivering bytes that were kept: a buffer that is still too small is refused.
pub open spec fn delivered(
    instance: InstanceView,
    memory: BufferProperty,
    bytes: Seq<u8>,
    out_ptr: int,
    out_cap: int,
) -> Result<i32, WasmAbiStatus> {
    match string_write_plan(bytes.len() as int, out_cap) {
        Ok(StringWrite::Fits { .. }) => placed(instance, memory, bytes, out_ptr),
        Ok(StringWrite::Stash { .. }) => Err(WasmAbiStatus::OutOfBounds),
        Err(status) => Err(status),
    }
}

/// What the memory holds after bytes were written for the caller, or were not.
pub open spec fn attached_after(
    memory: BufferProperty,
    bytes: Seq<u8>,
    out_ptr: int,
    written: bool,
) -> Option<Seq<u8>> {
    if written {
        attached_after_write(memory, out_ptr, bytes)
    } else {
        memory.attached()
    }
}

// ---------------------------------------------------------------------------------------
// The calls
// ---------------------------------------------------------------------------------------

/// Decodes bytes with `String::from_utf8`, which succeeds exactly on well-formed UTF-8 and then
/// gives the text that the bytes encode.
#[verifier::external_body]
fn strict_text(bytes: Vec<u8>) -> (text: Option<String>)
    ensures
        match text {
            Some(text) => valid_utf8(bytes@) && text@ == decode_utf8(bytes@),
            None => !valid_utf8(bytes@),
        },
{
    String::from_utf8(bytes).ok()
}

impl WasmDomInstance {
    /// Copies the bytes that a pointer and a length denote out of linear memory.
    pub fn bytes(&self, memory: &BufferProperty, ptr: i32, len: i32) -> (copied: Result<
        Vec<u8>,
        WasmAbiStatus,
    >)
        ensures
            match copied {
                Ok(bytes) => bytes_argument(self@, *memory, ptr as int, len as int) == Ok::<
                    Seq<u8>,
                    WasmAbiStatus,
                >(bytes@),
                Err(status) => bytes_argument(self@, *memory, ptr as int, len as int) == Err::<
                    Seq<u8>,
                    WasmAbiStatus,
                >(status),
            },
    {
        if !self.has_memory() {
            return Err(WasmAbiStatus::MemoryDetached);
        }
        crate::memory::read(memory, ptr, len)
    }

    /// Decodes the bytes that a pointer and a length denote as UTF-8, strictly.
    pub fn str_arg(&self, memory: &BufferProperty, ptr: i32, len: i32) -> (decoded: Result<
        String,
        WasmAbiStatus,
    >)
        ensures
            match decoded {
                Ok(text) => text_argument(self@, *memory, ptr as int, len as int) == Ok::<
                    Seq<char>,
                    WasmAbiStatus,
                >(text@),
                Err(status) => text_argument(self@, *memory, ptr as int, len as int) == Err::<
                    Seq<char>,
                    WasmAbiStatus,
                >(status),
            },
    {
        let bytes = match self.bytes(memory, ptr, len) {
            Ok(bytes) => bytes,
            Err(status) => return Err(status),
        };
        match strict_text(bytes) {
            Some(text) => Ok(text),
            None => Err(WasmAbiStatus::InvalidUtf8),
        }
    }

    /// The object that a handle argument names, whatever its interface.
    pub fn object_arg(&self, raw: i32) -> (found: Result<ObjectId, WasmAbiStatus>)
        requires
            self.wf(),
        ensures
            found == object_argument(self@, raw),
    {
        let handle = match handle_from_abi(raw) {
            Ok(handle) => handle,
            Err(status) => return Err(status),
        };
        if handle == NULL_HANDLE {
            return Err(WasmAbiStatus::NullHandle);
        }
        self.handles().resolve(handle)
    }

    /// Resolves a handle argument to an object of the interface that `implements` tests for.
    /// The null handle is refused.
    pub fn handle<F: FnOnce(ObjectId) -> bool>(&self, raw: i32, implements: F) -> (found: Result<
        ObjectId,
        WasmAbiStatus,
    >)
        requires
            self.wf(),
            forall|object: ObjectId| call_requires(implements, (object,)),
        ensures
            match object_argument(self@, raw) {
                Ok(object) => exists|answer: bool| #[trigger]
                    call_ensures(implements, (object,), answer) && found == of_interface(
                        object,
                        answer,
                    ),
                Err(status) => found == Err::<ObjectId, WasmAbiStatus>(status),
            },
    {
        let handle = match handle_from_abi(raw) {
            Ok(handle) => handle,
            Err(status) => return Err(status),
        };
        if handle == NULL_HANDLE {
            return Err(WasmAbiStatus::NullHandle);
        }
        self.handles().get(handle, implements)
    }

    /// Resolves a handle argument that may be null.
    pub fn nullable_handle<F: FnOnce(ObjectId) -> bool>(&self, raw: i32, implements: F) -> (found:
        Result<Option<ObjectId>, WasmAbiStatus>)
        requires
            self.wf(),
            forall|object: ObjectId| call_requires(implements, (object,)),
        ensures
            raw == 0 ==> found == Ok::<Option<ObjectId>, WasmAbiStatus>(None),
            raw != 0 ==> match object_argument(self@, raw) {
                Ok(object) => exists|answer: bool| #[trigger]
                    call_ensures(implements, (object,), answer) && found == (match of_interface(
                        object,
                        answer,
                    ) {
                        Ok(object) => Ok::<Option<ObjectId>, WasmAbiStatus>(Some(object)),
                        Err(status) => Err(status),
                    }),
                Err(status) => found == Err::<Option<ObjectId>, WasmAbiStatus>(status),
            },
    {
        let handle = match handle_from_abi(raw) {
            Ok(handle) => handle,
            Err(status) => return Err(status),
        };
        if handle == NULL_HANDLE {
            return Ok(None);
        }
        match self.handles().get(handle, implements) {
            Ok(object) => Ok(Some(object)),
            Err(status) => Err(status),
        }
    }

    /// Mints a handle for an object that is returned to the module.
    pub fn return_object(&mut self, reflector: Reflector) -> (returned: Result<i32, WasmAbiStatus>)
        requires
            old(self).wf(),
        ensures
            final(self).wf(),
            final(self)@ == after_returning_object(old(self)@, reflector),
            returned == object_returned(old(self)@),
            returned matches Ok(handle) ==> handle > 0 && handle
                == old(self)@.handles.next_handle(),
    {
        match self.handles_mut().insert(reflector) {
            Ok(handle) => Ok(handle as i32),
            Err(status) => Err(status),
        }
    }

    /// Returns an object that may be absent, which is told apart from every handle and from every
    /// failure.
    pub fn return_nullable_object(&mut self, object: Option<Reflector>) -> (returned: Result<
        i32,
        WasmAbiStatus,
    >)
        requires
            old(self).wf(),
        ensures
            final(self).wf(),
            match object {
                Some(reflector) => {
                    &&& final(self)@ == after_returning_object(old(self)@, reflector)
                    &&& returned == object_returned(old(self)@)
                },
                None => {
                    &&& final(self)@ == old(self)@
                    &&& returned == Ok::<i32, WasmAbiStatus>(
                        status_code(WasmAbiStatus::Null) as i32,
                    )
                },
            },
    {
        match object {
            Some(reflector) => self.return_object(reflector),
            None => Ok(WasmAbiStatus::Null.to_abi()),
        }
    }

    /// Returns a string: writes it if it fits, keeps it if not, and gives its length either way.
    pub fn return_string(
        &mut self,
        memory: &mut BufferProperty,
        value: &str,
        out_ptr: i32,
        out_cap: i32,
    ) -> (returned: Result<i32, WasmAbiStatus>)
        requires
            old(self).wf(),
        ensures
            final(self).wf(),
            returned == string_returned(
                old(self)@,
                *old(memory),
                value.spec_bytes(),
                out_ptr as int,
                out_cap as int,
            ),
            final(self)@ == after_returning_string(
                old(self)@,
                value.spec_bytes(),
                out_cap as int,
            ),
            final(memory).attached() == attached_after(
                *old(memory),
                value.spec_bytes(),
                out_ptr as int,
                returned is Ok && value.spec_bytes().len() <= out_cap,
            ),
    {
        let bytes = value.as_bytes();
        match plan_string_write(bytes.len(), out_cap) {
            Ok(StringWrite::Fits { len }) => {
                if !self.has_memory() {
                    return Err(WasmAbiStatus::MemoryDetached);
                }
                match crate::memory::write(memory, out_ptr, bytes) {
                    Ok(_) => Ok(len),
                    Err(status) => Err(status),
                }
            },
            Ok(StringWrite::Stash { len }) => {
                self.stash_string(vstd::slice::slice_to_vec(bytes));
                Ok(len)
            },
            Err(status) => Err(status),
        }
    }

    /// Returns a string that may be null, which is told apart from the empty one.
    pub fn return_nullable_string(
        &mut self,
        memory: &mut BufferProperty,
        value: Option<&str>,
        out_ptr: i32,
        out_cap: i32,
    ) -> (returned: Result<i32, WasmAbiStatus>)
        requires
            old(self).wf(),
        ensures
            final(self).wf(),
            match value {
                Some(text) => {
                    &&& returned == string_returned(
                        old(self)@,
                        *old(memory),
                        text.spec_bytes(),
                        out_ptr as int,
                        out_cap as int,
                    )
                    &&& final(self)@ == after_returning_string(
                        old(self)@,
                        text.spec_bytes(),
                        out_cap as int,
                    )
                    &&& final(memory).attached() == attached_after(
                        *old(memory),
                        text.spec_bytes(),
                        out_ptr as int,
                        returned is Ok && text.spec_bytes().len() <= out_cap,
                    )
                },
                None => {
                    &&& returned == Ok::<i32, WasmAbiStatus>(
                        status_code(WasmAbiStatus::Null) as i32,
                    )
                    &&& final(self)@ == old(self)@
                    &&& *final(memory) == *old(memory)
                },
            },
    {
        match value {
            Some(value) => self.return_string(memory, value, out_ptr, out_cap),
            None => Ok(WasmAbiStatus::Null.to_abi()),
        }
    }

    /// Writes bytes that were kept into the buffer of the caller. What could not be written is
    /// for the caller of this function to put back.
    pub fn write_stashed(
        &self,
        memory: &mut BufferProperty,
        bytes: &[u8],
        out_ptr: i32,
        out_cap: i32,
    ) -> (written: Result<i32, WasmAbiStatus>)
        ensures
            written == delivered(
                self@,
                *old(memory),
                bytes@,
                out_ptr as int,
                out_cap as int,
            ),
            final(memory).attached() == attached_after(
                *old(memory),
                bytes@,
                out_ptr as int,
                written is Ok,
            ),
            written is Err ==> *final(memory) == *old(memory),
    {
        match plan_string_write(bytes.len(), out_cap) {
            Ok(StringWrite::Fits { len }) => {
                if !self.has_memory() {
                    return Err(WasmAbiStatus::MemoryDetached);
                }
                match crate::memory::write(memory, out_ptr, bytes) {
                    Ok(_) => Ok(len),
                    Err(status) => Err(status),
                }
            },
            Ok(StringWrite::Stash { .. }) => Err(WasmAbiStatus::OutOfBounds),
            Err(status) => Err(status),
        }
    }
}

// ---------------------------------------------------------------------------------------
// Laws
// ---------------------------------------------------------------------------------------

/// A string result is never taken for null, nor null for the empty string, and what the module
/// is told on success is the exact length in bytes, whether the string was written or kept.
pub proof fn string_lengths_are_exact(
    instance: InstanceView,
    memory: BufferProperty,
    bytes: Seq<u8>,
    out_ptr: int,
    out_cap: int,
)
    ensures
        string_returned(instance, memory, bytes, out_ptr, out_cap) matches Ok(len) ==> len
            == bytes.len() && len != status_code(WasmAbiStatus::Null),
        delivered(instance, memory, bytes, out_ptr, out_cap) matches Ok(len) ==> len
            == bytes.len(),
{
}

/// A string that fits is written in full, and the module can read it back as the text it was.
pub proof fn a_string_that_fits_reads_back(
    instance: InstanceView,
    before: BufferProperty,
    text: Seq<char>,
    out_ptr: int,
    out_cap: int,
    after: BufferProperty,
)
    requires
        encode_utf8(text).len() <= out_cap,
        string_returned(instance, before, encode_utf8(text), out_ptr, out_cap) is Ok,
        after.attached() == attached_after(before, encode_utf8(text), out_ptr, true),
    ensures
        text_argument(instance, after, out_ptr, encode_utf8(text).len() as int) == Ok::<
            Seq<char>,
            WasmAbiStatus,
        >(text),
{
    crate::memory::reading_gives_back_what_was_written(
        before,
        out_ptr,
        encode_utf8(text),
        after,
    );
    vstd::utf8::encode_utf8_valid_utf8(text);
    vstd::utf8::encode_utf8_decode_utf8(text);
}

/// A handle argument names an object exactly if it is positive and live and its slot has a
/// reflector, and then it names the object of that. What is refused is told apart: a negative
/// integer, the null handle, a handle that never existed, and one whose object is gone.
pub proof fn a_handle_argument_names_its_object(instance: InstanceView, raw: i32, object: ObjectId)
    ensures
        object_argument(instance, raw) == Ok::<ObjectId, WasmAbiStatus>(object) <==> raw > 0
            && instance.handles.live().dom().contains(raw as u32)
            && instance.handles.live()[raw as u32] == Some(object),
        object_argument(instance, raw) matches Err(status) ==> status == (if raw < 0 {
            WasmAbiStatus::InvalidHandle
        } else if raw == 0 {
            WasmAbiStatus::NullHandle
        } else if instance.handles.spent(raw as u32) {
            WasmAbiStatus::StaleHandle
        } else {
            WasmAbiStatus::InvalidHandle
        }),
{
    if raw > 0 && instance.handles.is_live(raw as u32) {
        assert(instance.handles.spent(raw as u32));
    }
}

/// A string argument is the text whose encoding stands in the memory, from the pointer on and as
/// long as the length says. It is refused exactly if there is no memory, if the bytes do not lie
/// in it, or if they encode no text.
pub proof fn a_string_argument_is_the_text_that_stands_there(
    instance: InstanceView,
    memory: BufferProperty,
    ptr: int,
    len: int,
)
    ensures
        match text_argument(instance, memory, ptr, len) {
            Ok(text) => {
                &&& instance.memory is Some
                &&& memory.attached() is Some
                &&& 0 <= ptr
                &&& 0 <= len
                &&& ptr + len <= memory.attached()->0.len()
                &&& encode_utf8(text) == memory.attached()->0.subrange(ptr, ptr + len)
            },
            Err(WasmAbiStatus::MemoryDetached) => instance.memory is None
                || memory.attached() is None,
            Err(WasmAbiStatus::OutOfBounds) => {
                &&& instance.memory is Some
                &&& memory.attached() matches Some(held) && (ptr < 0 || len < 0 || ptr + len
                    > held.len())
            },
            Err(WasmAbiStatus::InvalidUtf8) => {
                &&& instance.memory is Some
                &&& memory.attached() matches Some(held) && forall|text: Seq<char>|
                    #[trigger] encode_utf8(text) != held.subrange(ptr, ptr + len)
            },
            Err(_) => false,
        },
{
    if let Some(held) = memory.attached() {
        if instance.memory is Some && 0 <= ptr && 0 <= len && ptr + len <= held.len() {
            let bytes = held.subrange(ptr, ptr + len);
            if valid_utf8(bytes) {
                vstd::utf8::decode_utf8_encode_utf8(bytes);
            } else {
                assert forall|text: Seq<char>| #[trigger] encode_utf8(text) != bytes by {
                    vstd::utf8::encode_utf8_valid_utf8(text);
                }
            }
        }
    }
}

/// An object that is returned to the module is what the handle names that the module is told:
/// the handle resolves to it, it is a new one, and all other handles name what they named. If
/// there is no room, the module is told so and nothing is minted.
pub proof fn a_returned_object_is_named_by_its_handle(instance: InstanceView, reflector: Reflector)
    requires
        instance.handles.wf(),
    ensures
        ({
            let after = after_returning_object(instance, reflector);
            match object_returned(instance) {
                Ok(handle) => {
                    &&& handle > 0
                    &&& !instance.handles.spent(handle as u32)
                    &&& after.handles.lookup(handle as u32) == Ok::<Reflector, WasmAbiStatus>(
                        reflector,
                    )
                    &&& after.handles.live() == instance.handles.live().insert(
                        handle as u32,
                        reflector,
                    )
                    &&& reflector matches Some(object) ==> object_argument(after, handle) == Ok::<
                        ObjectId,
                        WasmAbiStatus,
                    >(object)
                },
                Err(status) => {
                    &&& status == WasmAbiStatus::TooManyHandles
                    &&& instance.handles.live().dom().len() == instance.handles.max_handles
                        || instance.handles.slots.len() > MAX_INDEX
                    &&& after == instance
                },
            }
        }),
        ({
            let after = after_returning_object(instance, reflector);
            &&& after == (InstanceView { handles: after.handles, ..instance })
            &&& after.handles.depth() == instance.handles.depth()
        }),
{
    crate::handle_laws::live_handles_are_counted(instance.handles);
    if instance.handles.can_insert() {
        let after = after_returning_object(instance, reflector);
        let handle = instance.handles.next_handle();
        crate::handle_laws::inserting_mints_a_fresh_handle(instance.handles, reflector);
        assert(after.handles.live().dom().contains(handle));
    }
}

/// What becomes of a string that is returned. One that the buffer has room for is written where
/// the module asked for it, and the instance is as it was. One that is longer is kept, and the
/// memory is as it was; no memory is needed for that. In both cases the module is told the length.
/// A negative capacity is refused, and so is a length that cannot be told and a buffer that does
/// not lie in the memory.
pub proof fn a_returned_string_is_written_or_kept(
    instance: InstanceView,
    memory: BufferProperty,
    bytes: Seq<u8>,
    out_ptr: int,
    out_cap: int,
)
    ensures
        ({
            let result = string_returned(instance, memory, bytes, out_ptr, out_cap);
            let after = after_returning_string(instance, bytes, out_cap);
            let held = attached_after(
                memory,
                bytes,
                out_ptr,
                result is Ok && bytes.len() <= out_cap,
            );
            if out_cap < 0 || bytes.len() > i32::MAX {
                &&& result == Err::<i32, WasmAbiStatus>(WasmAbiStatus::OutOfBounds)
                &&& after == instance
                &&& held == memory.attached()
            } else if bytes.len() > out_cap {
                &&& result matches Ok(len) && len == bytes.len()
                &&& after.pending_string == Some(bytes)
                &&& after == (InstanceView { pending_string: after.pending_string, ..instance })
                &&& held == memory.attached()
            } else {
                &&& after == instance
                &&& if instance.memory is None || memory.attached() is None {
                    &&& result == Err::<i32, WasmAbiStatus>(WasmAbiStatus::MemoryDetached)
                    &&& held == memory.attached()
                } else if out_ptr < 0 || out_ptr + bytes.len() > memory.attached()->0.len() {
                    &&& result == Err::<i32, WasmAbiStatus>(WasmAbiStatus::OutOfBounds)
                    &&& held == memory.attached()
                } else {
                    &&& result matches Ok(len) && len == bytes.len()
                    &&& held matches Some(after) && stands_in(
                        memory.attached()->0,
                        after,
                        out_ptr,
                        bytes,
                    )
                }
            }
        }),
{
}

} // verus!
