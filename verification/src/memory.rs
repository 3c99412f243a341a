//! Reading and writing the linear memory of an instance.
//!
//! Every pointer that a module hands the host goes through here. What is held is the memory
//! object, never its buffer: growing the memory detaches and replaces the buffer, so the buffer
//! is fetched and checked anew on every access. Reads give owned bytes, so that nothing borrowed
//! from the memory survives into a DOM operation.

use vstd::prelude::*;

use crate::wasm_abi::{checked_range, in_bounds, WasmAbiStatus};

verus! {

/// An array buffer of the engine.
pub struct ArrayBuffer {
    /// Whether the buffer has been detached.
    pub detached: bool,
    /// The bytes of the buffer, or `None` if the engine cannot give access to them.
    pub bytes: Option<Vec<u8>>,
}

/// What reading the `buffer` property of a memory object gives.
pub enum BufferProperty {
    /// The read failed.
    Unreadable,
    /// The value is not an object.
    NotAnObject,
    /// The value is the buffer that currently backs the memory.
    Object(ArrayBuffer),
}

impl BufferProperty {
    /// The bytes of the memory, if they can be reached.
    pub open spec fn attached(self) -> Option<Seq<u8>> {
        match self {
            BufferProperty::Object(buffer) => match buffer.bytes {
                Some(bytes) => if buffer.detached {
                    None
                } else {
                    Some(bytes@)
                },
                None => None,
            },
            _ => None,
        }
    }
}

/// What a read of `len` bytes at `ptr` gives.
pub open spec fn bytes_at(memory: BufferProperty, ptr: int, len: int) -> Result<
    Seq<u8>,
    WasmAbiStatus,
> {
    match memory.attached() {
        Some(bytes) => if in_bounds(ptr, len, bytes.len() as int) {
            Ok(bytes.subrange(ptr, ptr + len))
        } else {
            Err(WasmAbiStatus::OutOfBounds)
        },
        None => Err(WasmAbiStatus::MemoryDetached),
    }
}

/// A memory with some of its bytes overwritten.
pub open spec fn overwritten(memory: Seq<u8>, ptr: int, bytes: Seq<u8>) -> Seq<u8> {
    memory.take(ptr) + bytes + memory.skip(ptr + bytes.len())
}

/// Whether a write of some bytes at `ptr` is refused, and how.
pub open spec fn write_outcome(memory: BufferProperty, ptr: int, bytes: Seq<u8>) -> Result<
    (),
    WasmAbiStatus,
> {
    if bytes.len() > i32::MAX {
        Err(WasmAbiStatus::OutOfBounds)
    } else {
        match memory.attached() {
            Some(held) => if in_bounds(ptr, bytes.len() as int, held.len() as int) {
                Ok(())
            } else {
                Err(WasmAbiStatus::OutOfBounds)
            },
            None => Err(WasmAbiStatus::MemoryDetached),
        }
    }
}

/// A memory after a write of some bytes at `ptr`.
pub open spec fn attached_after_write(memory: BufferProperty, ptr: int, bytes: Seq<u8>) -> Option<
    Seq<u8>,
> {
    match write_outcome(memory, ptr, bytes) {
        Ok(_) => Some(overwritten(memory.attached()->0, ptr, bytes)),
        Err(_) => memory.attached(),
    }
}

/// The buffer that currently backs a memory object, unless it is detached or missing.
pub fn current_buffer(memory: &BufferProperty) -> (buffer: Result<&ArrayBuffer, WasmAbiStatus>)
    ensures
        buffer == (match *memory {
            BufferProperty::Object(buffer) => if buffer.detached {
                Err::<&ArrayBuffer, WasmAbiStatus>(WasmAbiStatus::MemoryDetached)
            } else {
                Ok(&buffer)
            },
            _ => Err(WasmAbiStatus::MemoryDetached),
        }),
{
    match memory {
        BufferProperty::Object(buffer) => {
            if buffer.detached {
                Err(WasmAbiStatus::MemoryDetached)
            } else {
                Ok(buffer)
            }
        },
        BufferProperty::Unreadable | BufferProperty::NotAnObject => Err(
            WasmAbiStatus::MemoryDetached,
        ),
    }
}

/// Copies `len` bytes at `ptr` out of linear memory.
pub fn read(memory: &BufferProperty, ptr: i32, len: i32) -> (copied: Result<
    Vec<u8>,
    WasmAbiStatus,
>)
    ensures
        match copied {
            Ok(bytes) => bytes_at(*memory, ptr as int, len as int) == Ok::<
                Seq<u8>,
                WasmAbiStatus,
            >(bytes@),
            Err(status) => bytes_at(*memory, ptr as int, len as int) == Err::<
                Seq<u8>,
                WasmAbiStatus,
            >(status),
        },
{
    let buffer = match current_buffer(memory) {
        Ok(buffer) => buffer,
        Err(status) => return Err(status),
    };
    let bytes = match &buffer.bytes {
        Some(bytes) => bytes,
        None => return Err(WasmAbiStatus::MemoryDetached),
    };
    let range = match checked_range(ptr, len, bytes.len()) {
        Ok(range) => range,
        Err(status) => return Err(status),
    };
    let slice = vstd::slice::slice_subrange(bytes.as_slice(), range.start, range.end);
    Ok(vstd::slice::slice_to_vec(slice))
}

/// Copies bytes into linear memory at `ptr`.
pub fn write(memory: &mut BufferProperty, ptr: i32, bytes: &[u8]) -> (written: Result<
    (),
    WasmAbiStatus,
>)
    ensures
        written == write_outcome(*old(memory), ptr as int, bytes@),
        final(memory).attached() == attached_after_write(*old(memory), ptr as int, bytes@),
        written is Err ==> *final(memory) == *old(memory),
{
    let len: i32 = match i32::try_from(bytes.len()) {
        Ok(len) => len,
        Err(_) => return Err(WasmAbiStatus::OutOfBounds),
    };
    let held = match memory {
        BufferProperty::Object(ArrayBuffer { detached: false, bytes: Some(held) }) => held,
        _ => return Err(WasmAbiStatus::MemoryDetached),
    };
    let range = match checked_range(ptr, len, held.len()) {
        Ok(range) => range,
        Err(status) => return Err(status),
    };
    copy_into(held, range.start, bytes);
    Ok(())
}

/// Overwrites part of a memory.
fn copy_into(held: &mut Vec<u8>, start: usize, bytes: &[u8])
    requires
        start + bytes@.len() <= old(held)@.len(),
    ensures
        final(held)@ == overwritten(old(held)@, start as int, bytes@),
{
    let ghost before = held@;
    let size: usize = held.len();
    for i in 0..bytes.len()
        invariant
            start + bytes@.len() <= before.len() == held@.len() == size,
            forall|j: int|
                0 <= j < held@.len() ==> #[trigger] held@[j] == (if start <= j < start + i {
                    bytes@[j - start]
                } else {
                    before[j]
                }),
    {
        held[start + i] = bytes[i];
    }
    assert(held@ =~= overwritten(before, start as int, bytes@));
}

/// A read gives back what a write wrote.
pub proof fn reading_gives_back_what_was_written(
    before: BufferProperty,
    ptr: int,
    bytes: Seq<u8>,
    after: BufferProperty,
)
    requires
        write_outcome(before, ptr, bytes) is Ok,
        after.attached() == attached_after_write(before, ptr, bytes),
    ensures
        bytes_at(after, ptr, bytes.len() as int) == Ok::<Seq<u8>, WasmAbiStatus>(bytes),
{
    assert(after.attached()->0.subrange(ptr, ptr + bytes.len()) =~= bytes);
}

/// A write leaves every byte outside its range alone: a read that does not touch the range gives
/// what it gave before, and so does every read after a write that was refused.
pub proof fn a_write_keeps_to_its_range(
    before: BufferProperty,
    ptr: int,
    bytes: Seq<u8>,
    after: BufferProperty,
    other: int,
    len: int,
)
    requires
        after.attached() == attached_after_write(before, ptr, bytes),
        write_outcome(before, ptr, bytes) is Ok ==> other + len <= ptr || ptr + bytes.len()
            <= other,
    ensures
        bytes_at(after, other, len) == bytes_at(before, other, len),
{
    if write_outcome(before, ptr, bytes) is Ok {
        let old_bytes = before.attached()->0;
        let new_bytes = after.attached()->0;
        assert(new_bytes.len() == old_bytes.len());
        if in_bounds(other, len, old_bytes.len() as int) {
            assert(new_bytes.subrange(other, other + len) =~= old_bytes.subrange(
                other,
                other + len,
            ));
        }
    }
}

/// A read gives the bytes from the pointer on, as many as were asked for, and it succeeds exactly
/// if they all lie in the memory. What it gives is what stands there, byte for byte.
pub proof fn a_read_gives_the_bytes_that_stand_there(held: Vec<u8>, ptr: int, len: int)
    ensures
        ({
            let memory = BufferProperty::Object(
                ArrayBuffer { detached: false, bytes: Some(held) },
            );
            match bytes_at(memory, ptr, len) {
                Ok(bytes) => {
                    &&& 0 <= ptr
                    &&& ptr + len <= held@.len()
                    &&& bytes.len() == len
                    &&& forall|i: int| 0 <= i < len ==> #[trigger] bytes[i] == held@[ptr + i]
                },
                Err(status) => {
                    &&& status == WasmAbiStatus::OutOfBounds
                    &&& ptr < 0 || len < 0 || ptr + len > held@.len()
                },
            }
        }),
{
}

/// A write puts the bytes at the pointer and leaves every other byte and the size of the memory
/// alone, and it succeeds exactly if the bytes all lie in the memory and can be counted.
pub proof fn a_write_puts_the_bytes_where_they_belong(held: Vec<u8>, ptr: int, bytes: Seq<u8>)
    ensures
        ({
            let memory = BufferProperty::Object(
                ArrayBuffer { detached: false, bytes: Some(held) },
            );
            match write_outcome(memory, ptr, bytes) {
                Ok(_) => {
                    &&& 0 <= ptr
                    &&& ptr + bytes.len() <= held@.len()
                    &&& attached_after_write(memory, ptr, bytes) matches Some(after)
                        && stands_in(held@, after, ptr, bytes)
                },
                Err(status) => {
                    &&& status == WasmAbiStatus::OutOfBounds
                    &&& ptr < 0 || ptr + bytes.len() > held@.len() || bytes.len() > i32::MAX
                    &&& attached_after_write(memory, ptr, bytes) == Some(held@)
                },
            }
        }),
{
}

/// Whether bytes stand at a place of a memory that is otherwise as it was before.
pub open spec fn stands_in(before: Seq<u8>, after: Seq<u8>, ptr: int, bytes: Seq<u8>) -> bool {
    &&& after.len() == before.len()
    &&& forall|i: int|
        0 <= i < after.len() ==> #[trigger] after[i] == (if ptr <= i < ptr + bytes.len() {
            bytes[i - ptr]
        } else {
            before[i]
        })
}

/// A memory whose buffer is detached, is no buffer or cannot be read gives nothing and takes
/// nothing, and is said to be detached.
pub proof fn a_detached_memory_is_out_of_reach(
    memory: BufferProperty,
    ptr: int,
    len: int,
    bytes: Seq<u8>,
)
    requires
        memory matches BufferProperty::Object(buffer) ==> buffer.detached || buffer.bytes is None,
    ensures
        bytes_at(memory, ptr, len) == Err::<Seq<u8>, WasmAbiStatus>(WasmAbiStatus::MemoryDetached),
        bytes.len() <= i32::MAX ==> write_outcome(memory, ptr, bytes) == Err::<(), WasmAbiStatus>(
            WasmAbiStatus::MemoryDetached,
        ),
        memory.attached() is None,
        attached_after_write(memory, ptr, bytes) is None,
{
}

} // verus!
