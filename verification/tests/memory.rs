use wasm_dom::instance::WasmDomInstance;
use wasm_dom::memory::{current_buffer, read, ArrayBuffer, BufferProperty};
use wasm_dom::wasm_abi::WasmAbiStatus;

fn memory(bytes: &[u8]) -> BufferProperty {
    BufferProperty::Object(ArrayBuffer {
        detached: false,
        bytes: Some(bytes.to_vec()),
    })
}

fn contents(memory: &BufferProperty) -> Vec<u8> {
    match memory {
        BufferProperty::Object(ArrayBuffer {
            bytes: Some(bytes), ..
        }) => bytes.clone(),
        _ => panic!("the memory has no bytes"),
    }
}

#[test]
fn reads_copy_exactly_the_range() {
    let memory = memory(b"hello world");
    assert_eq!(read(&memory, 6, 5), Ok(b"world".to_vec()));
    assert_eq!(read(&memory, 0, 11), Ok(b"hello world".to_vec()));
    assert_eq!(read(&memory, 11, 0), Ok(Vec::new()));
}

#[test]
fn reads_outside_the_memory_are_refused() {
    let memory = memory(b"0123");
    for (ptr, len) in [(4, 1), (0, 5), (-1, 1), (1, -1), (i32::MAX, i32::MAX), (5, 0)] {
        assert_eq!(read(&memory, ptr, len), Err(WasmAbiStatus::OutOfBounds));
    }
}

#[test]
fn writes_change_exactly_the_range() {
    let mut memory = memory(b"0123456789");
    assert_eq!(wasm_dom::memory::write(&mut memory, 3, b"abc"), Ok(()));
    assert_eq!(contents(&memory), b"012abc6789".to_vec());
    assert_eq!(read(&memory, 3, 3), Ok(b"abc".to_vec()));
    assert_eq!(read(&memory, 0, 3), Ok(b"012".to_vec()));
    assert_eq!(read(&memory, 6, 4), Ok(b"6789".to_vec()));
    assert_eq!(wasm_dom::memory::write(&mut memory, 10, b""), Ok(()));
    assert_eq!(contents(&memory), b"012abc6789".to_vec());
}

#[test]
fn refused_writes_change_nothing() {
    let mut memory = memory(b"0123");
    for (ptr, bytes) in [(3, &b"xy"[..]), (-1, &b"x"[..]), (0, &b"01234"[..])] {
        assert_eq!(
            wasm_dom::memory::write(&mut memory, ptr, bytes),
            Err(WasmAbiStatus::OutOfBounds)
        );
        assert_eq!(contents(&memory), b"0123".to_vec());
    }
}

#[test]
fn a_memory_without_a_buffer_is_detached() {
    let broken = [
        BufferProperty::Unreadable,
        BufferProperty::NotAnObject,
        BufferProperty::Object(ArrayBuffer {
            detached: true,
            bytes: Some(vec![1, 2, 3]),
        }),
        BufferProperty::Object(ArrayBuffer {
            detached: false,
            bytes: None,
        }),
    ];
    for mut memory in broken {
        assert_eq!(read(&memory, 0, 1), Err(WasmAbiStatus::MemoryDetached));
        assert_eq!(
            wasm_dom::memory::write(&mut memory, 0, b"x"),
            Err(WasmAbiStatus::MemoryDetached)
        );
    }
}

#[test]
fn a_detached_buffer_is_not_handed_out() {
    let attached = memory(b"ab");
    assert!(current_buffer(&attached).is_ok());
    let detached = BufferProperty::Object(ArrayBuffer {
        detached: true,
        bytes: None,
    });
    assert_eq!(
        current_buffer(&detached).err(),
        Some(WasmAbiStatus::MemoryDetached)
    );
    assert_eq!(
        current_buffer(&BufferProperty::Unreadable).err(),
        Some(WasmAbiStatus::MemoryDetached)
    );
}

#[test]
fn strings_are_decoded_strictly() {
    let mut instance = WasmDomInstance::new(16);
    let memory = memory(b"caf\xc3\xa9\xff\xed\xa0\x80");
    assert_eq!(
        instance.str_arg(&memory, 0, 5),
        Err(WasmAbiStatus::MemoryDetached)
    );
    instance.set_memory(Some(1));
    assert_eq!(instance.str_arg(&memory, 0, 5), Ok("café".to_owned()));
    assert_eq!(instance.str_arg(&memory, 0, 0), Ok(String::new()));
    // A character cut in half, a byte that never occurs, and a lone surrogate.
    assert_eq!(
        instance.str_arg(&memory, 0, 4),
        Err(WasmAbiStatus::InvalidUtf8)
    );
    assert_eq!(
        instance.str_arg(&memory, 5, 1),
        Err(WasmAbiStatus::InvalidUtf8)
    );
    assert_eq!(
        instance.str_arg(&memory, 6, 3),
        Err(WasmAbiStatus::InvalidUtf8)
    );
    assert_eq!(
        instance.str_arg(&memory, 0, 100),
        Err(WasmAbiStatus::OutOfBounds)
    );
    assert_eq!(instance.bytes(&memory, 5, 1), Ok(vec![0xff]));
}

#[test]
fn strings_that_fit_are_written() {
    let mut instance = WasmDomInstance::new(16);
    instance.set_memory(Some(1));
    let mut memory = memory(b"..........");
    assert_eq!(instance.return_string(&mut memory, "née", 2, 4), Ok(4));
    assert_eq!(instance.str_arg(&memory, 2, 4), Ok("née".to_owned()));
    assert_eq!(contents(&memory), b"..n\xc3\xa9e....".to_vec());
    assert_eq!(instance.take_stashed_string(), None);
}

#[test]
fn strings_that_do_not_fit_are_kept() {
    let mut instance = WasmDomInstance::new(16);
    instance.set_memory(Some(1));
    let mut memory = memory(b"..........");
    assert_eq!(instance.return_string(&mut memory, "hello", 0, 4), Ok(5));
    assert_eq!(contents(&memory), b"..........".to_vec());
    assert_eq!(instance.take_stashed_string(), Some(b"hello".to_vec()));
    assert_eq!(instance.take_stashed_string(), None);
}

#[test]
fn null_is_told_apart_from_the_empty_string() {
    let mut instance = WasmDomInstance::new(16);
    instance.set_memory(Some(1));
    let mut memory = memory(b"....");
    assert_eq!(
        instance.return_nullable_string(&mut memory, None, 0, 4),
        Ok(-1)
    );
    assert_eq!(
        instance.return_nullable_string(&mut memory, Some(""), 0, 4),
        Ok(0)
    );
    assert_eq!(
        instance.return_nullable_string(&mut memory, Some("ab"), 0, 4),
        Ok(2)
    );
    assert_eq!(contents(&memory), b"ab..".to_vec());
}

#[test]
fn returning_a_string_can_fail() {
    let mut instance = WasmDomInstance::new(16);
    let mut memory = memory(b"....");
    assert_eq!(
        instance.return_string(&mut memory, "ab", 0, 4),
        Err(WasmAbiStatus::MemoryDetached)
    );
    // One that does not fit needs no memory yet.
    assert_eq!(instance.return_string(&mut memory, "abcde", 0, 4), Ok(5));
    instance.set_memory(Some(1));
    assert_eq!(
        instance.return_string(&mut memory, "ab", 3, 4),
        Err(WasmAbiStatus::OutOfBounds)
    );
    assert_eq!(
        instance.return_string(&mut memory, "ab", 0, -1),
        Err(WasmAbiStatus::OutOfBounds)
    );
    assert_eq!(contents(&memory), b"....".to_vec());
}
