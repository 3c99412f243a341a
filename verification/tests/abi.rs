use wasm_dom::error::Error;
use wasm_dom::wasm_abi::{
    checked_range, error_message, handle_from_abi, pack_handle, plan_string_write, unpack_handle,
    StringWrite, WasmAbiStatus, MAX_GENERATION, MAX_INDEX, MIN_GENERATION, NULL_HANDLE,
};

#[test]
fn null_handle_is_unrepresentable_by_a_live_slot() {
    // The whole point of starting generations at 1: slot 0 of a fresh table must not
    // produce a handle indistinguishable from null.
    let first = pack_handle(0, MIN_GENERATION).expect("slot 0 gen 1 is representable");
    assert_ne!(first, NULL_HANDLE);
    assert!(unpack_handle(NULL_HANDLE).is_none());
}

#[test]
fn packs_and_unpacks_at_the_extremes() {
    for (index, generation) in [
        (0, MIN_GENERATION),
        (MAX_INDEX, MIN_GENERATION),
        (0, MAX_GENERATION),
        (MAX_INDEX, MAX_GENERATION),
        (12_345, 678),
    ] {
        let handle = pack_handle(index, generation).expect("in range");
        assert_eq!(unpack_handle(handle), Some((index, generation)));
    }
}

#[test]
fn every_live_handle_fits_in_a_positive_i32() {
    let widest = pack_handle(MAX_INDEX, MAX_GENERATION).expect("in range");
    assert!(widest <= i32::MAX as u32);
    assert!(i32::try_from(widest).expect("fits") > 0);
}

#[test]
fn rejects_out_of_range_components() {
    assert_eq!(pack_handle(MAX_INDEX + 1, MIN_GENERATION), None);
    assert_eq!(pack_handle(0, MAX_GENERATION + 1), None);
    // Generation 0 is reserved so that no live handle can equal NULL_HANDLE.
    assert_eq!(pack_handle(0, 0), None);
}

#[test]
fn rejects_forged_handles() {
    // Bit 31 set: the host never produces these.
    assert!(unpack_handle(0x8000_0000).is_none());
    assert!(unpack_handle(u32::MAX).is_none());
    // Generation field zero but index non-zero: also unproducible.
    assert!(unpack_handle(1).is_none());
    assert!(unpack_handle(MAX_INDEX).is_none());
}

#[test]
fn negative_abi_handles_are_rejected() {
    assert_eq!(handle_from_abi(-1), Err(WasmAbiStatus::InvalidHandle));
    assert_eq!(handle_from_abi(i32::MIN), Err(WasmAbiStatus::InvalidHandle));
    assert_eq!(handle_from_abi(0), Ok(NULL_HANDLE));
}

#[test]
fn bounds_check_accepts_legal_ranges() {
    assert_eq!(checked_range(0, 4, 8), Ok(0..4));
    assert_eq!(checked_range(4, 4, 8), Ok(4..8));
    // A zero-length range at the very end of memory is legal.
    assert_eq!(checked_range(8, 0, 8), Ok(8..8));
    assert_eq!(checked_range(0, 0, 0), Ok(0..0));
}

#[test]
fn bounds_check_rejects_adversarial_inputs() {
    for (ptr, len) in [
        (-1, 0),
        (0, -1),
        (i32::MIN, 0),
        (0, i32::MIN),
        (i32::MIN, i32::MIN),
        // Would overflow if the end offset were computed in i32 or u32.
        (i32::MAX, i32::MAX),
        (i32::MAX, 1),
        // One byte past the end.
        (8, 1),
        (0, 9),
    ] {
        assert_eq!(
            checked_range(ptr, len, 8),
            Err(WasmAbiStatus::OutOfBounds),
            "ptr {ptr}, len {len} should be rejected",
        );
    }
}

#[test]
fn bounds_check_computes_the_end_offset_without_overflow() {
    // `i32::MAX + i32::MAX` overflows an i32, so computing the end offset in the
    // argument type would panic in debug builds and wrap in release ones. Given a
    // memory large enough to hold it, this range is genuinely valid, and accepting it
    // intact is what proves the sum is widened first.
    let widest_end = (i32::MAX as usize) * 2;
    assert_eq!(
        checked_range(i32::MAX, i32::MAX, u32::MAX as usize),
        Ok(i32::MAX as usize..widest_end),
    );
    // The same range against a memory one byte too small is still rejected, so the
    // widening has not simply disabled the check.
    assert_eq!(
        checked_range(i32::MAX, i32::MAX, widest_end - 1),
        Err(WasmAbiStatus::OutOfBounds),
    );
}

#[test]
fn string_write_fits_when_capacity_suffices() {
    assert_eq!(plan_string_write(5, 8), Ok(StringWrite::Fits { len: 5 }),);
    // Exactly filling the buffer counts as fitting.
    assert_eq!(plan_string_write(8, 8), Ok(StringWrite::Fits { len: 8 }),);
    // An empty string fits any buffer, including a zero-sized one, and is reported as
    // length 0 — which the module must distinguish from the null status, -1.
    assert_eq!(plan_string_write(0, 0), Ok(StringWrite::Fits { len: 0 }),);
}

#[test]
fn string_write_stashes_when_capacity_is_short() {
    assert_eq!(plan_string_write(9, 8), Ok(StringWrite::Stash { len: 9 }),);
    // Both outcomes report the same length on the wire; only the host's behaviour
    // differs.
    assert_eq!(plan_string_write(9, 8).unwrap().to_abi(), 9);
    assert_eq!(plan_string_write(5, 8).unwrap().to_abi(), 5);
}

#[test]
fn string_write_rejects_impossible_sizes() {
    assert_eq!(plan_string_write(0, -1), Err(WasmAbiStatus::OutOfBounds));
    assert_eq!(
        plan_string_write(i32::MAX as usize + 1, i32::MAX),
        Err(WasmAbiStatus::OutOfBounds),
    );
}

#[test]
fn null_is_distinguishable_from_every_error() {
    assert!(!WasmAbiStatus::Null.is_error());
    assert!(WasmAbiStatus::NotFound.is_error());
    assert!(WasmAbiStatus::InvalidHandle.is_error());
}

#[test]
fn status_codes_are_negative_and_distinct() {
    // Success is any non-negative value, so no status may collide with one, and no two
    // statuses may share a code.
    let all = [
        WasmAbiStatus::Null,
        WasmAbiStatus::IndexSize,
        WasmAbiStatus::NotFound,
        WasmAbiStatus::HierarchyRequest,
        WasmAbiStatus::WrongDocument,
        WasmAbiStatus::InvalidCharacter,
        WasmAbiStatus::NotSupported,
        WasmAbiStatus::InUseAttribute,
        WasmAbiStatus::InvalidState,
        WasmAbiStatus::Syntax,
        WasmAbiStatus::Namespace,
        WasmAbiStatus::InvalidAccess,
        WasmAbiStatus::Security,
        WasmAbiStatus::Network,
        WasmAbiStatus::Abort,
        WasmAbiStatus::Timeout,
        WasmAbiStatus::InvalidNodeType,
        WasmAbiStatus::DataClone,
        WasmAbiStatus::TransactionInactive,
        WasmAbiStatus::ReadOnly,
        WasmAbiStatus::Version,
        WasmAbiStatus::NoModificationAllowed,
        WasmAbiStatus::QuotaExceeded,
        WasmAbiStatus::TypeMismatch,
        WasmAbiStatus::InvalidModification,
        WasmAbiStatus::NotReadable,
        WasmAbiStatus::Data,
        WasmAbiStatus::Operation,
        WasmAbiStatus::NotAllowed,
        WasmAbiStatus::Encoding,
        WasmAbiStatus::Constraint,
        WasmAbiStatus::Type,
        WasmAbiStatus::Range,
        WasmAbiStatus::JsFailed,
        WasmAbiStatus::NullHandle,
        WasmAbiStatus::InvalidHandle,
        WasmAbiStatus::StaleHandle,
        WasmAbiStatus::WrongType,
        WasmAbiStatus::OutOfBounds,
        WasmAbiStatus::InvalidUtf8,
        WasmAbiStatus::InvalidEnum,
        WasmAbiStatus::TooManyHandles,
        WasmAbiStatus::MemoryDetached,
        WasmAbiStatus::Reentrancy,
        WasmAbiStatus::NotEnabled,
        WasmAbiStatus::InstanceTornDown,
        WasmAbiStatus::InvalidScope,
    ];
    let mut codes: Vec<i32> = all.iter().map(|status| status.to_abi()).collect();
    assert!(codes.iter().all(|code| *code < 0));
    let total = codes.len();
    codes.sort_unstable();
    codes.dedup();
    assert_eq!(codes.len(), total, "two statuses share a code");
}

#[test]
fn dom_errors_map_to_their_own_codes() {
    // Carrying a message on purpose: the status is derived from the variant alone, so
    // passing one proves the mapping ignores it rather than only ever seeing `None`.
    assert_eq!(
        WasmAbiStatus::from(&Error::NotFound(Some("gone".to_owned()))),
        WasmAbiStatus::NotFound,
    );
    assert_eq!(
        WasmAbiStatus::from(&Error::HierarchyRequest(Some("cycle".to_owned()))),
        WasmAbiStatus::HierarchyRequest,
    );
    assert_eq!(
        WasmAbiStatus::from(&Error::JSFailed),
        WasmAbiStatus::JsFailed
    );
}

#[test]
fn error_message_falls_back_to_the_exception_name() {
    assert_eq!(error_message(&Error::NotFound(None)), "NotFoundError");
    assert_eq!(
        error_message(&Error::NotFound(Some("no such node".to_owned()))),
        "no such node",
    );
}
