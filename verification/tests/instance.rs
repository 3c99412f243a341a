use wasm_dom::error::Error;
use wasm_dom::handles::WasmDomHandles;
use wasm_dom::instance::{ListenerEntry, WasmDomInstance};
use wasm_dom::wasm_abi::{pack_handle, WasmAbiStatus, MAX_GENERATION, MIN_GENERATION};
use wasm_dom::wasm_handles::{allocated_bytes, HandleTable};

const TARGET: u64 = 60;

fn entry(callback_id: i32, event_type: &str, capture: bool, listener: u64) -> ListenerEntry {
    ListenerEntry {
        target: TARGET,
        callback_id,
        event_type: event_type.to_owned(),
        capture,
        listener,
    }
}

#[test]
fn handles_resolve_to_their_objects() {
    let mut handles = WasmDomHandles::new(8);
    let node = handles.insert(Some(70)).unwrap();
    assert_eq!(handles.resolve(node), Ok(70));
    assert_eq!(handles.get(node, |object| object == 70), Ok(70));
    assert_eq!(
        handles.get(node, |_| false),
        Err(WasmAbiStatus::WrongType)
    );
    assert_eq!(handles.get(0, |_| true), Err(WasmAbiStatus::NullHandle));
    assert_eq!(
        handles.get(pack_handle(5, MIN_GENERATION).unwrap(), |_| true),
        Err(WasmAbiStatus::InvalidHandle)
    );
    handles.remove(node).unwrap();
    assert_eq!(handles.get(node, |_| true), Err(WasmAbiStatus::StaleHandle));
    assert_eq!(handles.remove(node), Err(WasmAbiStatus::StaleHandle));
}

#[test]
fn a_handle_that_was_never_minted_is_invalid() {
    let mut table: HandleTable<&str> = HandleTable::new(8);
    let first = table.insert("a").unwrap();
    let next = pack_handle(0, MIN_GENERATION + 1).unwrap();
    // Its slot is occupied, vacant, occupied by the next generation, and cleared.
    assert_eq!(table.get(next), Err(WasmAbiStatus::InvalidHandle));
    assert_eq!(table.remove(next), Err(WasmAbiStatus::InvalidHandle));
    table.remove(first).unwrap();
    assert_eq!(table.get(next), Err(WasmAbiStatus::InvalidHandle));
    assert_eq!(table.remove(next), Err(WasmAbiStatus::InvalidHandle));
    assert_eq!(table.get(first), Err(WasmAbiStatus::StaleHandle));
    assert_eq!(table.insert("b"), Ok(next));
    assert_eq!(table.get(next), Ok(&"b"));
    let later = pack_handle(0, MIN_GENERATION + 2).unwrap();
    assert_eq!(table.get(later), Err(WasmAbiStatus::InvalidHandle));
    table.clear();
    assert_eq!(table.get(first), Err(WasmAbiStatus::StaleHandle));
    assert_eq!(table.get(next), Err(WasmAbiStatus::StaleHandle));
    assert_eq!(table.get(later), Err(WasmAbiStatus::InvalidHandle));
}

#[test]
fn a_handle_resolves_from_its_minting_to_its_release() {
    let mut table: HandleTable<u32> = HandleTable::new(8);
    let kept = table.insert(1).unwrap();
    let outer = table.enter_scope();
    let in_outer = table.insert(2).unwrap();
    let inner = table.enter_scope();
    let in_inner = table.insert(3).unwrap();
    table.remove(in_outer).unwrap();
    // The slot is used again inside the inner scope, so the new handle ends with that.
    let reused = table.insert(4).unwrap();
    assert_eq!(table.get(reused), Ok(&4));
    table.exit_scope(inner).unwrap();
    for released in [in_outer, in_inner, reused] {
        assert_eq!(table.get(released), Err(WasmAbiStatus::StaleHandle));
    }
    assert_eq!(table.get(kept), Ok(&1));
    table.exit_scope(outer).unwrap();
    assert_eq!(table.get(kept), Ok(&1));
    table.clear();
    for released in [kept, in_outer, in_inner, reused] {
        assert_eq!(table.get(released), Err(WasmAbiStatus::StaleHandle));
    }
}

#[test]
fn the_handles_of_a_retired_slot_stay_stale() {
    let mut table: HandleTable<u32> = HandleTable::new(8);
    let first = table.insert(0).unwrap();
    let mut last = first;
    for _ in MIN_GENERATION..MAX_GENERATION {
        table.remove(last).unwrap();
        last = table.insert(0).unwrap();
    }
    assert_eq!(pack_handle(0, MAX_GENERATION), Some(last));
    table.remove(last).unwrap();
    let fresh = table.insert(1).unwrap();
    assert_eq!(pack_handle(1, MIN_GENERATION), Some(fresh));
    assert_eq!(table.get(first), Err(WasmAbiStatus::StaleHandle));
    assert_eq!(table.get(last), Err(WasmAbiStatus::StaleHandle));
}

#[test]
fn a_null_reflector_is_stale() {
    let mut handles = WasmDomHandles::new(8);
    let handle = handles.insert(None).unwrap();
    assert_eq!(handles.len(), 1);
    assert_eq!(handles.resolve(handle), Err(WasmAbiStatus::StaleHandle));
    assert!(!handles.same_object(handle, handle));
    assert_eq!(handles.remove(handle), Ok(()));
}

#[test]
fn the_same_object_under_two_handles() {
    let mut handles = WasmDomHandles::new(8);
    let first = handles.insert(Some(7)).unwrap();
    let second = handles.insert(Some(7)).unwrap();
    let other = handles.insert(Some(8)).unwrap();
    assert_ne!(first, second);
    assert!(handles.same_object(first, second));
    assert!(handles.same_object(second, first));
    assert!(handles.same_object(first, first));
    assert!(!handles.same_object(first, other));
    handles.remove(second).unwrap();
    assert!(!handles.same_object(first, second));
    assert!(!handles.same_object(second, second));
    assert!(!handles.same_object(0, 0));
}

#[test]
fn object_arguments_are_checked() {
    let mut instance = WasmDomInstance::new(8);
    let handle = instance.return_object(Some(40)).unwrap();
    assert_eq!(instance.object_arg(handle), Ok(40));
    assert_eq!(instance.object_arg(0), Err(WasmAbiStatus::NullHandle));
    assert_eq!(instance.object_arg(-5), Err(WasmAbiStatus::InvalidHandle));
    assert_eq!(instance.handle(handle, |object| object == 40), Ok(40));
    assert_eq!(
        instance.handle(handle, |object| object != 40),
        Err(WasmAbiStatus::WrongType)
    );
    assert_eq!(instance.handle(0, |_| true), Err(WasmAbiStatus::NullHandle));
    assert_eq!(instance.nullable_handle(0, |_| true), Ok(None));
    assert_eq!(instance.nullable_handle(handle, |_| true), Ok(Some(40)));
    assert_eq!(
        instance.nullable_handle(handle, |_| false),
        Err(WasmAbiStatus::WrongType)
    );
    assert_eq!(
        instance.nullable_handle(-1, |_| true),
        Err(WasmAbiStatus::InvalidHandle)
    );
}

#[test]
fn objects_are_returned_as_handles() {
    let mut instance = WasmDomInstance::new(1);
    assert_eq!(instance.return_nullable_object(None), Ok(-1));
    let handle = instance.return_nullable_object(Some(Some(3))).unwrap();
    assert!(handle > 0);
    assert_eq!(
        instance.return_object(Some(4)),
        Err(WasmAbiStatus::TooManyHandles)
    );
    assert_eq!(
        instance.return_nullable_object(Some(Some(4))),
        Err(WasmAbiStatus::TooManyHandles)
    );
}

#[test]
fn listeners_are_handed_back_verbatim() {
    let mut instance = WasmDomInstance::new(8);
    instance.remember_listener(entry(1, "click", false, 100));
    instance.remember_listener(entry(1, "click", true, 101));
    instance.remember_listener(entry(1, "input", false, 102));
    instance.remember_listener(entry(1, "click", false, 103));

    assert_eq!(instance.forget_listener(TARGET, 2, "click", false), None);
    assert_eq!(instance.forget_listener(TARGET, 1, "keydown", false), None);
    // The oldest registration goes first, and each goes once.
    assert_eq!(instance.forget_listener(TARGET, 1, "click", false), Some(100));
    assert_eq!(instance.forget_listener(TARGET, 1, "click", false), Some(103));
    assert_eq!(instance.forget_listener(TARGET, 1, "click", false), None);
    assert_eq!(instance.forget_listener(TARGET, 1, "click", true), Some(101));
    assert_eq!(instance.forget_listener(TARGET, 1, "input", false), Some(102));
}

#[test]
fn listeners_of_other_targets_are_left_alone() {
    let mut instance = WasmDomInstance::new(8);
    instance.remember_listener(entry(7, "click", false, 100));
    instance.remember_listener(ListenerEntry {
        target: TARGET + 1,
        ..entry(7, "click", false, 101)
    });
    assert_eq!(instance.forget_listener(TARGET + 2, 7, "click", false), None);
    assert_eq!(
        instance.forget_listener(TARGET + 1, 7, "click", false),
        Some(101)
    );
    assert_eq!(instance.forget_listener(TARGET + 1, 7, "click", false), None);
    assert_eq!(instance.forget_listener(TARGET, 7, "click", false), Some(100));
}

#[test]
fn calls_are_nested_up_to_the_limit() {
    let mut instance = WasmDomInstance::new(8);
    assert_eq!(instance.enter_call(2), Ok(()));
    assert_eq!(instance.enter_call(2), Ok(()));
    assert_eq!(instance.enter_call(2), Err(WasmAbiStatus::Reentrancy));
    instance.exit_call();
    assert_eq!(instance.enter_call(2), Ok(()));
    assert_eq!(instance.enter_call(0), Err(WasmAbiStatus::Reentrancy));
}

#[test]
fn a_mismatched_exit_does_not_wrap() {
    let mut instance = WasmDomInstance::new(8);
    instance.exit_call();
    instance.exit_call();
    assert_eq!(instance.enter_call(1), Ok(()));
    assert_eq!(instance.enter_call(1), Err(WasmAbiStatus::Reentrancy));
}

#[test]
fn failures_are_recorded_with_code_and_message() {
    let mut instance = WasmDomInstance::new(8);
    assert_eq!(instance.last_error_code(), 0);
    assert_eq!(instance.take_error(), None);

    let status = instance.fail(&Error::NotFound(Some("no such node".to_owned())));
    assert_eq!(status, WasmAbiStatus::NotFound);
    assert_eq!(instance.last_error_code(), -3);
    assert_eq!(instance.last_error_code(), -3);
    assert_eq!(
        instance.take_error(),
        Some((-3, "no such node".to_owned()))
    );
    assert_eq!(instance.last_error_code(), 0);

    assert_eq!(
        instance.fail_abi(WasmAbiStatus::StaleHandle, "gone"),
        WasmAbiStatus::StaleHandle
    );
    let (code, message) = instance.take_error().unwrap();
    assert_eq!((code, message.as_str()), (-102, "gone"));
    instance.restore_error(code, message);
    assert_eq!(instance.last_error_code(), -102);
}

#[test]
fn a_result_is_noted_if_it_is_a_failure() {
    let mut instance = WasmDomInstance::new(8);
    assert_eq!(instance.note(Ok(5)), Ok(5));
    assert_eq!(instance.last_error_code(), 0);
    assert_eq!(
        instance.note(Err(WasmAbiStatus::NullHandle)),
        Err(WasmAbiStatus::NullHandle)
    );
    assert_eq!(instance.note(Ok(5)), Ok(5));
    assert_eq!(
        instance.take_error(),
        Some((-100, "the handle is null".to_owned()))
    );
    instance.note(Err(WasmAbiStatus::Operation)).unwrap_err();
    assert_eq!(
        instance.take_error(),
        Some((-28, "the operation failed".to_owned()))
    );
}

#[test]
fn messages_that_are_not_utf8_are_patched_up() {
    let mut instance = WasmDomInstance::new(8);
    instance.fail(&Error::Type(b"bad \xff byte".to_vec()));
    assert_eq!(
        instance.take_error(),
        Some((-40, "bad \u{fffd} byte".to_owned()))
    );
    instance.fail(&Error::Range(b"plain".to_vec()));
    assert_eq!(instance.take_error(), Some((-41, "plain".to_owned())));
    instance.fail(&Error::JSFailed);
    assert_eq!(
        instance.take_error(),
        Some((-42, "a JavaScript exception is pending".to_owned()))
    );
    instance.fail(&Error::QuotaExceeded {
        quota: None,
        requested: Some(1),
    });
    assert_eq!(
        instance.take_error(),
        Some((-23, "QuotaExceededError".to_owned()))
    );
}

#[test]
fn tearing_down_twice_is_tearing_down_once() {
    let mut instance = WasmDomInstance::new(8);
    let handle = instance.return_object(Some(1)).unwrap();
    instance.handles_mut().enter_scope();
    instance.set_memory(Some(2));
    instance.set_dispatcher(Some(3));
    instance.remember_listener(entry(1, "click", false, 4));
    instance.stash_string(b"left over".to_vec());
    instance.fail(&Error::Abort(None));
    assert!(!instance.is_torn_down());

    for _ in 0..2 {
        instance.tear_down();
        assert!(instance.is_torn_down());
        assert_eq!(instance.handles().len(), 0);
        assert_eq!(instance.handles().scope_depth(), 0);
        assert_eq!(
            instance.object_arg(handle),
            Err(WasmAbiStatus::StaleHandle)
        );
        assert_eq!(instance.dispatcher(), None);
        assert_eq!(instance.memory(), Some(2));
        assert_eq!(instance.forget_listener(TARGET, 1, "click", false), None);
        assert_eq!(instance.take_stashed_string(), None);
        assert_eq!(instance.last_error_code(), 0);
    }
}

#[test]
fn everything_an_instance_holds_is_kept_alive() {
    let mut instance = WasmDomInstance::new(8);
    let dropped = instance.return_object(Some(9)).unwrap();
    instance.return_object(Some(10)).unwrap();
    instance.return_object(None).unwrap();
    instance.set_memory(Some(11));
    instance.set_dispatcher(Some(12));
    instance.remember_listener(entry(1, "click", false, 13));
    instance.handles_mut().remove(dropped as u32).unwrap();
    let mut roots = instance.roots();
    roots.sort_unstable();
    assert_eq!(roots, vec![10, 11, 12, 13]);
}

#[test]
fn a_table_accounts_for_what_it_allocated() {
    let mut table: HandleTable<u64> = HandleTable::new(100);
    assert_eq!(table.size_of(), Some(0));
    for i in 0..10 {
        table.insert(i).unwrap();
    }
    let slots = table.size_of().unwrap();
    assert!(slots >= allocated_bytes::<u64>(10, 0, 0, 0).unwrap());
    table.enter_scope();
    let handle = table.insert(11).unwrap();
    table.remove(handle).unwrap();
    assert!(table.size_of().unwrap() >= allocated_bytes::<u64>(11, 1, 1, 1).unwrap());
    assert!(table.size_of().unwrap() > slots);

    assert_eq!(allocated_bytes::<u64>(0, 3, 2, 0), Some(20));
    assert_eq!(allocated_bytes::<u64>(0, usize::MAX, 0, 0), None);
    assert_eq!(allocated_bytes::<u64>(0, usize::MAX / 8, usize::MAX / 8, 1), None);
}
