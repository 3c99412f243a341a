use wasm_dom::listener::{fire, make_listener, will_dispatch, Firing, ListenerSlots};
use wasm_dom::registry::InstanceRegistry;
use wasm_dom::servo_wasm_dom::{bind_dispatcher, create_instance, handle_count, tear_down};
use wasm_dom::wasm_abi::WasmAbiStatus;

const SLOTS: ListenerSlots = ListenerSlots {
    instance: 0,
    callback: 17,
};

fn registry() -> InstanceRegistry {
    let mut registry = InstanceRegistry::new();
    create_instance(&mut registry, 10, 4).unwrap();
    bind_dispatcher(&mut registry, 0, Some(77)).unwrap();
    registry
}

#[test]
fn a_listener_carries_its_instance_and_its_handler() {
    assert_eq!(make_listener(0, 17), Some(SLOTS));
    assert_eq!(
        make_listener(i32::MAX as usize, -3),
        Some(ListenerSlots {
            instance: i32::MAX,
            callback: -3
        })
    );
    assert_eq!(make_listener(i32::MAX as usize + 1, 1), None);
}

#[test]
fn a_fired_event_is_dispatched_in_a_scope() {
    let mut registry = registry();
    let call = match fire(&mut registry, SLOTS, Some(Some(5)), 8) {
        Firing::Dispatch(call) => call,
        _ => panic!("the event is not dispatched"),
    };
    assert_eq!(call.dispatcher, 77);
    assert_eq!(call.callback_id, 17);
    assert_eq!(call.scope, 1);
    assert!(call.event_handle > 0);
    assert_eq!(
        registry.registered_mut(0).object_arg(call.event_handle),
        Ok(5)
    );

    // What the module allocates meanwhile goes with the scope.
    let extra = registry.registered_mut(0).return_object(Some(6)).unwrap();
    assert_eq!(handle_count(&registry, 0).ok(), Some(2));
    assert!(call.finish(&mut registry, true));
    assert_eq!(handle_count(&registry, 0).ok(), Some(0));
    assert_eq!(
        registry.registered_mut(0).object_arg(extra),
        Err(WasmAbiStatus::StaleHandle)
    );
}

#[test]
fn what_was_held_before_survives_an_event() {
    let mut registry = registry();
    let kept = registry.registered_mut(0).return_object(Some(1)).unwrap();
    let dropped = registry.registered_mut(0).return_object(Some(2)).unwrap();
    let call = match fire(&mut registry, SLOTS, Some(Some(5)), 8) {
        Firing::Dispatch(call) => call,
        _ => panic!("the event is not dispatched"),
    };
    registry
        .registered_mut(0)
        .handles_mut()
        .remove(dropped as u32)
        .unwrap();
    let nested = registry.registered_mut(0).handles_mut().enter_scope();
    registry.registered_mut(0).return_object(Some(6)).unwrap();
    registry
        .registered_mut(0)
        .handles_mut()
        .exit_scope(nested)
        .unwrap();
    assert!(!call.finish(&mut registry, false));
    assert_eq!(handle_count(&registry, 0).ok(), Some(1));
    assert_eq!(registry.registered_mut(0).object_arg(kept), Ok(1));
    assert_eq!(registry.registered_mut(0).handles().scope_depth(), 0);
}

#[test]
fn a_scope_left_open_fails_closed() {
    let mut registry = registry();
    let call = match fire(&mut registry, SLOTS, Some(Some(5)), 1) {
        Firing::Dispatch(call) => call,
        _ => panic!("the event is not dispatched"),
    };
    registry.registered_mut(0).handles_mut().enter_scope();
    assert!(call.finish(&mut registry, true));
    assert_eq!(handle_count(&registry, 0).ok(), Some(1));
    assert_eq!(registry.registered_mut(0).handles().scope_depth(), 2);
    // The depth of calls is restored all the same.
    assert!(matches!(
        fire(&mut registry, SLOTS, None, 1),
        Firing::Dispatch(_)
    ));
}

#[test]
fn an_event_without_a_handle_is_zero() {
    let mut registry = registry();
    match fire(&mut registry, SLOTS, None, 8) {
        Firing::Dispatch(call) => assert_eq!(call.event_handle, 0),
        _ => panic!("the event is not dispatched"),
    }
    for _ in 0..4 {
        registry.registered_mut(0).return_object(Some(9)).unwrap();
    }
    match fire(&mut registry, SLOTS, Some(Some(5)), 8) {
        Firing::Dispatch(call) => {
            assert_eq!(call.event_handle, 0);
            assert_eq!(call.scope, 2);
        }
        _ => panic!("the event is not dispatched"),
    }
}

#[test]
fn listeners_that_cannot_run_do_nothing() {
    let mut registry = InstanceRegistry::new();
    create_instance(&mut registry, 10, 4).unwrap();
    assert_eq!(fire(&mut registry, SLOTS, None, 8), Firing::NoDispatcher);
    assert!(!will_dispatch(&registry, SLOTS, 8));
    assert_eq!(registry.registered_mut(0).last_error_code(), 0);
    bind_dispatcher(&mut registry, 0, Some(77)).unwrap();
    assert_eq!(fire(&mut registry, SLOTS, None, 0), Firing::TooDeep);
    assert!(!will_dispatch(&registry, SLOTS, 0));
    assert!(will_dispatch(&registry, SLOTS, 1));
    for instance in [-1, 1, i32::MAX] {
        let slots = ListenerSlots {
            instance,
            callback: 1,
        };
        assert_eq!(fire(&mut registry, slots, None, 8), Firing::InstanceGone);
        assert!(!will_dispatch(&registry, slots, 8));
    }
    assert_eq!(registry.registered_mut(0).handles().scope_depth(), 0);
    tear_down(&mut registry, 0).unwrap();
    assert_eq!(fire(&mut registry, SLOTS, None, 8), Firing::InstanceGone);
}

#[test]
fn events_are_nested_up_to_the_limit() {
    let mut registry = registry();
    let outer = match fire(&mut registry, SLOTS, None, 2) {
        Firing::Dispatch(call) => call,
        _ => panic!("the event is not dispatched"),
    };
    let inner = match fire(&mut registry, SLOTS, None, 2) {
        Firing::Dispatch(call) => call,
        _ => panic!("the event is not dispatched"),
    };
    assert_eq!(fire(&mut registry, SLOTS, None, 2), Firing::TooDeep);
    inner.finish(&mut registry, true);
    outer.finish(&mut registry, true);
    assert_eq!(registry.registered_mut(0).handles().scope_depth(), 0);
    assert!(matches!(
        fire(&mut registry, SLOTS, None, 1),
        Firing::Dispatch(_)
    ));
}

#[test]
fn a_listener_refused_at_the_limit_leaves_a_failure() {
    let mut registry = registry();
    let call = match fire(&mut registry, SLOTS, Some(Some(5)), 1) {
        Firing::Dispatch(call) => call,
        _ => panic!("the event is not dispatched"),
    };
    assert_eq!(registry.registered_mut(0).last_error_code(), 0);
    assert_eq!(fire(&mut registry, SLOTS, Some(Some(6)), 1), Firing::TooDeep);
    let instance = registry.registered_mut(0);
    assert_eq!(instance.last_error_code(), -109);
    assert_eq!(instance.handles().len(), 1);
    assert_eq!(instance.handles().scope_depth(), 1);
    assert_eq!(instance.depth(), 1);
    assert_eq!(
        instance.take_error(),
        Some((-109, "the calls are nested too deeply".to_owned()))
    );
    assert!(call.finish(&mut registry, true));
    assert_eq!(registry.registered_mut(0).depth(), 0);
}

#[test]
fn an_instance_torn_down_by_its_own_event() {
    let mut registry = registry();
    let call = match fire(&mut registry, SLOTS, Some(Some(5)), 2) {
        Firing::Dispatch(call) => call,
        _ => panic!("the event is not dispatched"),
    };
    tear_down(&mut registry, 0).unwrap();
    assert!(call.finish(&mut registry, true));
    assert_eq!(handle_count(&registry, 0).ok(), Some(0));
}
