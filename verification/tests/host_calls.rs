use wasm_dom::bridge::{
    call_needs, decode_arguments, decode_i32, encode_result, wasm_dom_host_call, ArgValue,
    CallNeeds, HostStep, MemberFailure, MAX_ARGS,
};
use wasm_dom::error::Error;
use wasm_dom::event_target::{
    listener_options, ListenerOptions, OPTION_CAPTURE, OPTION_ONCE, OPTION_PASSIVE,
};
use wasm_dom::host_functions::RealmGlobal;
use wasm_dom::imports::{all_imports, core_imports, import_at, HostFunction, MemberImport};
use wasm_dom::memory::{ArrayBuffer, BufferProperty};
use wasm_dom::registry::InstanceRegistry;
use wasm_dom::servo_wasm_dom::{bind_memory, create_instance, tear_down};
use wasm_dom::wasm_abi::WasmAbiStatus;

const ABI_VERSION: i32 = 0;
const DOCUMENT: i32 = 1;
const HANDLE_DROP: i32 = 2;
const HANDLE_EQ: i32 = 3;
const SCOPE_ENTER: i32 = 4;
const SCOPE_EXIT: i32 = 5;
const HANDLE_COUNT: i32 = 6;
const STRING_READ: i32 = 7;
const ERROR_CODE: i32 = 8;
const ERROR_MESSAGE: i32 = 9;
const ADD_LISTENER: i32 = 10;
const REMOVE_LISTENER: i32 = 11;

struct Host {
    registry: InstanceRegistry,
    memory: BufferProperty,
    members: Vec<MemberImport>,
}

impl Host {
    fn new(size: usize) -> Self {
        let mut registry = InstanceRegistry::new();
        create_instance(&mut registry, 10, 100).unwrap();
        bind_memory(&mut registry, 0, Some(500)).unwrap();
        Host {
            registry,
            memory: BufferProperty::Object(ArrayBuffer {
                detached: false,
                bytes: Some(vec![b'.'; size]),
            }),
            members: vec![
                MemberImport {
                    module: "servo:dom/node",
                    name: "append-child",
                    nargs: 2,
                },
                MemberImport {
                    module: "servo:dom/node",
                    name: "far-too-many",
                    nargs: 9,
                },
            ],
        }
    }

    fn step(&mut self, instance: i32, entry: i32, args: &[i32]) -> HostStep {
        let args: Vec<ArgValue> = args.iter().map(|value| ArgValue::Int32(*value)).collect();
        wasm_dom_host_call(
            &mut self.registry,
            &mut self.memory,
            &self.members,
            instance,
            entry,
            &args,
        )
    }

    fn needs(&self, instance: i32, entry: i32, args: &[i32]) -> CallNeeds {
        let args: Vec<ArgValue> = args.iter().map(|value| ArgValue::Int32(*value)).collect();
        call_needs(&self.registry, &self.members, instance, entry, &args)
    }

    fn call(&mut self, entry: i32, args: &[i32]) -> i32 {
        match self.step(0, entry, args) {
            HostStep::Return(value) => value,
            _ => panic!("the call is not over"),
        }
    }

    fn document(&mut self, global: RealmGlobal) -> i32 {
        match self.step(0, DOCUMENT, &[]) {
            HostStep::FindDocument(call) => call.answer(&mut self.registry, global),
            _ => panic!("the document is not asked for"),
        }
    }

    fn text(&self) -> Vec<u8> {
        match &self.memory {
            BufferProperty::Object(ArrayBuffer {
                bytes: Some(bytes), ..
            }) => bytes.clone(),
            _ => panic!("the memory has no bytes"),
        }
    }

    fn fill(&mut self, text: &[u8]) {
        wasm_dom::memory::write(&mut self.memory, 0, text).unwrap();
    }
}

#[test]
fn arguments_are_decoded() {
    assert_eq!(decode_i32(ArgValue::Int32(-7)), Ok(-7));
    assert_eq!(decode_i32(ArgValue::Undefined), Err(WasmAbiStatus::Type));
    assert_eq!(decode_i32(ArgValue::Other), Err(WasmAbiStatus::Type));
    for value in [f64::NAN, f64::INFINITY, f64::NEG_INFINITY, -f64::NAN] {
        assert_eq!(
            decode_i32(ArgValue::Double(value.to_bits())),
            Err(WasmAbiStatus::Type)
        );
    }
}

#[test]
fn doubles_are_truncated() {
    let mut values = vec![
        0.0,
        -0.0,
        0.5,
        -0.5,
        0.999_999_999,
        1.0,
        -1.0,
        1.5,
        -1.5,
        2.0,
        3.75,
        1e9,
        -1e9,
        2_147_483_647.0,
        2_147_483_647.5,
        2_147_483_648.0,
        -2_147_483_648.0,
        -2_147_483_648.9,
        -2_147_483_649.0,
        4_294_967_296.0,
        1e300,
        -1e300,
        f64::MIN_POSITIVE,
        5e-324,
        f64::MAX,
        f64::MIN,
        f64::EPSILON,
    ];
    let mut power = 1.0;
    for _ in 0..70 {
        values.push(power);
        values.push(-power);
        values.push(power * 1.999_999);
        values.push(power - 0.25);
        values.push(0.25 - power);
        power *= 2.0;
    }
    for value in values {
        assert_eq!(
            decode_i32(ArgValue::Double(value.to_bits())),
            Ok(value as i32),
            "{value}"
        );
    }
}

#[test]
fn too_few_or_too_many_arguments_are_refused() {
    let one = [ArgValue::Int32(1)];
    assert_eq!(decode_arguments(&one, 0), Ok(Vec::new()));
    assert_eq!(decode_arguments(&one, 1), Ok(vec![1]));
    assert_eq!(decode_arguments(&one, 2), Err(WasmAbiStatus::Type));
    let many = [ArgValue::Int32(3); 9];
    assert_eq!(decode_arguments(&many, MAX_ARGS), Ok(vec![3; 8]));
    assert_eq!(decode_arguments(&many, 9), Err(WasmAbiStatus::Type));
    // Only the arguments that count are decoded.
    let mixed = [ArgValue::Int32(1), ArgValue::Other];
    assert_eq!(decode_arguments(&mixed, 1), Ok(vec![1]));
    assert_eq!(decode_arguments(&mixed, 2), Err(WasmAbiStatus::Type));
}

#[test]
fn results_are_encoded() {
    assert_eq!(encode_result(Ok(5)), 5);
    assert_eq!(encode_result(Err(WasmAbiStatus::InvalidScope)), -112);
}

#[test]
fn imports_have_stable_indices() {
    let members = [MemberImport {
        module: "servo:dom/node",
        name: "append-child",
        nargs: 2,
    }];
    let all = all_imports(&members);
    assert_eq!(all.len(), 13);
    assert_eq!(core_imports().len(), 12);
    for (index, entry) in all.iter().enumerate() {
        let found = import_at(index, &members).expect("in the table");
        assert_eq!(found.module, entry.module);
        assert_eq!(found.name, entry.name);
        assert_eq!(found.nargs, entry.nargs);
        assert_eq!(found.call, entry.call);
    }
    assert!(import_at(13, &members).is_none());
    assert!(import_at(12, &[]).is_none());
    assert!(import_at(usize::MAX, &members).is_none());

    let listed: Vec<(&str, &str, usize)> = core_imports()
        .iter()
        .map(|entry| (entry.module, entry.name, entry.nargs))
        .collect();
    assert_eq!(
        listed,
        vec![
            ("servo:dom/core", "abi-version", 0),
            ("servo:dom/core", "document", 0),
            ("servo:dom/core", "handle-drop", 1),
            ("servo:dom/core", "handle-eq", 2),
            ("servo:dom/core", "handle-scope-enter", 0),
            ("servo:dom/core", "handle-scope-exit", 1),
            ("servo:dom/core", "handle-count", 0),
            ("servo:dom/core", "string-read", 2),
            ("servo:dom/core", "error-code", 0),
            ("servo:dom/core", "error-message", 2),
            ("servo:dom/event-target", "add-event-listener", 5),
            ("servo:dom/event-target", "remove-event-listener", 5),
        ]
    );
    assert_eq!(all[12].call, HostFunction::Member);
}

#[test]
fn only_an_unknown_import_traps() {
    let mut host = Host::new(4);
    assert!(matches!(host.step(0, 14, &[]), HostStep::Trap));
    assert!(matches!(host.step(0, -1, &[]), HostStep::Trap));
    assert!(matches!(host.step(0, i32::MAX, &[]), HostStep::Trap));
    assert!(matches!(host.step(7, 99, &[]), HostStep::Trap));
    assert!(matches!(host.step(7, 0, &[]), HostStep::Return(-111)));
    assert!(matches!(host.step(-1, 0, &[]), HostStep::Return(-111)));
}

#[test]
fn a_short_call_is_a_type_error() {
    let mut host = Host::new(4);
    assert_eq!(host.call(HANDLE_DROP, &[]), -40);
    assert_eq!(host.call(HANDLE_EQ, &[1]), -40);
    assert_eq!(host.call(13, &[0; 9]), -40);
    assert_eq!(host.call(ABI_VERSION, &[1, 2, 3]), 0);
}

#[test]
fn a_torn_down_instance_refuses_every_call() {
    let mut host = Host::new(4);
    assert_eq!(host.call(ABI_VERSION, &[]), 0);
    tear_down(&mut host.registry, 0).unwrap();
    for entry in 0..14 {
        assert!(matches!(
            host.step(0, entry, &[0; 9]),
            HostStep::Return(-111)
        ));
    }
}

#[test]
fn the_document_is_the_first_handle() {
    let mut host = Host::new(4);
    assert_eq!(host.document(RealmGlobal::Other), -7);
    assert_eq!(host.call(HANDLE_COUNT, &[]), 0);
    let handle = host.document(RealmGlobal::Window { document: Some(900) });
    assert_eq!(handle, 0x10_0000);
    assert_eq!(host.call(HANDLE_COUNT, &[]), 1);
    let again = host.document(RealmGlobal::Window { document: Some(900) });
    assert_ne!(handle, again);
    assert_eq!(host.call(HANDLE_EQ, &[handle, again]), 1);
    assert_eq!(host.call(HANDLE_DROP, &[again]), 0);
    assert_eq!(host.call(HANDLE_DROP, &[again]), -102);
    assert_eq!(host.call(HANDLE_EQ, &[handle, again]), 0);
    assert_eq!(host.call(HANDLE_DROP, &[0]), -100);
    assert_eq!(host.call(HANDLE_DROP, &[-1]), -101);
    assert_eq!(host.call(HANDLE_DROP, &[99]), -101);
    assert_eq!(host.call(HANDLE_EQ, &[handle, -1]), -101);
    assert_eq!(host.call(HANDLE_EQ, &[-1, handle]), -101);
}

#[test]
fn scopes_are_opened_and_closed_by_the_module() {
    let mut host = Host::new(4);
    let outer = host.document(RealmGlobal::Window { document: Some(1) });
    assert_eq!(host.call(SCOPE_EXIT, &[1]), -112);
    assert_eq!(host.call(SCOPE_ENTER, &[]), 1);
    assert_eq!(host.call(SCOPE_ENTER, &[]), 2);
    let inner = host.document(RealmGlobal::Window { document: Some(2) });
    assert_eq!(host.call(SCOPE_EXIT, &[1]), -112);
    assert_eq!(host.call(SCOPE_EXIT, &[-2]), -112);
    assert_eq!(host.call(SCOPE_EXIT, &[0]), -112);
    assert_eq!(host.call(HANDLE_COUNT, &[]), 2);
    assert_eq!(host.call(SCOPE_EXIT, &[2]), 0);
    assert_eq!(host.call(HANDLE_COUNT, &[]), 1);
    assert_eq!(host.call(HANDLE_DROP, &[inner]), -102);
    assert_eq!(host.call(SCOPE_EXIT, &[1]), 0);
    assert_eq!(host.call(HANDLE_DROP, &[outer]), 0);
}

#[test]
fn a_kept_string_waits_until_it_is_delivered() {
    let mut host = Host::new(8);
    assert_eq!(host.call(STRING_READ, &[0, 8]), 0);
    let mut empty = BufferProperty::Unreadable;
    let length = host
        .registry
        .registered_mut(0)
        .return_string(&mut empty, "kept", 0, 2);
    assert_eq!(length, Ok(4));

    // Too small, out of bounds, negative, and detached: the string survives all of them.
    assert_eq!(host.call(STRING_READ, &[0, 3]), -104);
    assert_eq!(host.call(STRING_READ, &[6, 4]), -104);
    assert_eq!(host.call(STRING_READ, &[0, -1]), -104);
    assert_eq!(host.call(STRING_READ, &[-1, 8]), -104);
    let attached = std::mem::replace(&mut host.memory, BufferProperty::Unreadable);
    assert_eq!(host.call(STRING_READ, &[0, 8]), -108);
    host.memory = attached;
    assert_eq!(host.text(), b"........".to_vec());

    assert_eq!(host.call(STRING_READ, &[2, 4]), 4);
    assert_eq!(host.text(), b"..kept..".to_vec());
    assert_eq!(host.call(STRING_READ, &[2, 4]), 0);
}

#[test]
fn a_failure_is_read_code_first() {
    let mut host = Host::new(16);
    assert_eq!(host.call(ERROR_CODE, &[]), 0);
    assert_eq!(host.call(ERROR_MESSAGE, &[0, 16]), 0);
    host.registry
        .registered_mut(0)
        .fail(&Error::Syntax(Some("no".to_owned())));
    assert_eq!(host.call(ERROR_CODE, &[]), -10);
    assert_eq!(host.call(ERROR_MESSAGE, &[0, 1]), -104);
    assert_eq!(host.call(ERROR_CODE, &[]), -10);
    assert_eq!(host.call(ERROR_MESSAGE, &[15, 2]), -104);
    assert_eq!(host.call(ERROR_CODE, &[]), -10);
    assert_eq!(host.call(ERROR_MESSAGE, &[1, 2]), 2);
    assert_eq!(host.text(), b".no.............".to_vec());
    assert_eq!(host.call(ERROR_CODE, &[]), 0);
    assert_eq!(host.call(ERROR_MESSAGE, &[1, 2]), 0);
}

#[test]
fn the_most_recent_failure_is_told() {
    let mut host = Host::new(64);
    assert_eq!(host.call(ERROR_CODE, &[]), 0);
    assert_eq!(host.document(RealmGlobal::Other), -7);
    assert_eq!(host.call(ERROR_CODE, &[]), -7);
    for (entry, args, expected) in [
        (HANDLE_DROP, vec![0], -100),
        (HANDLE_DROP, vec![-3], -101),
        (HANDLE_EQ, vec![1, -3], -101),
        (SCOPE_EXIT, vec![1], -112),
        (SCOPE_EXIT, vec![-1], -112),
        (ADD_LISTENER, vec![0, 0, 0, 0, 0], -100),
        (REMOVE_LISTENER, vec![77, 0, 0, 0, 0], -101),
        (HANDLE_DROP, vec![], -40),
        (13, vec![0; 9], -40),
    ] {
        assert_eq!(host.call(entry, &args), expected);
        // Reading the code does not drain it, and neither does a call that succeeds or a message
        // that cannot be delivered.
        assert_eq!(host.call(ERROR_CODE, &[]), expected);
        assert_eq!(host.call(ABI_VERSION, &[]), 0);
        assert_eq!(host.call(ERROR_MESSAGE, &[0, 1]), -104);
        assert_eq!(host.call(ERROR_MESSAGE, &[]), -40);
        assert_eq!(host.call(ERROR_CODE, &[]), expected);
    }
    let message = b"the arguments could not be decoded";
    let length = message.len() as i32;
    assert_eq!(host.call(ERROR_MESSAGE, &[0, 64]), length);
    assert_eq!(host.text()[..message.len()], message[..]);
    assert_eq!(host.call(ERROR_CODE, &[]), 0);
}

#[test]
fn a_string_that_cannot_be_delivered_is_a_failure() {
    let mut host = Host::new(8);
    let mut empty = BufferProperty::Unreadable;
    host.registry
        .registered_mut(0)
        .return_string(&mut empty, "kept", 0, 2)
        .unwrap();
    assert_eq!(host.call(ERROR_CODE, &[]), 0);
    assert_eq!(host.call(STRING_READ, &[0, 3]), -104);
    assert_eq!(host.call(ERROR_CODE, &[]), -104);
    assert_eq!(host.call(STRING_READ, &[0, 4]), 4);
    assert_eq!(host.call(ERROR_CODE, &[]), -104);
}

#[test]
fn only_a_delivery_needs_the_memory() {
    let mut host = Host::new(8);
    let nothing = CallNeeds {
        memory: false,
        scope: false,
    };
    let memory = CallNeeds {
        memory: true,
        scope: false,
    };
    let scope = CallNeeds {
        memory: false,
        scope: true,
    };
    for entry in -1..15 {
        let expected = if entry == SCOPE_ENTER { scope } else { nothing };
        assert_eq!(host.needs(0, entry, &[0, 8, 0, 0, 0]), expected);
        assert_eq!(host.needs(1, entry, &[0, 8, 0, 0, 0]), nothing);
    }

    let instance = host.registry.registered_mut(0);
    instance.stash_string(b"kept".to_vec());
    instance.fail(&Error::Syntax(Some("n\u{f6}".to_owned())));
    for (entry, length) in [(STRING_READ, 4), (ERROR_MESSAGE, 3)] {
        assert_eq!(host.needs(0, entry, &[0, length]), memory);
        assert_eq!(host.needs(0, entry, &[-1, length + 1]), memory);
        assert_eq!(host.needs(0, entry, &[0, length - 1]), nothing);
        assert_eq!(host.needs(0, entry, &[0, -1]), nothing);
        assert_eq!(host.needs(0, entry, &[0]), nothing);
    }
    host.registry.registered_mut(0).set_memory(None);
    assert_eq!(host.needs(0, STRING_READ, &[0, 4]), nothing);
    tear_down(&mut host.registry, 0).unwrap();
    assert_eq!(host.needs(0, SCOPE_ENTER, &[]), nothing);
}

#[test]
fn a_full_table_is_a_failure() {
    let mut registry = InstanceRegistry::new();
    create_instance(&mut registry, 10, 1).unwrap();
    let mut host = Host::new(4);
    host.registry = registry;
    let document = || RealmGlobal::Window { document: Some(1) };
    assert!(host.document(document()) > 0);
    assert_eq!(host.document(document()), -107);
    assert_eq!(host.call(ERROR_CODE, &[]), -107);
}

#[test]
fn the_end_of_a_member_is_told() {
    let mut host = Host::new(16);
    let ends = [
        (Ok(5), 5, 0),
        (Ok(-1), -1, 0),
        (
            Err(MemberFailure::Dom(Error::Syntax(Some("no".to_owned())))),
            -10,
            -10,
        ),
        (Err(MemberFailure::Abi(WasmAbiStatus::WrongType)), -103, -103),
        (Ok(0), 0, -103),
    ];
    for (outcome, value, code) in ends {
        let call = match host.step(0, 12, &[7, 8]) {
            HostStep::CallMember(call) => call,
            _ => panic!("the member is not called"),
        };
        assert_eq!(call.finish(&mut host.registry, outcome), value);
        assert_eq!(host.call(ERROR_CODE, &[]), code);
        if code == -10 {
            assert_eq!(host.call(ERROR_MESSAGE, &[0, 16]), 2);
            assert_eq!(host.text()[..2], b"no"[..]);
        }
    }
}

#[test]
fn options_are_unpacked() {
    assert_eq!(
        listener_options(0),
        ListenerOptions {
            capture: false,
            once: false,
            passive: false
        }
    );
    assert_eq!(
        listener_options(OPTION_CAPTURE | OPTION_PASSIVE),
        ListenerOptions {
            capture: true,
            once: false,
            passive: true
        }
    );
    assert_eq!(
        listener_options(OPTION_ONCE | 0x7fff_fff8),
        ListenerOptions {
            capture: false,
            once: true,
            passive: false
        }
    );
    assert_eq!(
        listener_options(-1),
        ListenerOptions {
            capture: true,
            once: true,
            passive: true
        }
    );
}

fn add(host: &mut Host, handle: i32, callback_id: i32, options: i32, listener: u64) -> i32 {
    let check = match host.step(0, ADD_LISTENER, &[handle, 0, 5, callback_id, options]) {
        HostStep::CheckEventTarget(check) => check,
        _ => panic!("the target is not checked"),
    };
    assert!(check.adding);
    let call = match check.answer(&mut host.registry, &host.memory, true) {
        HostStep::MakeListener(call) => call,
        _ => panic!("no listener is made"),
    };
    assert_eq!(call.request.callback_id, callback_id);
    assert_eq!(call.request.event_type, "click");
    match call.answer(&mut host.registry, Some(listener)) {
        HostStep::AddListener(call) => {
            assert_eq!(call.listener, listener);
            call.done(&mut host.registry)
        }
        _ => panic!("the listener is not added"),
    }
}

#[test]
fn a_listener_is_added_and_removed() {
    let mut host = Host::new(8);
    host.fill(b"click");
    let target = host.document(RealmGlobal::Window { document: Some(33) });
    assert_eq!(add(&mut host, target, 4, OPTION_CAPTURE, 700), 0);
    assert_eq!(add(&mut host, target, 4, 0, 701), 0);

    for (options, expected) in [(0, 701), (OPTION_CAPTURE | OPTION_ONCE, 700)] {
        let check = match host.step(0, REMOVE_LISTENER, &[target, 0, 5, 4, options]) {
            HostStep::CheckEventTarget(check) => check,
            _ => panic!("the target is not checked"),
        };
        assert!(!check.adding);
        assert_eq!(check.target, 33);
        match check.answer(&mut host.registry, &host.memory, true) {
            HostStep::RemoveListener(call) => {
                assert_eq!(call.listener, expected);
                assert_eq!(call.request.target, 33);
                assert_eq!(call.done(), 0);
            }
            _ => panic!("nothing is removed"),
        }
    }

    // Nothing is left, and that is no error.
    let check = match host.step(0, REMOVE_LISTENER, &[target, 0, 5, 4, 0]) {
        HostStep::CheckEventTarget(check) => check,
        _ => panic!("the target is not checked"),
    };
    assert!(matches!(
        check.answer(&mut host.registry, &host.memory, true),
        HostStep::Return(0)
    ));
}

#[test]
fn a_listener_is_removed_from_its_own_target() {
    let mut host = Host::new(8);
    host.fill(b"click");
    let first = host.document(RealmGlobal::Window { document: Some(33) });
    let second = host.document(RealmGlobal::Window { document: Some(34) });
    assert_eq!(add(&mut host, first, 7, 0, 700), 0);
    assert_eq!(add(&mut host, second, 7, 0, 701), 0);

    for (handle, target, expected) in [(second, 34, 701), (first, 33, 700)] {
        let check = match host.step(0, REMOVE_LISTENER, &[handle, 0, 5, 7, 0]) {
            HostStep::CheckEventTarget(check) => check,
            _ => panic!("the target is not checked"),
        };
        match check.answer(&mut host.registry, &host.memory, true) {
            HostStep::RemoveListener(call) => {
                assert_eq!(call.listener, expected);
                assert_eq!(call.request.target, target);
            }
            _ => panic!("nothing is removed"),
        }
    }
}

#[test]
fn a_listener_needs_a_target_a_type_and_an_object() {
    let mut host = Host::new(8);
    host.fill(b"click\xff");
    let target = host.document(RealmGlobal::Window { document: Some(33) });
    assert_eq!(host.call(ADD_LISTENER, &[0, 0, 5, 1, 0]), -100);
    assert_eq!(host.call(ADD_LISTENER, &[-1, 0, 5, 1, 0]), -101);
    assert_eq!(host.call(REMOVE_LISTENER, &[12, 0, 5, 1, 0]), -101);

    for (answer, args, expected) in [
        (false, [target, 0, 5, 1, 0], -103),
        (true, [target, 0, 50, 1, 0], -104),
        (true, [target, 0, 6, 1, 0], -105),
    ] {
        let check = match host.step(0, ADD_LISTENER, &args) {
            HostStep::CheckEventTarget(check) => check,
            _ => panic!("the target is not checked"),
        };
        match check.answer(&mut host.registry, &host.memory, answer) {
            HostStep::Return(value) => assert_eq!(value, expected),
            _ => panic!("the call goes on"),
        }
        assert_eq!(host.call(ERROR_CODE, &[]), expected);
    }

    let check = match host.step(0, ADD_LISTENER, &[target, 0, 5, 1, 0]) {
        HostStep::CheckEventTarget(check) => check,
        _ => panic!("the target is not checked"),
    };
    match check.answer(&mut host.registry, &host.memory, true) {
        HostStep::MakeListener(call) => {
            assert!(matches!(
                call.answer(&mut host.registry, None),
                HostStep::Return(-28)
            ));
            assert_eq!(host.call(ERROR_CODE, &[]), -28);
        }
        _ => panic!("no listener is made"),
    }
}

#[test]
fn members_are_called_with_their_arguments() {
    let mut host = Host::new(4);
    match host.step(0, 12, &[7, 8, 9]) {
        HostStep::CallMember(call) => {
            assert_eq!(call.instance, 0);
            assert_eq!(call.entry, 12);
            assert_eq!(call.args, vec![7, 8]);
        }
        _ => panic!("the member is not called"),
    }
}

#[test]
fn a_call_leaves_the_other_instances_alone() {
    let mut host = Host::new(4);
    create_instance(&mut host.registry, 10, 100).unwrap();
    let handle = host.document(RealmGlobal::Window { document: Some(1) });
    assert!(matches!(
        host.step(1, HANDLE_DROP, &[handle]),
        HostStep::Return(-101)
    ));
    assert!(matches!(host.step(1, HANDLE_COUNT, &[]), HostStep::Return(0)));
    assert_eq!(host.call(HANDLE_COUNT, &[]), 1);
}

#[test]
fn a_dropped_handle_does_not_see_the_next_object() {
    let mut host = Host::new(4);
    let old = host.document(RealmGlobal::Window { document: Some(1) });
    assert_eq!(host.call(HANDLE_DROP, &[old]), 0);
    let new = host.document(RealmGlobal::Window { document: Some(2) });
    assert_ne!(old, new);
    assert_eq!(host.call(HANDLE_DROP, &[old]), -102);
    assert_eq!(host.call(HANDLE_EQ, &[old, new]), 0);
    assert_eq!(host.call(HANDLE_EQ, &[new, new]), 1);
}

#[test]
fn no_two_imports_share_a_name() {
    let imports = core_imports();
    for (index, entry) in imports.iter().enumerate() {
        for other in &imports[index + 1..] {
            assert_ne!(entry.name, other.name);
        }
    }
}
