use wasm_dom::error::Error;
use wasm_dom::import_object::{build_import_object, ImportObjectPlan};
use wasm_dom::imports::{core_imports, MemberImport};
use wasm_dom::registry::InstanceRegistry;
use wasm_dom::servo_wasm_dom::{
    bind_dispatcher, bind_memory, create_instance, finish_import_object, handle_count,
    instance_for, plan_import_object, registered_instance_for, tear_down, MadeObject,
};

fn member(module: &'static str, name: &'static str, nargs: usize) -> MemberImport {
    MemberImport {
        module,
        name,
        nargs,
    }
}

fn find<'a>(
    object: &'a ImportObjectPlan,
    module: &str,
    name: &str,
) -> Option<&'a wasm_dom::import_object::HostFunctionPlan> {
    object
        .namespaces
        .iter()
        .find(|namespace| namespace.module == module)?
        .functions
        .iter()
        .find(|function| function.name == name)
}

fn not_found() -> Error {
    Error::NotFound(Some("no such wasm-dom instance".to_owned()))
}

fn torn_down() -> Error {
    Error::InvalidState(Some("wasm-dom instance has been torn down".to_owned()))
}

#[test]
fn instances_are_created_up_to_the_limit() {
    let mut registry = InstanceRegistry::new();
    assert_eq!(create_instance(&mut registry, 2, 8), Ok(0));
    assert_eq!(create_instance(&mut registry, 2, 8), Ok(1));
    assert_eq!(
        create_instance(&mut registry, 2, 8),
        Err(Error::QuotaExceeded {
            quota: None,
            requested: None
        })
    );
    assert_eq!(registry.count(), 2);
    // Tearing one down does not make room: its index stays taken.
    tear_down(&mut registry, 0).unwrap();
    assert!(create_instance(&mut registry, 2, 8).is_err());
    assert_eq!(create_instance(&mut registry, 3, 8), Ok(2));
}

#[test]
fn indices_are_looked_up() {
    let mut registry = InstanceRegistry::new();
    create_instance(&mut registry, 2, 8).unwrap();
    assert_eq!(instance_for(&registry, 0), Ok(0));
    assert_eq!(instance_for(&registry, 1), Err(not_found()));
    assert_eq!(instance_for(&registry, -1), Err(not_found()));
    tear_down(&mut registry, 0).unwrap();
    assert_eq!(instance_for(&registry, 0), Err(torn_down()));
    assert_eq!(registered_instance_for(&registry, 0), Ok(0));
    assert_eq!(registered_instance_for(&registry, 1), Err(not_found()));
    assert!(registry.registered(0).is_some());
    assert!(registry.registered(1).is_none());
    assert!(!registry.is_live(0));
}

#[test]
fn memory_and_dispatcher_are_bound() {
    let mut registry = InstanceRegistry::new();
    create_instance(&mut registry, 2, 8).unwrap();
    assert_eq!(
        bind_memory(&mut registry, 0, None),
        Err(Error::Type(b"memory must be an object".to_vec()))
    );
    assert_eq!(
        bind_dispatcher(&mut registry, 0, None),
        Err(Error::Type(b"dispatcher must be a function".to_vec()))
    );
    assert!(!registry.registered(0).unwrap().has_memory());
    assert_eq!(bind_memory(&mut registry, 0, Some(5)), Ok(()));
    assert_eq!(bind_dispatcher(&mut registry, 0, Some(6)), Ok(()));
    assert_eq!(registry.registered(0).unwrap().memory(), Some(5));
    assert_eq!(registry.registered(0).unwrap().dispatcher(), Some(6));
    assert_eq!(bind_memory(&mut registry, 3, Some(5)), Err(not_found()));
    assert_eq!(bind_dispatcher(&mut registry, -3, Some(5)), Err(not_found()));
    tear_down(&mut registry, 0).unwrap();
    assert_eq!(bind_memory(&mut registry, 0, Some(7)), Err(torn_down()));
    assert_eq!(bind_dispatcher(&mut registry, 0, Some(7)), Err(torn_down()));
}

#[test]
fn the_handle_count_is_readable_after_teardown() {
    let mut registry = InstanceRegistry::new();
    create_instance(&mut registry, 2, 8).unwrap();
    registry.registered_mut(0).return_object(Some(1)).unwrap();
    registry.registered_mut(0).return_object(Some(2)).unwrap();
    assert_eq!(handle_count(&registry, 0), Ok(2));
    assert_eq!(tear_down(&mut registry, 0), Ok(()));
    assert_eq!(handle_count(&registry, 0), Ok(0));
    assert_eq!(tear_down(&mut registry, 0), Ok(()));
    assert_eq!(handle_count(&registry, 0), Ok(0));
    assert_eq!(handle_count(&registry, 1), Err(not_found()));
    assert_eq!(tear_down(&mut registry, 1), Err(not_found()));
}

#[test]
fn every_import_is_in_the_object() {
    let members = [
        member("servo:dom/node", "append-child", 2),
        member("servo:dom/document", "create-element", 3),
        member("servo:dom/node", "set-text-content", 4),
    ];
    let object = build_import_object(7, &members).expect("all names are plain");
    let modules: Vec<&str> = object
        .namespaces
        .iter()
        .map(|namespace| namespace.module.as_str())
        .collect();
    assert_eq!(
        modules,
        vec![
            "servo:dom/core",
            "servo:dom/event-target",
            "servo:dom/node",
            "servo:dom/document"
        ]
    );
    for (index, entry) in core_imports().iter().enumerate() {
        let function = find(&object, entry.module, entry.name).expect("offered");
        assert_eq!(function.instance, 7);
        assert_eq!(function.entry, index as i32);
        assert_eq!(function.nargs, entry.nargs as u32);
    }
    for (index, entry) in members.iter().enumerate() {
        let function = find(&object, entry.module, entry.name).expect("offered");
        assert_eq!(function.entry, 12 + index as i32);
        assert_eq!(function.nargs, entry.nargs as u32);
    }
    assert!(find(&object, "servo:dom/node", "create-element").is_none());
}

#[test]
fn the_last_import_of_a_name_wins() {
    let members = [
        member("servo:dom/node", "clone", 1),
        member("servo:dom/core", "document", 3),
        member("servo:dom/node", "clone", 2),
    ];
    let object = build_import_object(0, &members).expect("all names are plain");
    let clone = find(&object, "servo:dom/node", "clone").expect("offered");
    assert_eq!((clone.entry, clone.nargs), (14, 2));
    let document = find(&object, "servo:dom/core", "document").expect("offered");
    assert_eq!((document.entry, document.nargs), (13, 3));
    assert_eq!(object.namespaces[2].functions.len(), 1);
}

#[test]
fn names_with_a_nul_and_large_indices_are_refused() {
    assert!(build_import_object(0, &[member("a\0b", "c", 0)]).is_none());
    assert!(build_import_object(0, &[member("a", "c\0", 0)]).is_none());
    assert!(build_import_object(i32::MAX as usize, &[]).is_some());
    assert!(build_import_object(i32::MAX as usize + 1, &[]).is_none());
}

#[test]
fn the_import_object_is_checked_before_it_is_built() {
    let mut registry = InstanceRegistry::new();
    create_instance(&mut registry, 2, 8).unwrap();
    let object = plan_import_object(&registry, &[], 0).expect("the instance is there");
    assert_eq!(object.namespaces[0].functions[2].name, "handle-drop");
    assert_eq!(
        plan_import_object(&registry, &[], 1).err(),
        Some(not_found())
    );
    assert_eq!(
        plan_import_object(&registry, &[member("a", "\0", 0)], 0).err(),
        Some(Error::Operation(Some(
            "could not build the import object".to_owned()
        )))
    );
    tear_down(&mut registry, 0).unwrap();
    assert_eq!(
        plan_import_object(&registry, &[], 0).err(),
        Some(torn_down())
    );
}

#[test]
fn a_made_object_is_given_out() {
    assert_eq!(finish_import_object(MadeObject::Made(Some(4))), Ok(4));
    assert_eq!(
        finish_import_object(MadeObject::Made(None)),
        Err(Error::Operation(Some("import object was null".to_owned())))
    );
    assert_eq!(
        finish_import_object(MadeObject::Failed),
        Err(Error::Operation(Some(
            "could not build the import object".to_owned()
        )))
    );
}
