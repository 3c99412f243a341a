//! The object that a module binds its imports against.
//!
//! One property for each import module name, each of them an object whose properties are host
//! functions. What is built here is the plan of that object; the engine makes the objects and
//! functions that it describes.

use vstd::prelude::*;
use vstd::string::StringSliceAdditionalSpecFns;
use vstd::utf8::{encode_utf8, is_ascii_chars, is_ascii_chars_encode_utf8};

use crate::bridge::CallView;
use crate::imports::{
    all_imports, core_table, import_table, ImportView, MemberImport, WasmImportEntry,
};

verus! {

/// A host function, and the two integers that it carries.
pub struct HostFunctionPlan {
    pub name: String,
    /// The number of parameters that the function declares.
    pub nargs: u32,
    /// The index of the instance.
    pub instance: i32,
    /// The index of the import.
    pub entry: i32,
}

/// The object behind one import module name.
pub struct NamespacePlan {
    pub module: String,
    pub functions: Vec<HostFunctionPlan>,
}

/// The import object.
pub struct ImportObjectPlan {
    pub namespaces: Vec<NamespacePlan>,
}

/// A host function, and the two integers that it carries.
pub struct FunctionView {
    pub name: Seq<char>,
    pub nargs: u32,
    pub instance: i32,
    pub entry: i32,
}

/// The object behind one import module name.
#[verifier::ext_equal]
pub struct NamespaceView {
    pub module: Seq<char>,
    pub functions: Seq<FunctionView>,
}

impl View for HostFunctionPlan {
    type V = FunctionView;

    open spec fn view(&self) -> FunctionView {
        FunctionView {
            name: self.name@,
            nargs: self.nargs,
            instance: self.instance,
            entry: self.entry,
        }
    }
}

impl View for NamespacePlan {
    type V = NamespaceView;

    open spec fn view(&self) -> NamespaceView {
        NamespaceView {
            module: self.module@,
            functions: self.functions@.map_values(|function: HostFunctionPlan| function@),
        }
    }
}

impl View for ImportObjectPlan {
    type V = Seq<NamespaceView>;

    open spec fn view(&self) -> Seq<NamespaceView> {
        self.namespaces@.map_values(|namespace: NamespacePlan| namespace@)
    }
}

// ---------------------------------------------------------------------------------------
// What the object is
// ---------------------------------------------------------------------------------------

/// Where the namespace of a module stands, or the number of namespaces if there is none.
pub open spec fn namespace_index(namespaces: Seq<NamespaceView>, module: Seq<char>) -> nat
    decreases namespaces.len(),
{
    if namespaces.len() == 0 || namespaces[0].module == module {
        0
    } else {
        1 + namespace_index(namespaces.skip(1), module)
    }
}

/// Where a function stands in a namespace, or the number of functions if it is not there.
pub open spec fn function_index(functions: Seq<FunctionView>, name: Seq<char>) -> nat
    decreases functions.len(),
{
    if functions.len() == 0 || functions[0].name == name {
        0
    } else {
        1 + function_index(functions.skip(1), name)
    }
}

/// The object with a namespace for a module, created at the end if it is not there yet.
pub open spec fn with_namespace(
    namespaces: Seq<NamespaceView>,
    module: Seq<char>,
) -> Seq<NamespaceView> {
    if namespace_index(namespaces, module) < namespaces.len() {
        namespaces
    } else {
        namespaces.push(NamespaceView { module, functions: Seq::empty() })
    }
}

/// A namespace with a function, which takes the place of one of the same name.
pub open spec fn with_function(
    functions: Seq<FunctionView>,
    function: FunctionView,
) -> Seq<FunctionView> {
    let index = function_index(functions, function.name);
    if index < functions.len() {
        functions.update(index as int, function)
    } else {
        functions.push(function)
    }
}

/// The host function behind an entry of the import table.
pub open spec fn function_of(entry: ImportView, instance: i32, index: int) -> FunctionView {
    FunctionView {
        name: entry.name,
        nargs: entry.nargs as u32,
        instance,
        entry: index as i32,
    }
}

/// The object with one more entry of the import table.
pub open spec fn with_entry(
    namespaces: Seq<NamespaceView>,
    entry: ImportView,
    instance: i32,
    index: int,
) -> Seq<NamespaceView> {
    let created = with_namespace(namespaces, entry.module);
    let at = namespace_index(created, entry.module) as int;
    created.update(
        at,
        NamespaceView {
            functions: with_function(
                created[at].functions,
                function_of(entry, instance, index),
            ),
            ..created[at]
        },
    )
}

/// The object for the first entries of an import table.
pub open spec fn object_of(table: Seq<ImportView>, count: nat, instance: i32) -> Seq<NamespaceView>
    decreases count,
{
    if count == 0 {
        Seq::empty()
    } else {
        with_entry(
            object_of(table, (count - 1) as nat, instance),
            table[count - 1],
            instance,
            count - 1,
        )
    }
}

/// The function that an object offers under a module and a name.
pub open spec fn offered(
    namespaces: Seq<NamespaceView>,
    module: Seq<char>,
    name: Seq<char>,
) -> Option<FunctionView> {
    let at = namespace_index(namespaces, module);
    if at < namespaces.len() {
        let functions = namespaces[at as int].functions;
        let index = function_index(functions, name);
        if index < functions.len() {
            Some(functions[index as int])
        } else {
            None
        }
    } else {
        None
    }
}

/// The last of the first entries of a table with a module and a name.
pub open spec fn last_named(
    table: Seq<ImportView>,
    count: nat,
    module: Seq<char>,
    name: Seq<char>,
) -> Option<int>
    decreases count,
{
    if count == 0 {
        None
    } else if table[count - 1].module == module && table[count - 1].name == name {
        Some(count - 1)
    } else {
        last_named(table, (count - 1) as nat, module, name)
    }
}

/// Whether a name can be the name of a property: its encoding holds no NUL.
pub open spec fn nameable(name: Seq<char>) -> bool {
    !encode_utf8(name).contains(0u8)
}

/// Whether all names of the members can be names of properties.
pub open spec fn all_nameable(members: Seq<MemberImport>) -> bool {
    forall|i: int|
        0 <= i < members.len() ==> nameable((#[trigger] members[i]).module@) && nameable(
            members[i].name@,
        )
}

// ---------------------------------------------------------------------------------------
// Building the object
// ---------------------------------------------------------------------------------------

/// Whether a name can be the name of a property: it holds no NUL.
fn is_nameable(name: &str) -> (ok: bool)
    ensures
        ok == nameable(name@),
{
    let bytes = name.as_bytes();
    for i in 0..bytes.len()
        invariant
            bytes@ == name.spec_bytes(),
            forall|j: int| 0 <= j < i ==> #[trigger] bytes@[j] != 0u8,
    {
        if bytes[i] == 0u8 {
            assert(bytes@.contains(0u8));
            return false;
        }
    }
    true
}

/// Finds the namespace of a module, and creates it if it is not there yet. The entries of a
/// module need not stand next to each other in the table.
fn get_or_create_namespace(object: &mut ImportObjectPlan, module: &str) -> (found: Option<usize>)
    ensures
        match found {
            Some(index) => {
                &&& nameable(module@)
                &&& final(object)@ == with_namespace(old(object)@, module@)
                &&& index == namespace_index(final(object)@, module@)
                &&& index < final(object)@.len()
            },
            None => !nameable(module@) && *final(object) == *old(object),
        },
{
    if !is_nameable(module) {
        return None;
    }
    let ghost before = object@;
    let wanted: String = module.to_owned();
    let count: usize = object.namespaces.len();
    let mut index: usize = 0;
    assert(before.skip(0) =~= before);
    while index < count
        invariant
            index <= count,
            count == object.namespaces@.len(),
            object@ == before,
            before == old(object)@,
            wanted@ == module@,
            nameable(module@),
            namespace_index(before, module@) == index + namespace_index(
                before.skip(index as int),
                module@,
            ),
        decreases count - index,
    {
        assert(before[index as int] == object.namespaces@[index as int]@);
        if object.namespaces[index].module == wanted {
            return Some(index);
        }
        assert(before.skip(index as int).skip(1) =~= before.skip(index + 1));
        index += 1;
    }
    object.namespaces.push(NamespacePlan { module: wanted, functions: Vec::new() });
    proof {
        let created = NamespaceView { module: module@, functions: Seq::empty() };
        assert(object.namespaces@.last()@.functions =~= Seq::<FunctionView>::empty());
        assert(object@ =~= before.push(created));
        lemma_namespace_push(before, created, module@);
    }
    Some(count)
}

/// Defines a function in a namespace.
fn define_function(namespace: &mut NamespacePlan, function: HostFunctionPlan)
    ensures
        final(namespace)@ == (NamespaceView {
            functions: with_function(old(namespace)@.functions, function@),
            ..old(namespace)@
        }),
{
    let ghost before = namespace@;
    let ghost defined = function@;
    let count: usize = namespace.functions.len();
    let mut index: usize = 0;
    assert(before.functions.skip(0) =~= before.functions);
    while index < count
        invariant
            index <= count,
            count == namespace.functions@.len(),
            namespace@ == before,
            before == old(namespace)@,
            defined == function@,
            function_index(before.functions, defined.name) == index + function_index(
                before.functions.skip(index as int),
                defined.name,
            ),
        decreases count - index,
    {
        assert(before.functions[index as int] == namespace.functions@[index as int]@);
        if namespace.functions[index].name == function.name {
            namespace.functions.set(index, function);
            assert(namespace@.functions =~= before.functions.update(index as int, defined));
            return;
        }
        assert(before.functions.skip(index as int).skip(1) =~= before.functions.skip(index + 1));
        index += 1;
    }
    namespace.functions.push(function);
    assert(namespace@.functions =~= before.functions.push(defined));
}

/// A name of plain characters can be the name of a property.
proof fn lemma_plain_name(name: Seq<char>)
    requires
        forall|i: int| 0 <= i < name.len() ==> '\0' < #[trigger] name[i] <= '\u{7f}',
    ensures
        nameable(name),
{
    assert(is_ascii_chars(name));
    is_ascii_chars_encode_utf8(name);
}

/// The names of the imports of the runtime can be names of properties.
proof fn lemma_core_nameable(index: int)
    requires
        0 <= index < core_table().len(),
    ensures
        nameable(core_table()[index].module),
        nameable(core_table()[index].name),
{
    reveal_strlit("servo:dom/core");
    reveal_strlit("servo:dom/event-target");
    reveal_strlit("abi-version");
    reveal_strlit("document");
    reveal_strlit("handle-drop");
    reveal_strlit("handle-eq");
    reveal_strlit("handle-scope-enter");
    reveal_strlit("handle-scope-exit");
    reveal_strlit("handle-count");
    reveal_strlit("string-read");
    reveal_strlit("error-code");
    reveal_strlit("error-message");
    reveal_strlit("add-event-listener");
    reveal_strlit("remove-event-listener");
    lemma_plain_name(core_table()[index].module);
    lemma_plain_name(core_table()[index].name);
}

/// All names of an import table can be names of properties, if those of the members can.
proof fn lemma_table_nameable(members: Seq<MemberImport>, index: int)
    requires
        0 <= index < import_table(members).len(),
    ensures
        index < core_table().len() ==> nameable(import_table(members)[index].module) && nameable(
            import_table(members)[index].name,
        ),
        index >= core_table().len() ==> import_table(members)[index] == members[index
            - core_table().len()]@,
{
    if index < core_table().len() {
        lemma_core_nameable(index);
    }
}

/// Adding a namespace at the end leaves the ones before it where they are.
proof fn lemma_namespace_push(
    namespaces: Seq<NamespaceView>,
    added: NamespaceView,
    module: Seq<char>,
)
    ensures
        namespace_index(namespaces, module) <= namespaces.len(),
        namespace_index(namespaces.push(added), module) == (if namespace_index(namespaces, module)
            < namespaces.len() || added.module == module {
            namespace_index(namespaces, module)
        } else {
            namespaces.len() + 1
        }),
    decreases namespaces.len(),
{
    reveal_with_fuel(namespace_index, 2);
    if namespaces.len() > 0 && namespaces[0].module != module {
        lemma_namespace_push(namespaces.skip(1), added, module);
        assert(namespaces.push(added).skip(1) =~= namespaces.skip(1).push(added));
    }
}

/// Builds the object that a module binds its imports against, or gives `None` if the index of
/// the instance does not fit a host function, or if a name cannot be the name of a property.
pub fn build_import_object(instance_index: usize, members: &[MemberImport]) -> (object: Option<
    ImportObjectPlan,
>)
    ensures
        match object {
            Some(object) => {
                &&& instance_index <= i32::MAX
                &&& all_nameable(members@)
                &&& object@ == object_of(
                    import_table(members@),
                    import_table(members@).len(),
                    instance_index as i32,
                )
            },
            None => instance_index > i32::MAX || !all_nameable(members@),
        },
{
    if instance_index > i32::MAX as usize {
        return None;
    }
    let instance: i32 = instance_index as i32;
    let entries = all_imports(members);
    let ghost table = import_table(members@);
    let mut object = ImportObjectPlan { namespaces: Vec::new() };
    assert(object@ =~= Seq::empty());
    for i in 0..entries.len()
        invariant
            table == import_table(members@),
            entries@.map_values(|entry: WasmImportEntry| entry@) == table,
            entries@.len() == table.len(),
            object@ == object_of(table, i as nat, instance),
            forall|j: int|
                0 <= j < i ==> nameable((#[trigger] table[j]).module) && nameable(table[j].name),
    {
        let entry = entries[i];
        assert(table[i as int] == entry@) by {
            assert(entries@.map_values(|entry: WasmImportEntry| entry@)[i as int] == entry@);
        }
        let ghost before = object@;
        let at: usize = match get_or_create_namespace(&mut object, entry.module) {
            Some(at) => at,
            None => {
                proof {
                    lemma_table_nameable(members@, i as int);
                }
                return None;
            },
        };
        if !is_nameable(entry.name) {
            proof {
                lemma_table_nameable(members@, i as int);
            }
            return None;
        }
        let ghost created = object@;
        let function = HostFunctionPlan {
            name: entry.name.to_owned(),
            nargs: entry.nargs as u32,
            instance,
            entry: i as i32,
        };
        assert(created[at as int] == object.namespaces@[at as int]@);
        define_function(&mut object.namespaces[at], function);
        assert(object@ =~= with_entry(before, entry@, instance, i as int));
    }
    assert forall|j: int| 0 <= j < members@.len() implies nameable(
        (#[trigger] members@[j]).module@,
    ) && nameable(members@[j].name@) by {
        lemma_table_nameable(members@, core_table().len() + j);
        assert(nameable(table[core_table().len() + j].module));
    }
    Some(object)
}

// ---------------------------------------------------------------------------------------
// Laws
// ---------------------------------------------------------------------------------------

/// What the place of a namespace is: the first one of the module.
proof fn lemma_namespace_index(namespaces: Seq<NamespaceView>, module: Seq<char>)
    ensures
        ({
            let at = namespace_index(namespaces, module);
            &&& at <= namespaces.len()
            &&& at < namespaces.len() ==> namespaces[at as int].module == module
            &&& forall|i: int| 0 <= i < at ==> (#[trigger] namespaces[i]).module != module
        }),
    decreases namespaces.len(),
{
    if namespaces.len() > 0 && namespaces[0].module != module {
        let rest = namespaces.skip(1);
        let at = namespace_index(namespaces, module);
        lemma_namespace_index(rest, module);
        assert forall|i: int| 0 <= i < at implies (#[trigger] namespaces[i]).module != module by {
            if i > 0 {
                assert(rest[i - 1] == namespaces[i]);
            }
        }
        if at < namespaces.len() {
            assert(rest[at - 1] == namespaces[at as int]);
        }
    }
}

/// What the place of a function is: the first one of the name.
proof fn lemma_function_index(functions: Seq<FunctionView>, name: Seq<char>)
    ensures
        ({
            let at = function_index(functions, name);
            &&& at <= functions.len()
            &&& at < functions.len() ==> functions[at as int].name == name
            &&& forall|i: int| 0 <= i < at ==> (#[trigger] functions[i]).name != name
        }),
    decreases functions.len(),
{
    if functions.len() > 0 && functions[0].name != name {
        let rest = functions.skip(1);
        let at = function_index(functions, name);
        lemma_function_index(rest, name);
        assert forall|i: int| 0 <= i < at implies (#[trigger] functions[i]).name != name by {
            if i > 0 {
                assert(rest[i - 1] == functions[i]);
            }
        }
        if at < functions.len() {
            assert(rest[at - 1] == functions[at as int]);
        }
    }
}

/// A function that is defined is found under its name, and every other one is found as before.
proof fn lemma_defined(functions: Seq<FunctionView>, function: FunctionView, name: Seq<char>)
    ensures
        ({
            let after = with_function(functions, function);
            let index = function_index(after, name);
            if name == function.name {
                index < after.len() && after[index as int] == function
            } else {
                &&& index < after.len() <==> function_index(functions, name) < functions.len()
                &&& index < after.len() ==> after[index as int] == functions[function_index(
                    functions,
                    name,
                ) as int]
            }
        }),
{
    let after = with_function(functions, function);
    let place = function_index(functions, function.name);
    let index = function_index(after, name);
    let earlier = function_index(functions, name);
    lemma_function_index(functions, function.name);
    lemma_function_index(functions, name);
    lemma_function_index(after, name);
    if place < functions.len() {
        assert(after[place as int] == function);
    } else {
        assert(after[functions.len() as int] == function);
    }
    if name == function.name {
        if index < place {
            assert(after[index as int] == functions[index as int]);
        }
    } else {
        if index < after.len() {
            assert(after[index as int] == functions[index as int]);
            if earlier < index {
                assert(after[earlier as int] == functions[earlier as int]);
            }
        }
        if earlier < functions.len() {
            assert(after[earlier as int] == functions[earlier as int]);
        }
    }
}

/// An entry that is added is offered under its module and name, and everything else is offered
/// as before.
proof fn lemma_offered(
    namespaces: Seq<NamespaceView>,
    entry: ImportView,
    instance: i32,
    index: int,
    module: Seq<char>,
    name: Seq<char>,
)
    ensures
        offered(with_entry(namespaces, entry, instance, index), module, name) == (if module
            == entry.module && name == entry.name {
            Some(function_of(entry, instance, index))
        } else {
            offered(namespaces, module, name)
        }),
{
    let created = with_namespace(namespaces, entry.module);
    let place = namespace_index(created, entry.module);
    let after = with_entry(namespaces, entry, instance, index);
    let function = function_of(entry, instance, index);
    let at = namespace_index(after, module);
    let earlier = namespace_index(namespaces, module);
    lemma_namespace_index(namespaces, entry.module);
    lemma_namespace_index(namespaces, module);
    lemma_namespace_index(created, entry.module);
    lemma_namespace_index(after, module);
    lemma_namespace_push(
        namespaces,
        NamespaceView { module: entry.module, functions: Seq::empty() },
        entry.module,
    );
    assert(place < created.len());
    assert forall|i: int| 0 <= i < after.len() implies (#[trigger] after[i]).module
        == created[i].module by {}
    lemma_defined(created[place as int].functions, function, name);
    if module == entry.module {
        if at < place {
            assert(after[at as int].module == created[at as int].module);
        }
        if place < at {
            assert(after[place as int].module == module);
        }
        assert(at == place);
        if earlier < namespaces.len() {
            assert(created == namespaces);
            assert(place == earlier);
        } else {
            assert(created[place as int].functions == Seq::<FunctionView>::empty());
        }
    } else {
        if at < after.len() {
            assert(after[at as int].module == created[at as int].module);
            assert(at != place);
            assert(after[at as int] == created[at as int]);
            assert(at < namespaces.len());
            assert(created[at as int] == namespaces[at as int]);
            if earlier < at {
                assert(after[earlier as int].module == namespaces[earlier as int].module);
            }
            assert(earlier == at);
        } else if earlier < namespaces.len() {
            assert(created[earlier as int] == namespaces[earlier as int]);
            assert(after[earlier as int].module == module);
        }
    }
}

/// The object offers under every module and name the last import of that name, and nothing
/// under a name that no import has.
pub proof fn the_object_offers_the_imports(
    table: Seq<ImportView>,
    count: nat,
    instance: i32,
    module: Seq<char>,
    name: Seq<char>,
)
    requires
        count <= table.len(),
    ensures
        offered(object_of(table, count, instance), module, name) == (match last_named(
            table,
            count,
            module,
            name,
        ) {
            Some(index) => Some(function_of(table[index], instance, index)),
            None => None,
        }),
        last_named(table, count, module, name) matches Some(index) ==> 0 <= index < count
            && table[index].module == module && table[index].name == name,
    decreases count,
{
    if count > 0 {
        let before = (count - 1) as nat;
        the_object_offers_the_imports(table, before, instance, module, name);
        lemma_offered(
            object_of(table, before, instance),
            table[count - 1],
            instance,
            count - 1,
            module,
            name,
        );
    } else {
        assert(namespace_index(Seq::<NamespaceView>::empty(), module) == 0);
    }
}

/// A host function leads back to the import it was made for: a call of the function that the
/// object offers under a module and a name runs the import of that module and name, on the
/// instance that the object was built for.
pub proof fn a_host_function_leads_back_to_its_import(
    table: Seq<ImportView>,
    instance: i32,
    module: Seq<char>,
    name: Seq<char>,
    call: CallView,
)
    requires
        table.len() <= i32::MAX,
        offered(object_of(table, table.len(), instance), module, name) matches Some(function)
            && call.instance_index == function.instance && call.entry_index == function.entry,
    ensures
        call.instance_index == instance,
        call.entry(table) matches Some(entry) && entry.module == module && entry.name == name,
{
    the_object_offers_the_imports(table, table.len(), instance, module, name);
}

/// The last entry of a name is the only one, if no other has the same module and name.
proof fn lemma_only_named(table: Seq<ImportView>, count: nat, index: int)
    requires
        0 <= index < count <= table.len(),
        forall|i: int|
            0 <= i < table.len() && (#[trigger] table[i]).module == table[index].module
                && table[i].name == table[index].name ==> i == index,
    ensures
        last_named(table, count, table[index].module, table[index].name) == Some(index),
    decreases count,
{
    if count - 1 != index {
        assert(!(table[count - 1].module == table[index].module && table[count - 1].name
            == table[index].name));
        lemma_only_named(table, (count - 1) as nat, index);
    }
}

/// An import whose module and name no other import has is offered, with its own number of
/// arguments and its own index.
pub proof fn every_import_is_offered(table: Seq<ImportView>, instance: i32, index: int)
    requires
        0 <= index < table.len(),
        forall|i: int|
            0 <= i < table.len() && (#[trigger] table[i]).module == table[index].module
                && table[i].name == table[index].name ==> i == index,
    ensures
        offered(
            object_of(table, table.len(), instance),
            table[index].module,
            table[index].name,
        ) == Some(function_of(table[index], instance, index)),
{
    lemma_only_named(table, table.len(), index);
    the_object_offers_the_imports(
        table,
        table.len(),
        instance,
        table[index].module,
        table[index].name,
    );
}

/// An import whose module and name no other import has stands in the object, in the namespace of
/// its module, as a function of its name that takes as many parameters as the import has
/// arguments and that carries the index of the instance and the index of the import.
pub proof fn every_import_has_its_function(table: Seq<ImportView>, instance: i32, index: int)
    requires
        0 <= index < table.len() <= i32::MAX,
        table[index].nargs <= u32::MAX,
        forall|i: int|
            0 <= i < table.len() && (#[trigger] table[i]).module == table[index].module
                && table[i].name == table[index].name ==> i == index,
    ensures
        exists|place: int, within: int|
            #![trigger object_of(table, table.len(), instance)[place].functions[within]]
            {
                let object = object_of(table, table.len(), instance);
                let function = object[place].functions[within];
                &&& 0 <= place < object.len()
                &&& 0 <= within < object[place].functions.len()
                &&& object[place].module == table[index].module
                &&& function.name == table[index].name
                &&& function.nargs == table[index].nargs
                &&& function.instance == instance
                &&& function.entry == index
            },
{
    let object = object_of(table, table.len(), instance);
    let place = namespace_index(object, table[index].module) as int;
    let within = function_index(object[place].functions, table[index].name) as int;
    every_import_is_offered(table, instance, index);
    lemma_namespace_index(object, table[index].module);
    lemma_function_index(object[place].functions, table[index].name);
    assert(object[place].functions[within] == function_of(table[index], instance, index));
}

/// Members can be offered exactly if no byte of the encoding of their names is zero.
pub proof fn names_without_a_nul_can_be_offered(members: Seq<MemberImport>)
    ensures
        all_nameable(members) <==> forall|i: int, k: int|
            #![trigger encode_utf8(members[i].module@)[k]]
            #![trigger encode_utf8(members[i].name@)[k]]
            0 <= i < members.len() ==> {
                &&& 0 <= k < encode_utf8(members[i].module@).len() ==> encode_utf8(
                    members[i].module@,
                )[k] != 0
                &&& 0 <= k < encode_utf8(members[i].name@).len() ==> encode_utf8(
                    members[i].name@,
                )[k] != 0
            },
{
    if all_nameable(members) {
        assert forall|i: int, k: int|
            #![trigger encode_utf8(members[i].module@)[k]]
            #![trigger encode_utf8(members[i].name@)[k]]
            0 <= i < members.len() implies {
            &&& 0 <= k < encode_utf8(members[i].module@).len() ==> encode_utf8(
                members[i].module@,
            )[k] != 0
            &&& 0 <= k < encode_utf8(members[i].name@).len() ==> encode_utf8(members[i].name@)[k]
                != 0
        } by {
            assert(nameable(members[i].module@) && nameable(members[i].name@));
        }
    }
}

/// A host function is shown as it is, and an object shows its namespaces and their functions in
/// their order.
pub proof fn an_object_is_shown_as_it_is(object: ImportObjectPlan, place: int, within: int)
    requires
        0 <= place < object.namespaces@.len(),
        0 <= within < object.namespaces@[place].functions@.len(),
    ensures
        ({
            let function = object.namespaces@[place].functions@[within];
            let shown = object@[place].functions[within];
            &&& object@.len() == object.namespaces@.len()
            &&& object@[place].module == object.namespaces@[place].module@
            &&& object@[place].functions.len() == object.namespaces@[place].functions@.len()
            &&& shown.name == function.name@
            &&& shown.nargs == function.nargs
            &&& shown.instance == function.instance
            &&& shown.entry == function.entry
        }),
{
}

/// The object has one namespace for each module and in it one function for each name.
pub proof fn nothing_is_defined_twice(table: Seq<ImportView>, count: nat, instance: i32)
    requires
        count <= table.len(),
    ensures
        ({
            let object = object_of(table, count, instance);
            &&& forall|i: int, j: int|
                0 <= i < j < object.len() ==> (#[trigger] object[i]).module != (
                #[trigger] object[j]).module
            &&& forall|i: int, k: int, l: int|
                0 <= i < object.len() && 0 <= k < l < object[i].functions.len() ==> (
                #[trigger] object[i].functions[k]).name != (#[trigger] object[i].functions[l]).name
        }),
    decreases count,
{
    if count > 0 {
        let entry = table[count - 1];
        let before = object_of(table, (count - 1) as nat, instance);
        let created = with_namespace(before, entry.module);
        let at = namespace_index(created, entry.module) as int;
        let function = function_of(entry, instance, count - 1);
        let object = object_of(table, count, instance);
        nothing_is_defined_twice(table, (count - 1) as nat, instance);
        lemma_namespace_index(before, entry.module);
        lemma_namespace_index(created, entry.module);
        lemma_namespace_push(
            before,
            NamespaceView { module: entry.module, functions: Seq::empty() },
            entry.module,
        );
        lemma_function_index(created[at].functions, entry.name);
        assert(at < created.len());
        assert forall|i: int, j: int| 0 <= i < j < object.len() implies (
        #[trigger] object[i]).module != (#[trigger] object[j]).module by {
            assert(object[i].module == created[i].module);
            assert(object[j].module == created[j].module);
            if j < before.len() {
                assert(before[i].module != before[j].module);
            } else {
                assert(before[i].module != entry.module);
            }
        }
        assert forall|i: int, k: int, l: int|
            0 <= i < object.len() && 0 <= k < l < object[i].functions.len() implies (
        #[trigger] object[i].functions[k]).name != (#[trigger] object[i].functions[l]).name by {
            let earlier = created[i].functions;
            if i < before.len() {
                assert(earlier == before[i].functions);
                if k < l < earlier.len() {
                    assert(before[i].functions[k].name != before[i].functions[l].name);
                }
            }
            if i == at {
                assert(object[i].functions == with_function(earlier, function));
            }
        }
    }
}

} // verus!
