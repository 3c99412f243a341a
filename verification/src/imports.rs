//! The table of host functions that a module can import.
//!
//! Those of `servo:dom/core` are primitives of the runtime: the bootstrap root, the lifetime of
//! handles, and the two side channels that drain a string that was too large or the message of a
//! failure. Those of `servo:dom/event-target` register and remove listeners, which the module
//! names by integer ids. Further entries, one for each exposed member of the DOM, follow behind
//! these in the table.

use vstd::prelude::*;
verus! {

/// What an import runs.
#[derive(Clone, Copy, Debug, Eq, PartialEq, Structural)]
pub enum HostFunction {
    AbiVersion,
    Document,
    HandleDrop,
    HandleEq,
    HandleScopeEnter,
    HandleScopeExit,
    HandleCount,
    StringRead,
    ErrorCode,
    ErrorMessage,
    AddEventListener,
    RemoveEventListener,
    /// A member of the DOM, told apart by its place in the table.
    Member,
}

/// One importable host function.
#[derive(Clone, Copy)]
pub struct WasmImportEntry {
    /// The import module name, such as `servo:dom/node`.
    pub module: &'static str,
    /// The import field name, such as `append-child`.
    pub name: &'static str,
    /// The number of arguments, checked before the call.
    pub nargs: usize,
    pub call: HostFunction,
}

/// A member of the DOM that can be imported.
#[derive(Clone, Copy)]
pub struct MemberImport {
    pub module: &'static str,
    pub name: &'static str,
    pub nargs: usize,
}

/// One importable host function.
pub struct ImportView {
    pub module: Seq<char>,
    pub name: Seq<char>,
    pub nargs: nat,
    pub call: HostFunction,
}

impl View for WasmImportEntry {
    type V = ImportView;

    open spec fn view(&self) -> ImportView {
        ImportView {
            module: self.module@,
            name: self.name@,
            nargs: self.nargs as nat,
            call: self.call,
        }
    }
}

impl View for MemberImport {
    type V = ImportView;

    open spec fn view(&self) -> ImportView {
        ImportView {
            module: self.module@,
            name: self.name@,
            nargs: self.nargs as nat,
            call: HostFunction::Member,
        }
    }
}

impl MemberImport {
    /// The entry of a member in the import table.
    pub fn entry(&self) -> (entry: WasmImportEntry)
        ensures
            entry@ == self@,
    {
        WasmImportEntry {
            module: self.module,
            name: self.name,
            nargs: self.nargs,
            call: HostFunction::Member,
        }
    }
}

/// The number of entries of [`core_table`].
pub const CORE_IMPORTS: usize = 12;

/// The imports of the runtime itself.
pub open spec fn core_table() -> Seq<ImportView> {
    seq![
        ImportView {
            module: "servo:dom/core"@,
            name: "abi-version"@,
            nargs: 0,
            call: HostFunction::AbiVersion,
        },
        ImportView {
            module: "servo:dom/core"@,
            name: "document"@,
            nargs: 0,
            call: HostFunction::Document,
        },
        ImportView {
            module: "servo:dom/core"@,
            name: "handle-drop"@,
            nargs: 1,
            call: HostFunction::HandleDrop,
        },
        ImportView {
            module: "servo:dom/core"@,
            name: "handle-eq"@,
            nargs: 2,
            call: HostFunction::HandleEq,
        },
        ImportView {
            module: "servo:dom/core"@,
            name: "handle-scope-enter"@,
            nargs: 0,
            call: HostFunction::HandleScopeEnter,
        },
        ImportView {
            module: "servo:dom/core"@,
            name: "handle-scope-exit"@,
            nargs: 1,
            call: HostFunction::HandleScopeExit,
        },
        ImportView {
            module: "servo:dom/core"@,
            name: "handle-count"@,
            nargs: 0,
            call: HostFunction::HandleCount,
        },
        ImportView {
            module: "servo:dom/core"@,
            name: "string-read"@,
            nargs: 2,
            call: HostFunction::StringRead,
        },
        ImportView {
            module: "servo:dom/core"@,
            name: "error-code"@,
            nargs: 0,
            call: HostFunction::ErrorCode,
        },
        ImportView {
            module: "servo:dom/core"@,
            name: "error-message"@,
            nargs: 2,
            call: HostFunction::ErrorMessage,
        },
        ImportView {
            module: "servo:dom/event-target"@,
            name: "add-event-listener"@,
            nargs: 5,
            call: HostFunction::AddEventListener,
        },
        ImportView {
            module: "servo:dom/event-target"@,
            name: "remove-event-listener"@,
            nargs: 5,
            call: HostFunction::RemoveEventListener,
        },
    ]
}

/// The whole import table: the imports of the runtime, then the members of the DOM.
pub open spec fn import_table(members: Seq<MemberImport>) -> Seq<ImportView> {
    core_table() + members.map_values(|member: MemberImport| member@)
}

/// The imports of the runtime itself, in the order of their indices.
pub fn core_imports() -> (entries: Vec<WasmImportEntry>)
    ensures
        entries@.len() == CORE_IMPORTS,
        entries@.map_values(|entry: WasmImportEntry| entry@) == core_table(),
{
    let mut entries: Vec<WasmImportEntry> = Vec::new();
    let core = "servo:dom/core";
    let event_target = "servo:dom/event-target";
    entries.push(
        WasmImportEntry {
            module: core,
            name: "abi-version",
            nargs: 0,
            call: HostFunction::AbiVersion,
        },
    );
    entries.push(
        WasmImportEntry { module: core, name: "document", nargs: 0, call: HostFunction::Document },
    );
    entries.push(
        WasmImportEntry {
            module: core,
            name: "handle-drop",
            nargs: 1,
            call: HostFunction::HandleDrop,
        },
    );
    entries.push(
        WasmImportEntry { module: core, name: "handle-eq", nargs: 2, call: HostFunction::HandleEq },
    );
    entries.push(
        WasmImportEntry {
            module: core,
            name: "handle-scope-enter",
            nargs: 0,
            call: HostFunction::HandleScopeEnter,
        },
    );
    entries.push(
        WasmImportEntry {
            module: core,
            name: "handle-scope-exit",
            nargs: 1,
            call: HostFunction::HandleScopeExit,
        },
    );
    entries.push(
        WasmImportEntry {
            module: core,
            name: "handle-count",
            nargs: 0,
            call: HostFunction::HandleCount,
        },
    );
    entries.push(
        WasmImportEntry {
            module: core,
            name: "string-read",
            nargs: 2,
            call: HostFunction::StringRead,
        },
    );
    entries.push(
        WasmImportEntry {
            module: core,
            name: "error-code",
            nargs: 0,
            call: HostFunction::ErrorCode,
        },
    );
    entries.push(
        WasmImportEntry {
            module: core,
            name: "error-message",
            nargs: 2,
            call: HostFunction::ErrorMessage,
        },
    );
    entries.push(
        WasmImportEntry {
            module: event_target,
            name: "add-event-listener",
            nargs: 5,
            call: HostFunction::AddEventListener,
        },
    );
    entries.push(
        WasmImportEntry {
            module: event_target,
            name: "remove-event-listener",
            nargs: 5,
            call: HostFunction::RemoveEventListener,
        },
    );
    assert(entries@.map_values(|entry: WasmImportEntry| entry@) =~= core_table());
    entries
}

/// The import at an index, which spans the imports of the runtime and then the members of the
/// DOM. The index is what a host function carries, so the order is part of the contract.
pub fn import_at(index: usize, members: &[MemberImport]) -> (entry: Option<WasmImportEntry>)
    ensures
        match entry {
            Some(entry) => {
                &&& index < import_table(members@).len()
                &&& entry@ == import_table(members@)[index as int]
            },
            None => index >= import_table(members@).len(),
        },
{
    let core = core_imports();
    assert(core@.map_values(|entry: WasmImportEntry| entry@).len() == CORE_IMPORTS);
    if index < core.len() {
        assert(core@.map_values(|entry: WasmImportEntry| entry@)[index as int] == core@[
            index as int
        ]@);
        return Some(core[index]);
    }
    let offset: usize = index - core.len();
    if offset < members.len() {
        Some(members[offset].entry())
    } else {
        None
    }
}

/// Every import, in the order of its index.
pub fn all_imports(members: &[MemberImport]) -> (entries: Vec<WasmImportEntry>)
    ensures
        entries@.map_values(|entry: WasmImportEntry| entry@) == import_table(members@),
        entries@.len() == import_table(members@).len(),
{
    let mut entries = core_imports();
    let ghost view = |entry: WasmImportEntry| entry@;
    assert(entries@.map_values(view).len() == CORE_IMPORTS);
    for i in 0..members.len()
        invariant
            view == (|entry: WasmImportEntry| entry@),
            entries@.map_values(view) == core_table() + members@.take(i as int).map_values(
                |member: MemberImport| member@,
            ),
    {
        let entry = members[i].entry();
        let ghost before = entries@;
        entries.push(entry);
        assert(entries@.map_values(view) =~= before.map_values(view).push(entry@));
        assert(members@.take(i + 1) =~= members@.take(i as int).push(members@[i as int]));
        assert(members@.take(i + 1).map_values(|member: MemberImport| member@) =~= members@.take(
            i as int,
        ).map_values(|member: MemberImport| member@).push(entry@));
        assert(entries@.map_values(view) =~= core_table() + members@.take(i + 1).map_values(
            |member: MemberImport| member@,
        ));
    }
    assert(members@.take(members@.len() as int) =~= members@);
    assert(entries@.len() == entries@.map_values(view).len());
    entries
}

/// Whatever members follow, the imports of the runtime keep their indices.
pub proof fn core_imports_keep_their_indices(
    members: Seq<MemberImport>,
    other: Seq<MemberImport>,
    index: int,
)
    requires
        0 <= index < CORE_IMPORTS,
    ensures
        index < import_table(members).len(),
        import_table(members)[index] == core_table()[index],
        import_table(members)[index] == import_table(other)[index],
{
    assert(core_table().len() == CORE_IMPORTS);
}

/// No two imports of the runtime share a name.
pub proof fn core_import_names_are_distinct(index: int, other: int)
    requires
        0 <= index < CORE_IMPORTS,
        0 <= other < CORE_IMPORTS,
        core_table()[index].name == core_table()[other].name,
    ensures
        index == other,
{
    reveal_strlit("abi-version");
    reveal_strlit("document");
    reveal_strlit("handle-drop");
    reveal_strlit("handle-eq");
    reveal_strlit("handle-scope-enter");
    reveal_strlit("handle-scope-exit");
    reveal_strlit("handle-count");
    reveal_strlit("string-read");
    reveal_strlit("error-code");
    reveal_strlit("error-message");
    reveal_strlit("add-event-listener");
    reveal_strlit("remove-event-listener");
    let name = core_table()[index].name;
    let same = core_table()[other].name;
    assert(name.len() == same.len());
    assert(name[0] == same[0]);
}

/// The imports of the runtime stand in two modules, and behind them stands each member of the DOM
/// as it was given, in the order in which they were given.
pub proof fn imports_stand_in_their_modules(members: Seq<MemberImport>, index: int)
    requires
        0 <= index < 12 + members.len(),
    ensures
        import_table(members).len() == 12 + members.len(),
        index < 10 ==> import_table(members)[index].module == "servo:dom/core"@,
        10 <= index < 12 ==> import_table(members)[index].module == "servo:dom/event-target"@,
        12 <= index ==> {
            let entry = import_table(members)[index];
            &&& entry.module == members[index - 12].module@
            &&& entry.name == members[index - 12].name@
            &&& entry.nargs == members[index - 12].nargs
            &&& entry.call == HostFunction::Member
        },
{
    assert(core_table().len() == 12);
}

} // verus!
