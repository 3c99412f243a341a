//! The DOM objects that an instance currently holds handles to.
//!
//! A slot names the reflector of a DOM object, so one table holds objects of every interface.
//! Which interface an object is of, only the engine can tell; it is asked on every resolution.

use vstd::prelude::*;

use crate::handle_laws::{
    inserting_mints_a_fresh_handle, lemma_live_handle, occupants_are_the_live_objects,
};
use crate::handle_model::{occupants, TableOp, TableView};
use crate::wasm_abi::{WasmAbiStatus, WasmHandle, MAX_INDEX, NULL_HANDLE};
use crate::wasm_handles::{accounts_for, bytes_behind, clamped_cap, HandleTable};

verus! {

/// The identity of an object on the engine's heap. No two objects share one, not even one after
/// the other.
pub type ObjectId = u64;

/// What a slot holds: the reflector of a DOM object, or a null one.
pub type Reflector = Option<ObjectId>;

/// The object that a handle names. A slot with a null reflector is as good as released.
pub open spec fn resolved(table: TableView<Reflector>, handle: WasmHandle) -> Result<
    ObjectId,
    WasmAbiStatus,
> {
    match table.lookup(handle) {
        Ok(Some(object)) => Ok(object),
        Ok(None) => Err(WasmAbiStatus::StaleHandle),
        Err(status) => Err(status),
    }
}

/// Whether two handles name the same object.
pub open spec fn same_object(
    table: TableView<Reflector>,
    left: WasmHandle,
    right: WasmHandle,
) -> bool {
    resolved(table, left) is Ok && resolved(table, left) == resolved(table, right)
}

/// What becomes of an object that was found, given whether it is of the interface asked for.
pub open spec fn of_interface(object: ObjectId, implements: bool) -> Result<
    ObjectId,
    WasmAbiStatus,
> {
    if implements {
        Ok(object)
    } else {
        Err(WasmAbiStatus::WrongType)
    }
}

/// The view that an instance has of the DOM objects it holds.
pub struct WasmDomHandles {
    table: HandleTable<Reflector>,
}

impl View for WasmDomHandles {
    type V = TableView<Reflector>;

    closed spec fn view(&self) -> TableView<Reflector> {
        self.table@
    }
}

impl WasmDomHandles {
    /// What holds of every such table.
    pub closed spec fn wf(&self) -> bool {
        self.table.wf()
    }

    /// What a table in order is known to be from outside.
    pub proof fn lemma_wf(&self)
        requires
            self.wf(),
        ensures
            self@.wf(),
            self@.depth() <= u32::MAX,
    {
        self.table.lemma_wf();
    }

    /// Creates an empty table for at most `max_handles` live handles.
    pub fn new(max_handles: u64) -> (handles: Self)
        ensures
            handles.wf(),
            handles@ == TableView::<Reflector>::new(clamped_cap(max_handles)),
    {
        WasmDomHandles { table: HandleTable::new(max_handles) }
    }

    /// Mints a handle for an object, which is kept alive until the handle is released.
    pub fn insert(&mut self, reflector: Reflector) -> (minted: Result<WasmHandle, WasmAbiStatus>)
        requires
            old(self).wf(),
        ensures
            final(self).wf(),
            final(self)@ == old(self)@.apply(TableOp::Insert(reflector)),
            minted == (if old(self)@.can_insert() {
                Ok::<WasmHandle, WasmAbiStatus>(old(self)@.next_handle())
            } else {
                Err(WasmAbiStatus::TooManyHandles)
            }),
            minted matches Ok(handle) ==> 0 < handle <= i32::MAX,
    {
        self.table.insert(reflector)
    }

    /// The object that a handle names, whatever its interface.
    pub fn resolve(&self, handle: WasmHandle) -> (found: Result<ObjectId, WasmAbiStatus>)
        requires
            self.wf(),
        ensures
            found == resolved(self@, handle),
    {
        match self.table.get(handle) {
            Ok(Some(object)) => Ok(*object),
            Ok(None) => Err(WasmAbiStatus::StaleHandle),
            Err(status) => Err(status),
        }
    }

    /// Resolves a handle to an object of the interface that `implements` tests for.
    ///
    /// A handle that names no live object is refused before the engine is asked, and a live
    /// object of another interface is refused rather than reinterpreted.
    pub fn get<F: FnOnce(ObjectId) -> bool>(&self, handle: WasmHandle, implements: F) -> (found:
        Result<ObjectId, WasmAbiStatus>)
        requires
            self.wf(),
            forall|object: ObjectId| call_requires(implements, (object,)),
        ensures
            match resolved(self@, handle) {
                Ok(object) => exists|answer: bool| #[trigger]
                    call_ensures(implements, (object,), answer) && found == of_interface(
                        object,
                        answer,
                    ),
                Err(status) => found == Err::<ObjectId, WasmAbiStatus>(status),
            },
    {
        let object = match self.resolve(handle) {
            Ok(object) => object,
            Err(status) => return Err(status),
        };
        if implements(object) {
            Ok(object)
        } else {
            Err(WasmAbiStatus::WrongType)
        }
    }

    /// Releases a handle. Releasing one that is not held is an error, so a double release
    /// surfaces at once.
    pub fn remove(&mut self, handle: WasmHandle) -> (removed: Result<(), WasmAbiStatus>)
        requires
            old(self).wf(),
        ensures
            final(self).wf(),
            final(self)@ == old(self)@.apply(TableOp::Remove(handle)),
            removed == (match old(self)@.lookup(handle) {
                Ok(_) => Ok::<(), WasmAbiStatus>(()),
                Err(status) => Err(status),
            }),
    {
        match self.table.remove(handle) {
            Ok(_) => Ok(()),
            Err(status) => Err(status),
        }
    }

    /// Opens a scope and gives the token needed to close it.
    pub fn enter_scope(&mut self) -> (token: u32)
        requires
            old(self).wf(),
            old(self)@.depth() < u32::MAX,
        ensures
            final(self).wf(),
            final(self)@ == old(self)@.apply(TableOp::EnterScope),
            token == old(self)@.depth() + 1,
    {
        self.table.enter_scope()
    }

    /// Closes the innermost scope and releases everything allocated inside it.
    pub fn exit_scope(&mut self, token: u32) -> (closed: Result<(), WasmAbiStatus>)
        requires
            old(self).wf(),
        ensures
            final(self).wf(),
            final(self)@ == old(self)@.apply(TableOp::ExitScope(token)),
            closed == (if old(self)@.depth() > 0 && token == old(self)@.depth() {
                Ok::<(), WasmAbiStatus>(())
            } else {
                Err(WasmAbiStatus::InvalidScope)
            }),
    {
        self.table.exit_scope(token)
    }

    /// How many scopes are open.
    pub fn scope_depth(&self) -> (depth: u32)
        requires
            self.wf(),
        ensures
            depth == self@.depth(),
    {
        self.table.scope_depth()
    }

    /// The number of live handles.
    pub fn len(&self) -> (count: u32)
        requires
            self.wf(),
        ensures
            count == self@.live().dom().len(),
            count <= MAX_INDEX + 1,
    {
        self.table.len()
    }

    /// Whether two handles name the same object. Handles are not interned, so comparing the
    /// integers says nothing.
    pub fn same_object(&self, left: WasmHandle, right: WasmHandle) -> (same: bool)
        requires
            self.wf(),
        ensures
            same == same_object(self@, left, right),
    {
        match (self.table.get(left), self.table.get(right)) {
            (Ok(Some(left)), Ok(Some(right))) => *left == *right,
            _ => false,
        }
    }

    /// The objects that live handles name. As long as they are kept alive, so is everything that
    /// the module can reach.
    pub fn objects(&self) -> (objects: Vec<ObjectId>)
        requires
            self.wf(),
        ensures
            forall|object: ObjectId| #[trigger]
                objects@.contains(object) <==> self@.names(Some(object)),
    {
        let live = self.table.live_objects();
        let ghost reflectors = occupants(self@.slots);
        proof {
            self.table.lemma_wf();
            occupants_are_the_live_objects(self@);
        }
        let mut objects: Vec<ObjectId> = Vec::new();
        for i in 0..live.len()
            invariant
                live@.unref() == reflectors,
                forall|object: ObjectId| #[trigger]
                    objects@.contains(object) <==> reflectors.take(i as int).contains(
                        Some(object),
                    ),
        {
            let ghost before = objects@;
            let ghost seen = reflectors.take(i as int);
            assert(live@.unref()[i as int] == *live@[i as int]);
            assert(reflectors.take(i + 1) =~= seen.push(reflectors[i as int]));
            if let Some(object) = live[i] {
                objects.push(*object);
            }
            assert forall|object: ObjectId| #[trigger]
                objects@.contains(object) <==> reflectors.take(i + 1).contains(Some(object)) by {
                lemma_push_contains(seen, reflectors[i as int], Some(object));
                if let Some(added) = reflectors[i as int] {
                    lemma_push_contains(before, added, object);
                }
            }
        }
        assert(reflectors.take(reflectors.len() as int) =~= reflectors);
        proof {
            assert forall|object: ObjectId| #[trigger]
                objects@.contains(object) <==> self@.names(Some(object)) by {
                if reflectors.contains(Some(object)) {
                    let j = choose|j: int|
                        0 <= j < reflectors.len() && reflectors[j] == Some(object);
                    assert(self@.names(occupants(self@.slots)[j]));
                }
                if self@.names(Some(object)) {
                    let handle = choose|handle: WasmHandle| #[trigger]
                        self@.is_live(handle) && self@.live()[handle] == Some(object);
                    assert(reflectors.contains(self@.live()[handle]));
                }
            }
        }
        objects
    }

    /// The bytes that the table itself has allocated, or `None` if they do not fit.
    pub fn size_of(&self) -> (bytes: Option<usize>)
        requires
            self.wf(),
        ensures
            exists|slots: usize, free_list: usize, scope_allocations: usize, scope_marks: usize|
                #[trigger]
                accounts_for(self@, bytes, slots, free_list, scope_allocations, scope_marks),
            bytes matches Some(total) ==> total >= bytes_behind::<Reflector>(
                self@.slots.len() as int,
                self@.free_list.len() as int,
                self@.scope_allocations.len() as int,
                self@.scope_marks.len() as int,
            ),
    {
        assert(self@ == self.table@);
        self.table.size_of()
    }

    /// Drops every handle.
    pub fn clear(&mut self)
        requires
            old(self).wf(),
        ensures
            final(self).wf(),
            final(self)@ == old(self)@.apply(TableOp::Clear),
            final(self)@.live() == Map::<WasmHandle, Reflector>::empty(),
    {
        self.table.clear();
    }
}

/// What a sequence holds once something is added to it.
pub proof fn lemma_push_contains<A>(items: Seq<A>, added: A, item: A)
    ensures
        items.push(added).contains(item) <==> items.contains(item) || item == added,
{
    if items.contains(item) {
        let i = choose|i: int| 0 <= i < items.len() && items[i] == item;
        assert(items.push(added)[i] == item);
    }
    if items.push(added).contains(item) {
        let i = choose|i: int| 0 <= i < items.push(added).len() && items.push(added)[i] == item;
        if i < items.len() {
            assert(items[i] == item);
        }
    }
    assert(items.push(added)[items.len() as int] == added);
}

/// Asking for the same object twice gives two handles that differ as integers and compare equal
/// as objects.
pub proof fn handles_are_not_interned(table: TableView<Reflector>, object: ObjectId)
    requires
        table.wf(),
        table.can_insert(),
        table.inserted(Some(object)).can_insert(),
    ensures
        ({
            let once = table.inserted(Some(object));
            let twice = once.inserted(Some(object));
            &&& table.next_handle() != once.next_handle()
            &&& same_object(twice, table.next_handle(), once.next_handle())
        }),
{
    let first = table.next_handle();
    let once = table.inserted(Some(object));
    let second = once.next_handle();
    let twice = once.inserted(Some(object));
    inserting_mints_a_fresh_handle(table, Some(object));
    inserting_mints_a_fresh_handle(once, Some(object));
    assert(once.spent(first));
    assert(twice.live().dom().contains(first));
    assert(twice.live().dom().contains(second));
    assert(twice.is_live(first) && twice.is_live(second));
    assert(twice.live()[first] == Some(object));
}

/// Naming the same object is symmetric and transitive, and holds of every handle that names an
/// object and itself. Nothing compares equal to a handle that names none.
pub proof fn identity_is_an_equivalence(
    table: TableView<Reflector>,
    first: WasmHandle,
    second: WasmHandle,
    third: WasmHandle,
)
    ensures
        same_object(table, first, first) <==> resolved(table, first) is Ok,
        same_object(table, first, second) <==> same_object(table, second, first),
        same_object(table, first, second) && same_object(table, second, third) ==> same_object(
            table,
            first,
            third,
        ),
        resolved(table, first) is Err ==> !same_object(table, first, second),
{
}

/// A handle resolves to an object exactly if it is live and its slot has the reflector of that
/// object.
pub proof fn a_handle_resolves_to_its_object(
    table: TableView<Reflector>,
    handle: WasmHandle,
    object: ObjectId,
)
    requires
        table.wf(),
    ensures
        resolved(table, handle) == Ok::<ObjectId, WasmAbiStatus>(object) <==> table.live().dom(
        ).contains(handle) && table.live()[handle] == Some(object),
{
    if table.is_live(handle) {
        lemma_live_handle(table, handle);
        assert(handle != NULL_HANDLE);
    }
}

/// Two handles name the same object exactly if both are live and their slots have the same
/// reflector, which is not null.
pub proof fn the_same_object_is_one_that_both_name(
    table: TableView<Reflector>,
    left: WasmHandle,
    right: WasmHandle,
)
    requires
        table.wf(),
    ensures
        same_object(table, left, right) <==> {
            &&& table.live().dom().contains(left)
            &&& table.live().dom().contains(right)
            &&& table.live()[left] is Some
            &&& table.live()[left] == table.live()[right]
        },
{
    if table.is_live(left) {
        lemma_live_handle(table, left);
        assert(left != NULL_HANDLE);
    }
    if table.is_live(right) {
        lemma_live_handle(table, right);
        assert(right != NULL_HANDLE);
    }
}

/// An object is given out as it is if it is of the interface asked for, and not at all otherwise.
pub proof fn only_the_interface_asked_for_is_given_out(object: ObjectId)
    ensures
        of_interface(object, true) == Ok::<ObjectId, WasmAbiStatus>(object),
        of_interface(object, false) == Err::<ObjectId, WasmAbiStatus>(WasmAbiStatus::WrongType),
{
}

} // verus!
