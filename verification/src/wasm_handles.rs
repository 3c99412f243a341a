//! The handle table: where the integers that a module holds are minted, resolved and released.
//!
//! Generic over what a slot names. Every release bumps the generation of the slot, and a slot
//! whose generations are used up is retired rather than wrapped, so a stale handle stays
//! detectably stale for as long as the table lives.

use vstd::prelude::*;
use vstd::std_specs::iter::IteratorSpec;

use crate::handle_laws::{
    inserting_mints_a_fresh_handle, lemma_live_handle, live_handles_are_counted,
    occupants_are_the_live_objects, operations_keep_the_table, releasing_ends_one_handle,
    releasing_many_ends_their_handles,
};
use crate::handle_model::{
    lemma_occupied_none, lemma_occupied_positive, occupants, occupied, Slot, TableOp, TableView,
};
use crate::wasm_abi::{
    handle_index, pack_handle, unpack_handle, WasmAbiStatus, WasmHandle, MAX_GENERATION, MAX_INDEX,
    MIN_GENERATION, NULL_HANDLE,
};

verus! {

/// A generational handle table.
///
/// A handle minted by [`HandleTable::insert`] is valid until [`HandleTable::remove`] releases it
/// or the scope it was minted in is closed.
pub struct HandleTable<T> {
    slots: Vec<Slot<T>>,
    /// Vacant slots that are not retired.
    free_list: Vec<u32>,
    /// The slots filled inside some scope, in order.
    scope_allocations: Vec<u32>,
    /// The length of `scope_allocations` when each open scope was entered.
    scope_marks: Vec<usize>,
    scope_depth: u32,
    live_count: u32,
    max_handles: u32,
}

impl<T> View for HandleTable<T> {
    type V = TableView<T>;

    closed spec fn view(&self) -> TableView<T> {
        TableView {
            slots: self.slots@,
            free_list: self.free_list@,
            scope_allocations: self.scope_allocations@,
            scope_marks: self.scope_marks@.map_values(|mark: usize| mark as nat),
            max_handles: self.max_handles,
        }
    }
}

/// The capacity of a vector, from `Vec::capacity`: room for at least what the vector holds. How
/// much more there is, the allocator decides.
#[verifier::external_body]
fn capacity_of<V>(items: &Vec<V>) -> (capacity: usize)
    ensures
        capacity >= items@.len(),
{
    items.capacity()
}

/// The bytes behind vectors of slots, free slots, scope allocations and scope marks, given how
/// many items each has room for.
pub open spec fn bytes_behind<T>(
    slots: int,
    free_list: int,
    scope_allocations: int,
    scope_marks: int,
) -> int {
    slots * vstd::layout::size_of::<Slot<T>>() + free_list * vstd::layout::size_of::<u32>()
        + scope_allocations * vstd::layout::size_of::<u32>() + scope_marks
        * vstd::layout::size_of::<usize>()
}

/// Whether a count of bytes is the one for a table whose vectors have room for the given numbers
/// of items: exactly the bytes behind them, or `None` if those do not fit. There is room for what
/// the table holds.
pub open spec fn accounts_for<T>(
    table: TableView<T>,
    bytes: Option<usize>,
    slots: usize,
    free_list: usize,
    scope_allocations: usize,
    scope_marks: usize,
) -> bool {
    let behind = bytes_behind::<T>(
        slots as int,
        free_list as int,
        scope_allocations as int,
        scope_marks as int,
    );
    &&& slots >= table.slots.len()
    &&& free_list >= table.free_list.len()
    &&& scope_allocations >= table.scope_allocations.len()
    &&& scope_marks >= table.scope_marks.len()
    &&& match bytes {
        Some(total) => total == behind,
        None => behind > usize::MAX,
    }
}

/// The bytes behind a handle table whose vectors have room for the given numbers of items, or
/// `None` if that does not fit.
pub fn allocated_bytes<T>(
    slots: usize,
    free_list: usize,
    scope_allocations: usize,
    scope_marks: usize,
) -> (bytes: Option<usize>)
    ensures
        match bytes {
            Some(total) => total == bytes_behind::<T>(
                slots as int,
                free_list as int,
                scope_allocations as int,
                scope_marks as int,
            ),
            None => bytes_behind::<T>(
                slots as int,
                free_list as int,
                scope_allocations as int,
                scope_marks as int,
            ) > usize::MAX,
        },
{
    let slot_bytes: u128 = product(slots, core::mem::size_of::<Slot<T>>());
    let free_bytes: u128 = product(free_list, core::mem::size_of::<u32>());
    let allocation_bytes: u128 = product(scope_allocations, core::mem::size_of::<u32>());
    let mark_bytes: u128 = product(scope_marks, core::mem::size_of::<usize>());
    if slot_bytes > usize::MAX as u128 || free_bytes > usize::MAX as u128 || allocation_bytes
        > usize::MAX as u128 || mark_bytes > usize::MAX as u128 {
        return None;
    }
    let total: u128 = slot_bytes + free_bytes + allocation_bytes + mark_bytes;
    if total > usize::MAX as u128 {
        None
    } else {
        Some(total as usize)
    }
}

/// More room takes no fewer bytes.
proof fn lemma_bytes_behind_monotone<T>(
    slots: int,
    more_slots: int,
    free_list: int,
    more_free_list: int,
    scope_allocations: int,
    more_scope_allocations: int,
    scope_marks: int,
    more_scope_marks: int,
)
    requires
        slots <= more_slots,
        free_list <= more_free_list,
        scope_allocations <= more_scope_allocations,
        scope_marks <= more_scope_marks,
    ensures
        bytes_behind::<T>(slots, free_list, scope_allocations, scope_marks) <= bytes_behind::<T>(
            more_slots,
            more_free_list,
            more_scope_allocations,
            more_scope_marks,
        ),
{
    vstd::arithmetic::mul::lemma_mul_inequality(
        slots,
        more_slots,
        vstd::layout::size_of::<Slot<T>>() as int,
    );
    vstd::arithmetic::mul::lemma_mul_inequality(
        free_list,
        more_free_list,
        vstd::layout::size_of::<u32>() as int,
    );
    vstd::arithmetic::mul::lemma_mul_inequality(
        scope_allocations,
        more_scope_allocations,
        vstd::layout::size_of::<u32>() as int,
    );
    vstd::arithmetic::mul::lemma_mul_inequality(
        scope_marks,
        more_scope_marks,
        vstd::layout::size_of::<usize>() as int,
    );
}

/// A product that cannot overflow.
fn product(count: usize, size: usize) -> (bytes: u128)
    ensures
        bytes == count * size,
        bytes >= 0,
{
    assert(0 <= count * size <= u64::MAX * u64::MAX) by (nonlinear_arith)
        requires
            0 <= count <= u64::MAX,
            0 <= size <= u64::MAX,
    ;
    count as u128 * size as u128
}

/// A cap on live handles, brought into the range that the handle encoding can address.
pub open spec fn clamped_cap(max_handles: u64) -> u32 {
    if max_handles < 1 {
        1
    } else if max_handles > MAX_INDEX + 1 {
        (MAX_INDEX + 1) as u32
    } else {
        max_handles as u32
    }
}

impl<T> TableView<T> {
    /// This table with the scopes of another one.
    spec fn with_scopes_of(self, other: Self) -> Self {
        TableView {
            scope_allocations: other.scope_allocations,
            scope_marks: other.scope_marks,
            ..self
        }
    }
}

impl<T> HandleTable<T> {
    /// The counters agree with what they count.
    closed spec fn counted(&self) -> bool {
        &&& self.live_count == occupied(self.slots@)
        &&& self.scope_depth == self.scope_marks@.len()
    }

    /// What holds of every table.
    pub closed spec fn wf(&self) -> bool {
        self.counted() && self@.wf()
    }

    /// What a table in order is known to be from outside.
    pub proof fn lemma_wf(&self)
        requires
            self.wf(),
        ensures
            self@.wf(),
            self@.depth() <= u32::MAX,
    {
    }

    /// Creates an empty table for at most `max_handles` live handles, or for as many as the
    /// encoding can address if that is fewer, and for one at the least.
    pub fn new(max_handles: u64) -> (table: Self)
        ensures
            table.wf(),
            table@ == TableView::<T>::new(clamped_cap(max_handles)),
            table@.live() == Map::<WasmHandle, T>::empty(),
    {
        let ceiling: u64 = MAX_INDEX as u64 + 1;
        let cap: u64 = if max_handles < 1 {
            1
        } else if max_handles > ceiling {
            ceiling
        } else {
            max_handles
        };
        let table = HandleTable {
            slots: Vec::new(),
            free_list: Vec::new(),
            scope_allocations: Vec::new(),
            scope_marks: Vec::new(),
            scope_depth: 0,
            live_count: 0,
            max_handles: cap as u32,
        };
        assert(table@.scope_marks =~= Seq::empty());
        assert(table@.live() =~= Map::<WasmHandle, T>::empty());
        table
    }

    /// The number of live handles.
    pub fn len(&self) -> (count: u32)
        requires
            self.wf(),
        ensures
            count == self@.live().dom().len(),
            count <= self@.max_handles,
            count <= MAX_INDEX + 1,
    {
        proof {
            live_handles_are_counted(self@);
        }
        self.live_count
    }

    /// Whether no handle is live.
    pub fn is_empty(&self) -> (empty: bool)
        requires
            self.wf(),
        ensures
            empty == (self@.live() == Map::<WasmHandle, T>::empty()),
            empty == (self@.live().dom().len() == 0),
    {
        proof {
            live_handles_are_counted(self@);
            if self.live_count == 0 {
                assert(self@.live().dom() =~= Set::empty());
                assert(self@.live() =~= Map::<WasmHandle, T>::empty());
            }
        }
        self.live_count == 0
    }

    /// How many scopes are open.
    pub fn scope_depth(&self) -> (depth: u32)
        requires
            self.wf(),
        ensures
            depth == self@.depth(),
    {
        self.scope_depth
    }

    /// Mints a handle for an object.
    ///
    /// If a scope is open, the handle belongs to it and is released when it is closed, if not
    /// before.
    pub fn insert(&mut self, payload: T) -> (minted: Result<WasmHandle, WasmAbiStatus>)
        requires
            old(self).wf(),
        ensures
            final(self).wf(),
            final(self)@ == old(self)@.apply(TableOp::Insert(payload)),
            minted == (if old(self)@.can_insert() {
                Ok::<WasmHandle, WasmAbiStatus>(old(self)@.next_handle())
            } else {
                Err(WasmAbiStatus::TooManyHandles)
            }),
            minted matches Ok(handle) ==> {
                &&& handle != NULL_HANDLE
                &&& handle <= i32::MAX
                &&& !old(self)@.spent(handle)
                &&& final(self)@.live() == old(self)@.live().insert(handle, payload)
            },
    {
        let ghost before = self@;
        proof {
            operations_keep_the_table(before, TableOp::Insert(payload));
            if before.can_insert() {
                inserting_mints_a_fresh_handle(before, payload);
            }
        }
        if self.live_count >= self.max_handles {
            return Err(WasmAbiStatus::TooManyHandles);
        }
        let reused = self.free_list.pop();
        let index: u32 = match reused {
            Some(index) => {
                assert(before.free_list[before.free_list.len() - 1] == index);
                index
            },
            None => {
                let count: usize = self.slots.len();
                if count > MAX_INDEX as usize {
                    assert(self@ =~= before);
                    return Err(WasmAbiStatus::TooManyHandles);
                }
                self.slots.push(
                    Slot { payload: None, generation: MIN_GENERATION, retired: false },
                );
                count as u32
            },
        };
        let generation: u32 = self.slots[index as usize].generation;
        let handle = match pack_handle(index, generation) {
            Some(handle) => handle,
            None => {
                assert(false);
                return Err(WasmAbiStatus::TooManyHandles);
            },
        };
        self.slots[index as usize].payload = Some(payload);
        self.live_count += 1;
        if self.scope_depth > 0 {
            self.scope_allocations.push(index);
        }
        assert(self@ =~= before.inserted(payload));
        Ok(handle)
    }

    /// Resolves a handle to the object it names.
    ///
    /// A handle that never existed is told apart from one whose object has been released.
    pub fn get(&self, handle: WasmHandle) -> (found: Result<&T, WasmAbiStatus>)
        requires
            self.wf(),
        ensures
            match found {
                Ok(payload) => self@.lookup(handle) == Ok::<T, WasmAbiStatus>(*payload),
                Err(status) => self@.lookup(handle) == Err::<T, WasmAbiStatus>(status),
            },
    {
        let index: u32 = match self.locate(handle) {
            Ok(index) => index,
            Err(status) => return Err(status),
        };
        match &self.slots[index as usize].payload {
            Some(payload) => Ok(payload),
            None => {
                assert(false);
                Err(WasmAbiStatus::StaleHandle)
            },
        }
    }

    /// Releases a handle and gives back the object it named.
    pub fn remove(&mut self, handle: WasmHandle) -> (removed: Result<T, WasmAbiStatus>)
        requires
            old(self).wf(),
        ensures
            final(self).wf(),
            final(self)@ == old(self)@.apply(TableOp::Remove(handle)),
            removed == old(self)@.lookup(handle),
            removed is Ok ==> final(self)@.live() == old(self)@.live().remove(handle),
            removed is Err ==> final(self)@ == old(self)@,
    {
        let index: u32 = match self.locate(handle) {
            Ok(index) => index,
            Err(status) => return Err(status),
        };
        proof {
            lemma_live_handle(self@, handle);
            releasing_ends_one_handle(self@, handle_index(handle));
        }
        match self.release(index) {
            Some(payload) => Ok(payload),
            None => {
                assert(false);
                Err(WasmAbiStatus::StaleHandle)
            },
        }
    }

    /// Opens a scope and gives the token that [`HandleTable::exit_scope`] has to be given.
    pub fn enter_scope(&mut self) -> (token: u32)
        requires
            old(self).wf(),
            old(self)@.depth() < u32::MAX,
        ensures
            final(self).wf(),
            final(self)@ == old(self)@.apply(TableOp::EnterScope),
            token == final(self)@.depth(),
            token == old(self)@.depth() + 1,
            final(self)@.live() == old(self)@.live(),
    {
        let ghost before = self@;
        proof {
            operations_keep_the_table(before, TableOp::EnterScope);
        }
        self.scope_marks.push(self.scope_allocations.len());
        self.scope_depth += 1;
        assert(self@ =~= before.entered());
        assert(self@.live() =~= before.live());
        self.scope_depth
    }

    /// Closes the innermost scope and releases every handle minted inside it.
    ///
    /// A token that is not that of the innermost open scope is refused, so no one can unwind past
    /// a scope that someone else relies on.
    pub fn exit_scope(&mut self, token: u32) -> (closed: Result<(), WasmAbiStatus>)
        requires
            old(self).wf(),
        ensures
            final(self).wf(),
            final(self)@ == old(self)@.apply(TableOp::ExitScope(token)),
            closed == (if old(self)@.depth() > 0 && token == old(self)@.depth() {
                Ok::<(), WasmAbiStatus>(())
            } else {
                Err(WasmAbiStatus::InvalidScope)
            }),
    {
        let ghost before = self@;
        proof {
            operations_keep_the_table(before, TableOp::ExitScope(token));
            releasing_many_ends_their_handles(before, before.innermost());
        }
        if self.scope_depth == 0 || token != self.scope_depth {
            return Err(WasmAbiStatus::InvalidScope);
        }
        let mark: usize = match self.scope_marks.pop() {
            Some(mark) => mark,
            None => {
                assert(false);
                return Err(WasmAbiStatus::InvalidScope);
            },
        };
        assert(before.scope_marks.last() == mark);
        assert(before.scope_marks[before.scope_marks.len() - 1] <= before.scope_allocations.len());
        let ghost marks = self@.scope_marks;
        assert(marks =~= before.scope_marks.drop_last());
        assert forall|k: int| 0 <= k < marks.len() implies #[trigger] marks[k] <= mark by {
            assert(before.scope_marks[k] <= before.scope_marks[before.scope_marks.len() - 1]);
        }
        let ghost target = before.all_released(before.innermost());
        assert(self@.with_scopes_of(before) =~= before);
        while self.scope_allocations.len() > mark
            invariant
                self.live_count == occupied(self.slots@),
                self.scope_depth == marks.len() + 1,
                self@.scope_marks == marks,
                mark <= self.scope_allocations@.len() <= before.scope_allocations.len(),
                self.scope_allocations@ == before.scope_allocations.take(
                    self.scope_allocations@.len() as int,
                ),
                forall|k: int| 0 <= k < marks.len() ==> #[trigger] marks[k] <= mark,
                self@.wf(),
                self@.with_scopes_of(before).all_released(
                    self.scope_allocations@.skip(mark as int),
                ) == target,
            decreases self.scope_allocations@.len(),
        {
            let ghost here = self@;
            let ghost pending = self.scope_allocations@;
            let index: u32 = match self.scope_allocations.pop() {
                Some(index) => index,
                None => {
                    assert(false);
                    return Err(WasmAbiStatus::InvalidScope);
                },
            };
            let ghost popped = self@;
            assert(popped.wf());
            proof {
                releasing_ends_one_handle(popped, index as int);
                assert(pending.skip(mark as int).drop_last() =~= self.scope_allocations@.skip(
                    mark as int,
                ));
            }
            let _ = self.release(index);
            assert(self@.with_scopes_of(before) =~= here.with_scopes_of(before).released(
                index as int,
            ));
        }
        assert(self.scope_allocations@.skip(mark as int) =~= Seq::empty());
        assert(self@ =~= before.exited());
        self.scope_depth -= 1;
        Ok(())
    }

    /// The live objects, in the order of their slots.
    pub fn iter(&self) -> (live: std::vec::IntoIter<&T>)
        requires
            self.wf(),
        ensures
            live.remaining().unref() == occupants(self@.slots),
            live.remaining().len() == self@.live().dom().len(),
    {
        self.live_objects().into_iter()
    }

    /// The live objects, in the order of their slots.
    pub fn live_objects(&self) -> (live: Vec<&T>)
        requires
            self.wf(),
        ensures
            live@.unref() == occupants(self@.slots),
            live@.len() == self@.live().dom().len(),
    {
        let mut found: Vec<&T> = Vec::new();
        proof {
            occupants_are_the_live_objects(self@);
        }
        for i in 0..self.slots.len()
            invariant
                found@.unref() == occupants(self.slots@.take(i as int)),
        {
            assert(self.slots@.take(i + 1).drop_last() =~= self.slots@.take(i as int));
            if let Some(payload) = &self.slots[i].payload {
                found.push(payload);
            }
            assert(found@.unref() =~= occupants(self.slots@.take(i + 1)));
        }
        assert(self.slots@.take(self.slots@.len() as int) =~= self.slots@);
        found
    }

    /// Releases everything and closes all scopes. No slot is put up for reuse.
    pub fn clear(&mut self)
        requires
            old(self).wf(),
        ensures
            final(self).wf(),
            final(self)@ == old(self)@.apply(TableOp::Clear),
            final(self)@.live() == Map::<WasmHandle, T>::empty(),
            final(self)@.depth() == 0,
    {
        let ghost before = self@;
        let count: usize = self.slots.len();
        for i in 0..count
            invariant
                count == self.slots@.len() == before.slots.len(),
                self.max_handles == before.max_handles,
                forall|j: int|
                    #![trigger self.slots@[j]]
                    0 <= j < i ==> self.slots@[j] == (if before.slots[j].payload is Some {
                        before.slots[j].vacated()
                    } else {
                        before.slots[j]
                    }),
                forall|j: int|
                    #![trigger self.slots@[j]]
                    i <= j < self.slots@.len() ==> self.slots@[j] == before.slots[j],
        {
            if self.slots[i].payload.is_some() {
                self.slots[i].payload = None;
                let generation: u32 = self.slots[i].generation;
                if generation >= MAX_GENERATION {
                    self.slots[i].retired = true;
                } else {
                    self.slots[i].generation = generation + 1;
                }
            }
        }
        self.free_list.clear();
        self.scope_allocations.clear();
        self.scope_marks.clear();
        self.scope_depth = 0;
        self.live_count = 0;
        proof {
            assert(self@ =~= before.cleared());
            operations_keep_the_table(before, TableOp::Clear);
            lemma_occupied_none(self.slots@);
            assert(self@.live() =~= Map::<WasmHandle, T>::empty());
        }
    }

    /// The bytes that the table itself has allocated, or `None` if they do not fit. What the
    /// payloads refer to is accounted for by whoever owns it. The capacities of the vectors are
    /// what the allocator gave, so how far they exceed what the table holds is left open.
    pub fn size_of(&self) -> (bytes: Option<usize>)
        requires
            self.wf(),
        ensures
            exists|slots: usize, free_list: usize, scope_allocations: usize, scope_marks: usize|
                #[trigger]
                accounts_for(self@, bytes, slots, free_list, scope_allocations, scope_marks),
            bytes matches Some(total) ==> total >= bytes_behind::<T>(
                self@.slots.len() as int,
                self@.free_list.len() as int,
                self@.scope_allocations.len() as int,
                self@.scope_marks.len() as int,
            ),
    {
        let slots: usize = capacity_of(&self.slots);
        let free_list: usize = capacity_of(&self.free_list);
        let scope_allocations: usize = capacity_of(&self.scope_allocations);
        let scope_marks: usize = capacity_of(&self.scope_marks);
        proof {
            lemma_bytes_behind_monotone::<T>(
                self.slots@.len() as int,
                slots as int,
                self.free_list@.len() as int,
                free_list as int,
                self.scope_allocations@.len() as int,
                scope_allocations as int,
                self.scope_marks@.len() as int,
                scope_marks as int,
            );
        }
        let bytes = allocated_bytes::<T>(slots, free_list, scope_allocations, scope_marks);
        assert(accounts_for(self@, bytes, slots, free_list, scope_allocations, scope_marks));
        bytes
    }

    /// Finds the slot of a live handle.
    fn locate(&self, handle: WasmHandle) -> (place: Result<u32, WasmAbiStatus>)
        requires
            self.wf(),
        ensures
            match place {
                Ok(index) => self@.is_live(handle) && index == handle_index(handle),
                Err(status) => {
                    &&& !self@.is_live(handle)
                    &&& self@.lookup(handle) == Err::<T, WasmAbiStatus>(status)
                },
            },
    {
        if handle == NULL_HANDLE {
            return Err(WasmAbiStatus::NullHandle);
        }
        let (index, generation) = match unpack_handle(handle) {
            Some(parts) => parts,
            None => return Err(WasmAbiStatus::InvalidHandle),
        };
        if index as usize >= self.slots.len() {
            return Err(WasmAbiStatus::InvalidHandle);
        }
        let slot = &self.slots[index as usize];
        if generation < slot.generation {
            return Err(WasmAbiStatus::StaleHandle);
        }
        if generation > slot.generation {
            return Err(WasmAbiStatus::InvalidHandle);
        }
        if slot.payload.is_some() {
            return Ok(index);
        }
        // The current generation of a vacant slot is the one of its next handle, unless the slot
        // has been given up with it.
        if slot.retired {
            Err(WasmAbiStatus::StaleHandle)
        } else {
            Err(WasmAbiStatus::InvalidHandle)
        }
    }

    /// Vacates a slot: bumps its generation, or retires it if there is none left.
    fn release(&mut self, index: u32) -> (released: Option<T>)
        requires
            old(self)@.wf(),
            old(self).live_count == occupied(old(self).slots@),
        ensures
            final(self)@ == old(self)@.released(index as int),
            final(self).live_count == occupied(final(self).slots@),
            final(self).scope_depth == old(self).scope_depth,
            final(self).scope_allocations == old(self).scope_allocations,
            final(self).scope_marks == old(self).scope_marks,
            released == (if index < old(self)@.slots.len() {
                old(self)@.slots[index as int].payload
            } else {
                None
            }),
    {
        let ghost before = self@;
        if index as usize >= self.slots.len() {
            return None;
        }
        let payload = match self.slots[index as usize].payload.take() {
            Some(payload) => payload,
            None => {
                assert(self@ =~= before);
                return None;
            },
        };
        let generation: u32 = self.slots[index as usize].generation;
        if generation >= MAX_GENERATION {
            // Giving the slot up costs one table entry forever, and no later handle can ever
            // collide with one that was handed out for it.
            self.slots[index as usize].retired = true;
        } else {
            self.slots[index as usize].generation = generation + 1;
            self.free_list.push(index);
        }
        assert(self@ =~= before.released(index as int));
        proof {
            releasing_ends_one_handle(before, index as int);
            lemma_occupied_positive(before.slots, index as int);
        }
        self.live_count -= 1;
        Some(payload)
    }
}

/// Whatever cap is asked for, none at all included, a new table has room for a handle.
pub proof fn a_new_table_has_room<T>(max_handles: u64)
    ensures
        TableView::<T>::new(clamped_cap(max_handles)).wf(),
        TableView::<T>::new(clamped_cap(max_handles)).can_insert(),
{
}

/// The cap of a table is what was asked for, but one at the least and as many as twenty bits can
/// tell apart at the most.
pub proof fn the_cap_is_what_was_asked_for(max_handles: u64)
    ensures
        1 <= clamped_cap(max_handles) <= 0x10_0000,
        1 <= max_handles <= 0x10_0000 ==> clamped_cap(max_handles) == max_handles,
        max_handles > 0x10_0000 ==> clamped_cap(max_handles) == 0x10_0000,
        max_handles == 0 ==> clamped_cap(max_handles) == 1,
{
}

/// Every item that a table has room for counts with its own bytes, and nothing else counts.
pub proof fn every_item_counts_with_its_own_bytes<T>(
    slots: int,
    free_list: int,
    scope_allocations: int,
    scope_marks: int,
)
    ensures
        bytes_behind::<T>(0, 0, 0, 0) == 0,
        ({
            let behind = bytes_behind::<T>(slots, free_list, scope_allocations, scope_marks);
            &&& bytes_behind::<T>(slots + 1, free_list, scope_allocations, scope_marks) == behind
                + vstd::layout::size_of::<Slot<T>>()
            &&& bytes_behind::<T>(slots, free_list + 1, scope_allocations, scope_marks) == behind
                + vstd::layout::size_of::<u32>()
            &&& bytes_behind::<T>(slots, free_list, scope_allocations + 1, scope_marks) == behind
                + vstd::layout::size_of::<u32>()
            &&& bytes_behind::<T>(slots, free_list, scope_allocations, scope_marks + 1) == behind
                + vstd::layout::size_of::<usize>()
        }),
{
    let slot = vstd::layout::size_of::<Slot<T>>() as int;
    let narrow = vstd::layout::size_of::<u32>() as int;
    let wide = vstd::layout::size_of::<usize>() as int;
    vstd::arithmetic::mul::lemma_mul_is_distributive_add_other_way(slot, slots, 1);
    vstd::arithmetic::mul::lemma_mul_is_distributive_add_other_way(narrow, free_list, 1);
    vstd::arithmetic::mul::lemma_mul_is_distributive_add_other_way(narrow, scope_allocations, 1);
    vstd::arithmetic::mul::lemma_mul_is_distributive_add_other_way(wide, scope_marks, 1);
}

} // verus!
