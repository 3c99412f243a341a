use wasm_dom::wasm_abi::{
    pack_handle, unpack_handle, WasmAbiStatus, MAX_GENERATION, MAX_INDEX, MIN_GENERATION,
};
use wasm_dom::wasm_handles::HandleTable;

const UNLIMITED: u64 = MAX_INDEX as u64 + 1;

fn table() -> HandleTable<&'static str> {
    HandleTable::new(UNLIMITED)
}

#[test]
fn inserts_and_resolves() {
    let mut table = table();
    let handle = table.insert("node").expect("first insert succeeds");
    assert_ne!(handle, 0, "a live handle must never look like null");
    assert_eq!(table.get(handle), Ok(&"node"));
    assert_eq!(table.len(), 1);
}

#[test]
fn distinct_objects_get_distinct_handles() {
    let mut table = table();
    let first = table.insert("a").unwrap();
    let second = table.insert("b").unwrap();
    assert_ne!(first, second);
    assert_eq!(table.get(first), Ok(&"a"));
    assert_eq!(table.get(second), Ok(&"b"));
}

#[test]
fn released_handles_become_stale() {
    let mut table = table();
    let handle = table.insert("gone").unwrap();
    assert_eq!(table.remove(handle), Ok("gone"));
    assert_eq!(table.len(), 0);
    assert_eq!(table.get(handle), Err(WasmAbiStatus::StaleHandle));
    assert_eq!(table.remove(handle), Err(WasmAbiStatus::StaleHandle));
}

#[test]
fn a_reused_slot_does_not_answer_to_the_old_handle() {
    // The single most important property in this module: reusing storage must not
    // resurrect a handle the module still holds.
    let mut table = table();
    let old = table.insert("first").unwrap();
    table.remove(old).unwrap();
    let new = table.insert("second").unwrap();

    assert_ne!(old, new, "reuse must mint a different handle");
    assert_eq!(table.get(new), Ok(&"second"));
    assert_eq!(
        table.get(old),
        Err(WasmAbiStatus::StaleHandle),
        "the stale handle must not see the new occupant",
    );
}

#[test]
fn rejects_null_and_forged_handles() {
    let mut table = table();
    table.insert("only").unwrap();
    assert_eq!(table.get(0), Err(WasmAbiStatus::NullHandle));
    // Bit 31 set, and a generation-zero encoding: neither is producible by the host.
    assert_eq!(table.get(0x8000_0000), Err(WasmAbiStatus::InvalidHandle));
    assert_eq!(table.get(1), Err(WasmAbiStatus::InvalidHandle));
    // A well-formed handle naming a slot that was never allocated.
    let unallocated = pack_handle(999, MIN_GENERATION).unwrap();
    assert_eq!(table.get(unallocated), Err(WasmAbiStatus::InvalidHandle));
}

#[test]
fn a_slot_is_retired_rather_than_wrapping_its_generation() {
    let mut table = table();
    let mut handles = Vec::new();

    // Exhaust slot 0's generations. Each cycle reuses the same slot because the free
    // list hands it straight back.
    for _ in MIN_GENERATION..=MAX_GENERATION {
        let handle = table.insert("cycle").expect("slot 0 is available");
        handles.push(handle);
        table.remove(handle).expect("release succeeds");
    }

    // Every handle ever minted for this slot was distinct...
    let total = handles.len();
    handles.sort_unstable();
    handles.dedup();
    assert_eq!(handles.len(), total, "a generation was reused");

    // ...and the slot is now retired, so the next insert must go somewhere else.
    let fresh = table
        .insert("after retirement")
        .expect("a new slot is created");
    let (index, _) = unpack_handle(fresh).unwrap();
    assert_ne!(index, 0, "the exhausted slot must not be reused");
    assert!(
        !handles.contains(&fresh),
        "a retired slot handed out a colliding handle",
    );
}

#[test]
fn handles_into_a_retired_slot_stay_stale_forever() {
    let mut table = table();
    // Mint the very first handle for slot 0, then release it so the cycling below
    // reuses that same slot rather than allocating a fresh one.
    let earliest = table.insert("x").unwrap();
    table.remove(earliest).unwrap();

    // Burn slot 0's remaining generations. One release already happened above, so this
    // covers the rest and the final one retires the slot.
    for _ in MIN_GENERATION..MAX_GENERATION {
        let handle = table.insert("cycle").unwrap();
        table.remove(handle).unwrap();
    }

    // A handle minted before the slot was retired must still be rejected, and must not
    // start resolving again just because the slot stopped being recycled.
    assert_eq!(table.get(earliest), Err(WasmAbiStatus::StaleHandle));
    let fresh = table.insert("elsewhere").unwrap();
    let (index, _) = unpack_handle(fresh).unwrap();
    assert_ne!(index, 0, "the retired slot must stay out of circulation");
    assert_eq!(table.get(earliest), Err(WasmAbiStatus::StaleHandle));
}

#[test]
fn enforces_the_live_handle_cap() {
    let mut table: HandleTable<&str> = HandleTable::new(2);
    let first = table.insert("a").unwrap();
    table.insert("b").unwrap();
    assert_eq!(table.insert("c"), Err(WasmAbiStatus::TooManyHandles));
    // Releasing one makes room again, so the cap bounds live handles rather than
    // total allocations.
    table.remove(first).unwrap();
    table.insert("c").expect("room after a release");
}

#[test]
fn a_zero_cap_is_clamped_to_something_usable() {
    // A misconfigured preference must not make every call fail.
    let mut table: HandleTable<&str> = HandleTable::new(0);
    table
        .insert("a")
        .expect("at least one handle is always available");
}

#[test]
fn exiting_a_scope_releases_what_it_allocated() {
    let mut table = table();
    let outer = table.insert("outer").unwrap();

    let scope = table.enter_scope();
    let inner = table.insert("inner").unwrap();
    assert_eq!(table.len(), 2);

    table.exit_scope(scope).expect("token matches");
    assert_eq!(table.len(), 1, "only the scoped handle is released");
    assert_eq!(table.get(inner), Err(WasmAbiStatus::StaleHandle));
    assert_eq!(
        table.get(outer),
        Ok(&"outer"),
        "handles allocated outside the scope must survive",
    );
}

#[test]
fn scopes_nest() {
    let mut table = table();
    let first = table.enter_scope();
    let a = table.insert("a").unwrap();
    let second = table.enter_scope();
    let b = table.insert("b").unwrap();
    assert_eq!(table.scope_depth(), 2);

    table.exit_scope(second).unwrap();
    assert_eq!(table.get(b), Err(WasmAbiStatus::StaleHandle));
    assert_eq!(table.get(a), Ok(&"a"));

    table.exit_scope(first).unwrap();
    assert_eq!(table.get(a), Err(WasmAbiStatus::StaleHandle));
    assert!(table.is_empty());
}

#[test]
fn rejects_a_mismatched_or_absent_scope_token() {
    let mut table = table();
    assert_eq!(table.exit_scope(1), Err(WasmAbiStatus::InvalidScope));
    let scope = table.enter_scope();
    // Cannot unwind past the innermost scope.
    assert_eq!(
        table.exit_scope(scope + 1),
        Err(WasmAbiStatus::InvalidScope)
    );
    assert_eq!(table.exit_scope(0), Err(WasmAbiStatus::InvalidScope));
    table.exit_scope(scope).expect("the right token works");
}

#[test]
fn dropping_early_inside_a_scope_is_not_a_double_release() {
    let mut table = table();
    let scope = table.enter_scope();
    let a = table.insert("a").unwrap();
    let b = table.insert("b").unwrap();
    table.remove(a).expect("explicit early release");
    assert_eq!(table.len(), 1);

    table.exit_scope(scope).expect("exit succeeds");
    assert_eq!(
        table.len(),
        0,
        "live count must not go negative or double-count"
    );
    assert_eq!(table.get(b), Err(WasmAbiStatus::StaleHandle));
}

#[test]
fn a_slot_reused_within_a_scope_is_still_released_by_it() {
    let mut table = table();
    let scope = table.enter_scope();
    let first = table.insert("first").unwrap();
    table.remove(first).unwrap();
    // Reuses the slot `first` occupied, and is itself in-scope.
    let second = table.insert("second").unwrap();

    table.exit_scope(scope).unwrap();
    assert_eq!(table.get(second), Err(WasmAbiStatus::StaleHandle));
    assert!(table.is_empty());
}

#[test]
fn iterating_yields_exactly_the_live_objects() {
    let mut table = table();
    let a = table.insert("a").unwrap();
    table.insert("b").unwrap();
    table.insert("c").unwrap();
    table.remove(a).unwrap();

    let mut live: Vec<&str> = table.iter().copied().collect();
    live.sort_unstable();
    assert_eq!(live, vec!["b", "c"]);
}

#[test]
fn clearing_empties_the_table_and_closes_scopes() {
    let mut table = table();
    table.enter_scope();
    let handle = table.insert("a").unwrap();
    table.insert("b").unwrap();

    table.clear();
    assert!(table.is_empty());
    assert_eq!(table.scope_depth(), 0);
    assert_eq!(table.iter().count(), 0);
    assert_eq!(table.get(handle), Err(WasmAbiStatus::StaleHandle));
}
