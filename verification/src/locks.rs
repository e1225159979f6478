//! Processing locks of groups, by group index; the standalone spectrum
//! (outside the catalog) is locked under [`NO_ENTRY`].
use vstd::prelude::*;
use std::collections::BTreeSet;

verus! {

broadcast use vstd::std_specs::btree::group_btree_axioms;

/// The index that stands for the standalone spectrum, outside the catalog.
pub const NO_ENTRY: usize = usize::MAX;

/// The current group's processing is locked.
pub fn processing_locked(current: Option<usize>, frozen: &BTreeSet<usize>) -> (r: bool)
    ensures
        r == (current matches Some(ix) && frozen@.contains(ix)),
{
    match current {
        Some(ix) => frozen.contains(&ix),
        None => false,
    }
}

/// Restore the standalone spectrum's lock from its durable state
/// (`standalone_frozen`: the saved state lists it as locked).
pub fn restore_standalone_lock(frozen: &mut BTreeSet<usize>, standalone_frozen: bool)
    ensures
        final(frozen)@ == if standalone_frozen {
            old(frozen)@.insert(NO_ENTRY)
        } else {
            old(frozen)@.remove(NO_ENTRY)
        },
{
    if standalone_frozen {
        frozen.insert(NO_ENTRY);
    } else {
        frozen.remove(&NO_ENTRY);
    }
}

/// When the standalone spectrum joins the catalog at `index`, its lock moves along.
pub fn migrate_standalone_lock(frozen: &mut BTreeSet<usize>, index: usize)
    ensures
        final(frozen)@ == if old(frozen)@.contains(NO_ENTRY) {
            old(frozen)@.remove(NO_ENTRY).insert(index)
        } else {
            old(frozen)@
        },
{
    if frozen.remove(&NO_ENTRY) {
        frozen.insert(index);
    }
}

/// A migrated lock survives: after migration the catalog entry is locked
/// exactly when the standalone spectrum was, and the standalone index is free.
pub proof fn law_lock_survives_migration(frozen: Set<usize>, index: usize)
    requires
        index != NO_ENTRY,
    ensures
        ({
            let after = if frozen.contains(NO_ENTRY) {
                frozen.remove(NO_ENTRY).insert(index)
            } else {
                frozen
            };
            &&& frozen.contains(NO_ENTRY) ==> after.contains(index)
            &&& frozen.contains(NO_ENTRY) ==> !after.contains(NO_ENTRY)
            &&& forall|i: usize| i != index && i != NO_ENTRY ==> (after.contains(i) == frozen.contains(i))
        }),
{
}

} // verus!
