//! An entry as a list on the screen shows it.

use crate::vault::Entry;
use vstd::prelude::*;

verus! {

/// An entry of the vault, to be shown in a list.
#[derive(Debug)]
pub struct VaultEntry(pub Entry);

/// A copy of each entry, in the same order.
pub fn entries_to_vault_entries(entries: &[Entry]) -> (result: Vec<VaultEntry>)
    ensures
        result@.len() == entries@.len(),
        forall|i: int| 0 <= i < entries@.len() ==> (#[trigger] result@[i]).0@ == entries@[i]@,
{
    let mut result: Vec<VaultEntry> = Vec::new();
    let mut i: usize = 0;
    while i < entries.len()
        invariant
            i <= entries.len(),
            result@.len() == i,
            forall|j: int| 0 <= j < i ==> (#[trigger] result@[j]).0@ == entries@[j]@,
        decreases entries.len() - i,
    {
        result.push(VaultEntry(entries[i].clone()));
        i = i + 1;
    }
    result
}

} // verus!
