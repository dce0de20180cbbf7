//! The hash map that files each channel under the key of its event type.

use bevy::platform::collections::HashMap;
use bevy::platform::hash::FixedHasher;
use vstd::prelude::*;

verus! {

/// `HashMap` of `bevy::platform::collections`, a hash map whose hasher is
/// fixed by default. Nothing inside it is visible here; what it holds is
/// spoken of through `slots`.
#[verifier::external_type_specification]
#[verifier::external_body]
#[verifier::reject_recursive_types(K)]
#[verifier::reject_recursive_types(V)]
#[verifier::reject_recursive_types(S)]
pub struct ExHashMap<K, V, S>(HashMap<K, V, S>);

/// `FixedHasher` of `bevy::platform::hash`, the map's default hasher. It is
/// only named, as a parameter of the map's type.
#[verifier::external_type_specification]
#[verifier::external_body]
pub struct ExFixedHasher(FixedHasher);

/// The slot that the map holds for each key.
pub uninterp spec fn slots(index: HashMap<u64, usize, FixedHasher>) -> Map<u64, usize>;

/// Calls `HashMap::new` of `bevy::platform::collections`, which makes an
/// empty map: the contract claims that it holds no key.
#[verifier::external_body]
pub(crate) fn index_new() -> (made: HashMap<u64, usize, FixedHasher>)
    ensures
        slots(made).dom() == Set::<u64>::empty(),
{
    HashMap::new()
}

/// Calls `HashMap::get`, which looks `key` up: the contract claims that the
/// slot filed under `key` comes back, and `None` where there is none.
#[verifier::external_body]
pub(crate) fn index_get(index: &HashMap<u64, usize, FixedHasher>, key: u64) -> (slot: Option<
    usize,
>)
    ensures
        slot == if slots(*index).contains_key(key) {
            Some(slots(*index)[key])
        } else {
            None
        },
{
    index.get(&key).copied()
}

/// Calls `HashMap::insert`, which files `slot` under `key` in place of what
/// was there: the contract claims that no other key changes, and that the
/// slot that was filed under `key` before comes back.
#[verifier::external_body]
pub(crate) fn index_insert(
    index: &mut HashMap<u64, usize, FixedHasher>,
    key: u64,
    slot: usize,
) -> (previous: Option<usize>)
    ensures
        slots(*final(index)) == slots(*old(index)).insert(key, slot),
        previous == if slots(*old(index)).contains_key(key) {
            Some(slots(*old(index))[key])
        } else {
            None
        },
{
    index.insert(key, slot)
}

} // verus!
