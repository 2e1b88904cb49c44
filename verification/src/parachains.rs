//! Parachain runtime helpers: the parachain origin, the active subset of a
//! validator-indexed set, and the persisted validation data of a candidate.

use vstd::prelude::*;
use vstd::std_specs::convert::FromSpecImpl;

verus! {

/// The id of a parachain.
#[derive(PartialEq, Eq, Structural, Clone, Copy, Debug)]
pub struct ParaId(pub u32);

/// The index of a validator in the session's validator set.
#[derive(PartialEq, Eq, Structural, Clone, Copy, Debug)]
pub struct ValidatorIndex(pub u32);

/// Origin for the parachains.
#[derive(PartialEq, Eq, Structural, Clone, Copy, Debug)]
pub enum Origin {
    /// It comes from a parachain.
    Parachain(ParaId),
}

/// The origin is not the one a call requires.
#[derive(PartialEq, Eq, Structural, Clone, Copy, Debug)]
pub struct BadOrigin;

/// Ensure that the origin `o` represents a parachain: `o` is the outer
/// origin seen as a parachain origin, or given back when it is not one.
/// Returns `Ok` with the parachain ID that effected the extrinsic or an `Err`
/// otherwise.
pub fn ensure_parachain<OuterOrigin>(o: Result<Origin, OuterOrigin>) -> (r: Result<ParaId, BadOrigin>)
    ensures
        r == match o {
            Ok(Origin::Parachain(id)) => Ok::<ParaId, BadOrigin>(id),
            Err(_) => Err(BadOrigin),
        },
{
    match o {
        Ok(Origin::Parachain(id)) => Ok(id),
        Err(_) => Err(BadOrigin),
    }
}

impl From<u32> for Origin {
    fn from(id: u32) -> (r: Origin) {
        Origin::Parachain(ParaId(id))
    }
}

impl FromSpecImpl<u32> for Origin {
    open spec fn obeys_from_spec() -> bool {
        true
    }

    open spec fn from_spec(v: u32) -> Origin {
        Origin::Parachain(ParaId(v))
    }
}

/// The positions in a set of `n` items that `active` names, in the order
/// `active` names them, skipping those out of range.
pub open spec fn kept_indices(active: Seq<ValidatorIndex>, n: int) -> Seq<int>
    decreases active.len(),
{
    if active.len() == 0 {
        Seq::empty()
    } else {
        let rest = kept_indices(active.drop_last(), n);
        let i = active.last().0 as int;
        if i < n {
            rest.push(i)
        } else {
            rest
        }
    }
}

/// Take the active subset of a set containing all validators: the items at
/// the active validators' indices, in their order; an index past the end of
/// the set is skipped.
pub fn take_active_subset<T: Clone>(active_validators: &[ValidatorIndex], set: &[T]) -> (r: Vec<T>)
    ensures
        r@.len() == kept_indices(active_validators@, set@.len() as int).len(),
        forall|k: int|
            0 <= k < r@.len() ==> cloned::<T>(
                set@[kept_indices(active_validators@, set@.len() as int)[k]],
                #[trigger] r@[k],
            ),
{
    let ghost n = set@.len() as int;
    let mut subset: Vec<T> = Vec::new();
    let mut j: usize = 0;
    while j < active_validators.len()
        invariant
            j <= active_validators@.len(),
            n == set@.len(),
            subset@.len() == kept_indices(active_validators@.subrange(0, j as int), n).len(),
            forall|k: int|
                0 <= k < subset@.len() ==> cloned::<T>(
                    set@[kept_indices(active_validators@.subrange(0, j as int), n)[k]],
                    #[trigger] subset@[k],
                ),
        decreases active_validators.len() - j,
    {
        let ghost prefix = active_validators@.subrange(0, j as int);
        let ghost next = active_validators@.subrange(0, j + 1);
        proof {
            assert(next.drop_last() =~= prefix);
            assert(next.last() == active_validators@[j as int]);
        }
        let i = active_validators[j].0 as usize;
        if i < set.len() {
            let item = set[i].clone();
            subset.push(item);
        }
        j = j + 1;
    }
    proof {
        assert(active_validators@.subrange(0, active_validators@.len() as int) =~= active_validators@);
    }
    subset
}

/// When every active index is within the set, the active subset has one item
/// per active validator, each a clone of the item at that validator's index.
pub proof fn active_subset_is_full_when_indices_fit(active: Seq<ValidatorIndex>, n: int)
    requires
        forall|k: int| 0 <= k < active.len() ==> (#[trigger] active[k]).0 < n,
    ensures
        kept_indices(active, n) == active.map_values(|v: ValidatorIndex| v.0 as int),
    decreases active.len(),
{
    if active.len() > 0 {
        let init = active.drop_last();
        assert forall|k: int| 0 <= k < init.len() implies (#[trigger] init[k]).0 < n by {
            assert(init[k] == active[k]);
        }
        active_subset_is_full_when_indices_fit(init, n);
        assert(active[active.len() - 1] == active.last());
        assert(active.map_values(|v: ValidatorIndex| v.0 as int) =~= init.map_values(
            |v: ValidatorIndex| v.0 as int,
        ).push(active.last().0 as int));
    } else {
        assert(active.map_values(|v: ValidatorIndex| v.0 as int) =~= Seq::<int>::empty());
    }
}

/// The validation data of a candidate that is kept on chain.
#[derive(Debug)]
pub struct PersistedValidationData {
    /// The parent head-data.
    pub parent_head: Vec<u8>,
    /// The relay-chain block number this is in the context of.
    pub relay_parent_number: u32,
    /// The relay-chain block storage root this is in the context of.
    pub relay_parent_storage_root: [u8; 32],
    /// The maximum legal size of a POV block, in bytes.
    pub max_pov_size: u32,
}

/// Make the persisted validation data for a particular parachain, a specified
/// relay-parent and it's storage root, given the parachain's head as stored
/// (`para_head`) and the configured maximum PoV size. `None` when the
/// parachain has no head.
pub fn make_persisted_validation_data(
    para_id: ParaId,
    relay_parent_number: u32,
    relay_parent_storage_root: [u8; 32],
    para_head: Option<Vec<u8>>,
    max_pov_size: u32,
) -> (r: Option<PersistedValidationData>)
    ensures
        r is Some <==> para_head is Some,
        r matches Some(d) ==> {
            &&& d.parent_head@ == para_head->0@
            &&& d.relay_parent_number == relay_parent_number
            &&& d.relay_parent_storage_root == relay_parent_storage_root
            &&& d.max_pov_size == max_pov_size
        },
{
    match para_head {
        Some(parent_head) => Some(
            PersistedValidationData {
                parent_head,
                relay_parent_number,
                relay_parent_storage_root,
                max_pov_size,
            },
        ),
        None => None,
    }
}

} // verus!
