//! The allocator of auxiliary processor cores.

use crate::config_generator::{BackendView, Backendconfig};
use crate::cpu::{bit_mask, lemma_mask_fits, mask_of};
use crate::descriptor::DescriptorView;
use crate::error::EngineError;
use crate::ledger::lemma_part_of_pool;
use crate::pool::{ascending, lemma_low_end_is_lowest, pool_wf, take_lowest, Pool};
use vstd::arithmetic::power2::lemma2_to64;
use vstd::prelude::*;

verus! {

/// The working state after the allocator of auxiliary cores has run on an
/// ascending free list: the guest holds the `requested` lowest of the free
/// cores, which are the low end of the list.
pub open spec fn rpu_stage(c: BackendView, requested: u8) -> Result<BackendView, EngineError> {
    if requested <= c.rcpus.len() {
        Ok(
            BackendView {
                rcpus: c.rcpus.skip(requested as int),
                used_rcpus: c.rcpus.take(requested as int),
                descriptor: DescriptorView {
                    rcpus: Some(bit_mask(c.rcpus.take(requested as int), 64) as u64),
                    ..c.descriptor
                },
                ..c
            },
        )
    } else {
        Err(EngineError::InsufficientRpu)
    }
}

/// Every identifier of `granted` is below every identifier of `left`.
pub open spec fn all_below(granted: Seq<i8>, left: Seq<i8>) -> bool {
    forall|i: int, j: int|
        0 <= i < granted.len() && 0 <= j < left.len() ==> (#[trigger] granted[i]) < (
        #[trigger] left[j])
}

/// Configures the auxiliary processor cores of the cell: the guest gets the
/// `requested` lowest of the free cores, in ascending order, as a bit mask.
/// The free cores are an ascending list, as the ledger keeps them.
pub fn rpuconf(c: &mut Backendconfig, requested: u8) -> (r: Result<(), EngineError>)
    requires
        pool_wf(Pool::Rcpu, old(c)@.rcpus),
    ensures
        match r {
            Ok(_) => rpu_stage(old(c)@, requested) == Ok::<BackendView, EngineError>(final(c)@),
            Err(e) => rpu_stage(old(c)@, requested) == Err::<BackendView, EngineError>(e)
                && final(c)@ == old(c)@,
        },
        pool_wf(Pool::Rcpu, final(c)@.rcpus),
        r is Ok ==> {
            &&& final(c)@.used_rcpus.len() == requested
            &&& ascending(final(c)@.used_rcpus)
            &&& all_below(final(c)@.used_rcpus, final(c)@.rcpus)
            &&& old(c)@.rcpus == final(c)@.used_rcpus + final(c)@.rcpus
        },
{
    let ghost free = c@.rcpus;
    match take_lowest(&mut c.rcpus, requested as usize) {
        Some(ids) => {
            proof {
                lemma_mask_fits(ids@, 64);
                lemma2_to64();
                lemma_low_end_is_lowest(free, requested as int);
                lemma_part_of_pool(Pool::Rcpu, free, requested as int);
                assert(free =~= free.take(requested as int) + free.skip(requested as int));
            }
            let mask = mask_of(&ids, 64);
            c.used_rcpus = ids;
            c.descriptor.rcpus = Some(mask);
            Ok(())
        },
        None => Err(EngineError::InsufficientRpu),
    }
}

} // verus!
