//! Pools as the pool modules store them, store writes of typed values, and
//! the store deltas the modules read back.
use crate::hexstr::{hex_lower, pool_key};
use vstd::prelude::*;

verus! {

/// A pool, identified by its contract address.
#[derive(Debug)]
pub struct Pool {
    pub pool_address: Vec<u8>,
}

impl View for Pool {
    type V = Seq<u8>;

    open spec fn view(&self) -> Seq<u8> {
        self.pool_address@
    }
}

/// A write of a value under a key, at an ordinal.
#[derive(Debug)]
pub struct SetValue<T> {
    pub ordinal: u64,
    pub key: String,
    pub value: T,
}

/// What a store delta did to its key.
#[derive(Clone, Copy, PartialEq, Eq, Debug)]
pub enum DeltaOperation {
    Unset,
    Create,
    Update,
    Delete,
}

/// A change of one key of a store, with the values before and after.
#[derive(Debug)]
pub struct Delta<T> {
    pub operation: DeltaOperation,
    pub ordinal: u64,
    pub key: String,
    pub old_value: T,
    pub new_value: T,
}

/// The writes that store a list of pools: the `i`-th pool (from 0) is
/// written at ordinal `i + 1` under the lowercase hexadecimal text of its
/// address.
pub open spec fn pool_sets_spec(pools: Seq<Pool>, sets: Seq<SetValue<Pool>>) -> bool {
    &&& sets.len() == pools.len()
    &&& forall|i: int|
        #![trigger sets[i]]
        0 <= i < sets.len() ==> {
            &&& sets[i].ordinal == i + 1
            &&& sets[i].key@ == hex_lower(pools[i].pool_address@)
            &&& sets[i].value.pool_address@ == pools[i].pool_address@
        }
}

/// The store writes of a list of pools (see [`pool_sets_spec`]).
pub fn pool_sets(pools: Vec<Pool>) -> (r: Vec<SetValue<Pool>>)
    ensures
        pool_sets_spec(pools@, r@),
{
    let ghost all = pools@;
    let total: usize = pools.len();
    let mut rest = pools;
    let mut out: Vec<SetValue<Pool>> = Vec::new();
    let mut ordinal: u64 = 0;
    while rest.len() > 0
        invariant
            ordinal as int == out@.len(),
            all.len() == total,
            out@.len() + rest@.len() == all.len(),
            rest@ == all.subrange(out@.len() as int, all.len() as int),
            pool_sets_spec(all.subrange(0, out@.len() as int), out@),
        decreases rest@.len(),
    {
        let pool = rest.remove(0);
        ordinal = ordinal + 1;
        let key = pool_key(pool.pool_address.as_slice());
        let ghost n = out@.len() as int;
        out.push(SetValue { ordinal, key, value: pool });
        assert(all.subrange(0, n + 1) =~= all.subrange(0, n).push(all[n]));
        assert(rest@ =~= all.subrange(out@.len() as int, all.len() as int));
        assert forall|i: int| #![trigger out@[i]] 0 <= i < out@.len() implies {
            &&& out@[i].ordinal == i + 1
            &&& out@[i].key@ == hex_lower(all.subrange(0, out@.len() as int)[i].pool_address@)
            &&& out@[i].value.pool_address@ == all.subrange(0, out@.len() as int)[i].pool_address@
        } by {
            if i < n {
                assert(all.subrange(0, out@.len() as int)[i] == all.subrange(0, n)[i]);
            }
        }
    }
    assert(all.subrange(0, all.len() as int) =~= all);
    out
}

} // verus!
