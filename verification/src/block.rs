//! The parts of an Ethereum block that the modules read.
use vstd::prelude::*;

verus! {

/// A point in time: seconds and nanoseconds since the Unix epoch.
#[derive(Clone, Copy, PartialEq, Eq, Debug)]
pub struct Timestamp {
    pub seconds: i64,
    pub nanos: i32,
}

/// One event log, with the hash of the transaction that emitted it.
#[derive(Debug)]
pub struct Log {
    pub tx_hash: Vec<u8>,
    pub address: Vec<u8>,
    pub topics: Vec<Vec<u8>>,
    pub data: Vec<u8>,
    /// Position of the log among all execution events of the block.
    pub ordinal: u64,
    /// Index of the log within the block.
    pub block_index: u32,
}

/// A block: its number, its header time and its logs.
///
/// `logs` holds the receipt logs of the successful transactions, in block
/// order. `call_logs` holds, transaction by transaction, the logs of the
/// calls that were not reverted, each transaction's logs sorted by ordinal.
#[derive(Debug)]
pub struct Block {
    pub number: u64,
    pub timestamp: Timestamp,
    pub logs: Vec<Log>,
    pub call_logs: Vec<Log>,
}

/// The values `f(i)` for the indices `i < n` with `keep(i)`, in index order.
pub open spec fn select_map<A>(n: nat, keep: spec_fn(int) -> bool, f: spec_fn(int) -> A) -> Seq<A>
    decreases n,
{
    if n == 0 {
        Seq::empty()
    } else {
        let prev = select_map((n - 1) as nat, keep, f);
        if keep(n - 1) {
            prev.push(f(n - 1))
        } else {
            prev
        }
    }
}

/// The last index `i < n` with `keep(i)`, if any.
pub open spec fn last_index(n: nat, keep: spec_fn(int) -> bool) -> Option<int>
    decreases n,
{
    if n == 0 {
        None
    } else if keep(n - 1) {
        Some(n - 1)
    } else {
        last_index((n - 1) as nat, keep)
    }
}

/// Selecting `g` is selecting `f` and then applying `h`, where `g = h . f`
/// on the selected indices.
pub proof fn lemma_select_map_compose<A, B>(
    n: nat,
    keep: spec_fn(int) -> bool,
    f: spec_fn(int) -> A,
    g: spec_fn(int) -> B,
    h: spec_fn(A) -> B,
)
    requires
        forall|i: int| 0 <= i < n && #[trigger] keep(i) ==> g(i) == h(f(i)),
    ensures
        select_map(n, keep, g) == select_map(n, keep, f).map_values(h),
    decreases n,
{
    if n > 0 {
        lemma_select_map_compose((n - 1) as nat, keep, f, g, h);
        let prev = select_map((n - 1) as nat, keep, f);
        if keep(n - 1) {
            assert(prev.push(f(n - 1)).map_values(h) =~= prev.map_values(h).push(h(f(n - 1))));
        }
    }
}

/// Two selections with the same criterion are related element by element
/// when their values are related at every selected index.
pub proof fn lemma_select_map_related<A, B>(
    n: nat,
    keep: spec_fn(int) -> bool,
    f: spec_fn(int) -> A,
    g: spec_fn(int) -> B,
    rel: spec_fn(A, B) -> bool,
)
    requires
        forall|i: int| 0 <= i < n && #[trigger] keep(i) ==> rel(f(i), g(i)),
    ensures
        select_map(n, keep, f).len() == select_map(n, keep, g).len(),
        forall|j: int|
            0 <= j < select_map(n, keep, f).len() ==> #[trigger] rel(
                select_map(n, keep, f)[j],
                select_map(n, keep, g)[j],
            ),
    decreases n,
{
    if n > 0 {
        lemma_select_map_related((n - 1) as nat, keep, f, g, rel);
        let pf = select_map((n - 1) as nat, keep, f);
        let pg = select_map((n - 1) as nat, keep, g);
        if keep(n - 1) {
            assert forall|j: int|
                0 <= j < select_map(n, keep, f).len() implies #[trigger] rel(
                select_map(n, keep, f)[j],
                select_map(n, keep, g)[j],
            ) by {
                if j < pf.len() {
                    assert(select_map(n, keep, f)[j] == pf[j]);
                    assert(select_map(n, keep, g)[j] == pg[j]);
                }
            }
        }
    }
}

/// Selections with the same criterion have the same length.
pub proof fn lemma_select_map_same_len<A, B>(
    n: nat,
    keep: spec_fn(int) -> bool,
    f: spec_fn(int) -> A,
    g: spec_fn(int) -> B,
)
    ensures
        select_map(n, keep, f).len() == select_map(n, keep, g).len(),
    decreases n,
{
    if n > 0 {
        lemma_select_map_same_len((n - 1) as nat, keep, f, g);
    }
}

/// The last index that passes is in range and passes.
pub proof fn lemma_last_index_valid(n: nat, keep: spec_fn(int) -> bool)
    ensures
        last_index(n, keep) matches Some(i) ==> 0 <= i < n && keep(i),
    decreases n,
{
    if n > 0 {
        lemma_last_index_valid((n - 1) as nat, keep);
    }
}

/// The last selected value is the value at the last selected index.
pub proof fn lemma_select_map_last<A>(n: nat, keep: spec_fn(int) -> bool, f: spec_fn(int) -> A)
    ensures
        match last_index(n, keep) {
            Some(i) => select_map(n, keep, f).len() > 0 && select_map(n, keep, f).last() == f(i),
            None => select_map(n, keep, f).len() == 0,
        },
    decreases n,
{
    if n > 0 {
        lemma_select_map_last((n - 1) as nat, keep, f);
    }
}

/// A selection is never longer than the range it selects from.
pub proof fn lemma_select_map_len<A>(n: nat, keep: spec_fn(int) -> bool, f: spec_fn(int) -> A)
    ensures
        select_map(n, keep, f).len() <= n,
    decreases n,
{
    if n > 0 {
        lemma_select_map_len((n - 1) as nat, keep, f);
    }
}

/// Every selected value is the value at some selected index.
pub proof fn lemma_select_map_index<A>(n: nat, keep: spec_fn(int) -> bool, f: spec_fn(int) -> A, j: int)
    requires
        0 <= j < select_map(n, keep, f).len(),
    ensures
        exists|i: int| 0 <= i < n && #[trigger] keep(i) && select_map(n, keep, f)[j] == f(i),
    decreases n,
{
    let prev = select_map((n - 1) as nat, keep, f);
    if j < prev.len() {
        lemma_select_map_index((n - 1) as nat, keep, f, j);
        let i = choose|i: int| 0 <= i < n - 1 && #[trigger] keep(i) && prev[j] == f(i);
        assert(select_map(n, keep, f)[j] == prev[j]);
        assert(keep(i));
    } else {
        assert(keep(n - 1));
        assert(select_map(n, keep, f)[j] == f(n - 1));
    }
}

/// The last index that passes is last: no later index passes, and when no
/// index passes, none does.
pub proof fn lemma_last_index_is_last(n: nat, keep: spec_fn(int) -> bool)
    ensures
        match last_index(n, keep) {
            Some(i) => 0 <= i < n && keep(i) && forall|k: int| i < k < n ==> !#[trigger] keep(k),
            None => forall|k: int| 0 <= k < n ==> !#[trigger] keep(k),
        },
    decreases n,
{
    if n > 0 {
        lemma_last_index_is_last((n - 1) as nat, keep);
    }
}

} // verus!
