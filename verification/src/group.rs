//! Grouping of keyed items: one group per distinct key, each group holding
//! the items of its key in arrival order.
use vstd::prelude::*;

verus! {

/// A key and the items filed under it.
#[derive(Debug)]
pub struct Group<T> {
    pub key: String,
    pub items: Vec<T>,
}

/// The values of the entries with key `k`, in entry order.
pub open spec fn values_with_key<V>(e: Seq<(Seq<char>, V)>, k: Seq<char>) -> Seq<V>
    decreases e.len(),
{
    if e.len() == 0 {
        Seq::empty()
    } else {
        let prev = values_with_key(e.drop_last(), k);
        if e.last().0 == k {
            prev.push(e.last().1)
        } else {
            prev
        }
    }
}

/// `g` groups the entries `e`: its keys are distinct, each group holds, in
/// order, exactly the values of the entries with its key (at least one),
/// and every entry's key has a group.
pub open spec fn is_grouping<V>(e: Seq<(Seq<char>, V)>, g: Seq<(Seq<char>, Seq<V>)>) -> bool {
    &&& forall|a: int, b: int| 0 <= a < b < g.len() ==> g[a].0 != g[b].0
    &&& forall|a: int|
        0 <= a < g.len() ==> g[a].1 == values_with_key(e, g[a].0) && g[a].1.len() > 0
    &&& forall|i: int|
        #![trigger e[i]]
        0 <= i < e.len() ==> exists|a: int| #![trigger g[a]] 0 <= a < g.len() && g[a].0 == e[i].0
}

/// The view of a list of groups: each key with the views of its items.
pub open spec fn groups_view<T: View>(g: Seq<Group<T>>) -> Seq<(Seq<char>, Seq<T::V>)> {
    g.map_values(|x: Group<T>| (x.key@, x.items@.map_values(|t: T| t@)))
}

/// A key that no entry carries has no values.
pub proof fn lemma_values_with_absent_key<V>(e: Seq<(Seq<char>, V)>, k: Seq<char>)
    requires
        forall|i: int| 0 <= i < e.len() ==> e[i].0 != k,
    ensures
        values_with_key(e, k) == Seq::<V>::empty(),
    decreases e.len(),
{
    if e.len() > 0 {
        assert(e.last().0 != k);
        lemma_values_with_absent_key(e.drop_last(), k);
    }
}

/// The values with key `k` among selected keyed values are the values at the
/// indices that are selected and carry key `k`.
pub proof fn lemma_values_with_key_select<V>(
    n: nat,
    keep: spec_fn(int) -> bool,
    kf: spec_fn(int) -> (Seq<char>, V),
    k: Seq<char>,
)
    ensures
        values_with_key(crate::block::select_map(n, keep, kf), k) == crate::block::select_map(
            n,
            |i: int| keep(i) && kf(i).0 == k,
            |i: int| kf(i).1,
        ),
    decreases n,
{
    if n > 0 {
        lemma_values_with_key_select((n - 1) as nat, keep, kf, k);
        let e = crate::block::select_map(n, keep, kf);
        let prev = crate::block::select_map((n - 1) as nat, keep, kf);
        if keep(n - 1) {
            assert(e.drop_last() =~= prev);
        }
    }
}

/// Files `item` under `key`: into the group of that key, or into a new group
/// at the end when there is none yet.
pub fn add_to_groups<T: View>(
    groups: &mut Vec<Group<T>>,
    key: String,
    item: T,
    Ghost(entries): Ghost<Seq<(Seq<char>, T::V)>>,
)
    requires
        is_grouping(entries, groups_view(old(groups)@)),
    ensures
        is_grouping(entries.push((key@, item@)), groups_view(final(groups)@)),
{
    let ghost e2 = entries.push((key@, item@));
    let ghost g0 = groups_view(groups@);
    assert(e2.drop_last() =~= entries);
    let mut j: usize = 0;
    while j < groups.len()
        invariant
            j <= groups@.len(),
            g0 == groups_view(groups@),
            forall|a: int| 0 <= a < j ==> g0[a].0 != key@,
            is_grouping(entries, g0),
            e2 == entries.push((key@, item@)),
            e2.drop_last() == entries,
        decreases groups@.len() - j,
    {
        if groups[j].key == key {
            let ghost old_groups = groups@;
            let mut g = groups.remove(j);
            g.items.push(item);
            groups.insert(j, g);
            let ghost g1 = groups_view(groups@);
            assert(g1[j as int].1 =~= g0[j as int].1.push(item@));
            assert(g0[j as int].0 == key@);
            assert(e2.last() == (key@, item@));
            assert(values_with_key(e2, key@) == values_with_key(entries, key@).push(item@));
            assert forall|a: int| 0 <= a < g1.len() && a != j implies g1[a] == g0[a] by {
                assert(groups@[a] == old_groups[a]);
            }
            assert(g1.len() == g0.len());
            assert forall|a: int|
                0 <= a < g1.len() implies g1[a].1 == values_with_key(e2, g1[a].0)
                && g1[a].1.len() > 0 by {
                if a != j {
                    assert(g1[a] == g0[a]);
                    assert(values_with_key(e2, g0[a].0) == values_with_key(entries, g0[a].0));
                }
            }
            assert forall|i: int| #![trigger e2[i]] 0 <= i < e2.len() implies exists|a: int|
                #![trigger g1[a]] 0 <= a < g1.len() && g1[a].0 == e2[i].0 by {
                if i < entries.len() {
                    let a = choose|a: int| #![trigger g0[a]] 0 <= a < g0.len() && g0[a].0 == entries[i].0;
                    assert(g1[a].0 == g0[a].0);
                } else {
                    assert(g1[j as int].0 == e2[i].0);
                }
            }
            return;
        }
        j = j + 1;
    }
    proof {
        assert forall|i: int| #![trigger entries[i]] 0 <= i < entries.len() implies entries[i].0 != key@ by {
            assert(entries[i] == e2[i]);
            let a = choose|a: int| #![trigger g0[a]] 0 <= a < g0.len() && g0[a].0 == entries[i].0;
        }
        lemma_values_with_absent_key(entries, key@);
    }
    let mut items: Vec<T> = Vec::new();
    items.push(item);
    groups.push(Group { key, items });
    let ghost g1 = groups_view(groups@);
    assert(g1.len() == g0.len() + 1);
    assert forall|a: int| 0 <= a < g0.len() implies g1[a] == g0[a] by {}
    assert(g1[g0.len() as int].1 =~= seq![item@]);
    assert(values_with_key(e2, key@) =~= seq![item@]);
    assert forall|a: int|
        0 <= a < g1.len() implies g1[a].1 == values_with_key(e2, g1[a].0) && g1[a].1.len() > 0 by {
        if a < g0.len() {
            assert(g1[a] == g0[a]);
            assert(values_with_key(e2, g0[a].0) == values_with_key(entries, g0[a].0));
        }
    }
    assert forall|i: int| #![trigger e2[i]] 0 <= i < e2.len() implies exists|a: int|
        #![trigger g1[a]] 0 <= a < g1.len() && g1[a].0 == e2[i].0 by {
        if i < entries.len() {
            let a = choose|a: int| #![trigger g0[a]] 0 <= a < g0.len() && g0[a].0 == entries[i].0;
            assert(g1[a].0 == g0[a].0);
        } else {
            assert(g1[g0.len() as int].0 == e2[i].0);
        }
    }
}

} // verus!
