//! Facts about sequences that several modules need.

use vstd::prelude::*;

verus! {

/// Filtering one element more.
pub proof fn lemma_filter_step<T>(s: Seq<T>, keep: spec_fn(T) -> bool, i: int)
    requires
        0 <= i < s.len(),
    ensures
        s.take(i + 1).filter(keep) == if keep(s[i]) {
            s.take(i).filter(keep).push(s[i])
        } else {
            s.take(i).filter(keep)
        },
{
    reveal(Seq::filter);
    assert(s.take(i + 1).drop_last() =~= s.take(i));
}

/// A filter that takes the key of no two elements alike finds none alike afterwards.
pub proof fn lemma_filter_keeps_distinct<T, K>(
    s: Seq<T>,
    keep: spec_fn(T) -> bool,
    key: spec_fn(T) -> K,
)
    requires
        s.map_values(key).no_duplicates(),
    ensures
        s.filter(keep).map_values(key).no_duplicates(),
    decreases s.len(),
{
    reveal(Seq::filter);
    if s.len() > 0 {
        let front = s.drop_last();
        assert forall|i: int, j: int|
            0 <= i < front.len() && 0 <= j < front.len() && i != j implies front.map_values(key)[i]
            != front.map_values(key)[j] by {
            assert(s.map_values(key)[i] == front.map_values(key)[i]);
            assert(s.map_values(key)[j] == front.map_values(key)[j]);
        }
        lemma_filter_keeps_distinct(front, keep, key);
        let rest = front.filter(keep);
        if keep(s.last()) {
            assert forall|i: int| 0 <= i < rest.len() implies key(#[trigger] rest[i]) != key(
                s.last(),
            ) by {
                front.lemma_filter_contains_rev(keep, rest[i]);
                let k = choose|k: int| 0 <= k < front.len() && front[k] == rest[i];
                assert(s.map_values(key)[k] == key(rest[i]));
                assert(s.map_values(key)[s.len() - 1] == key(s.last()));
            }
            let all = s.filter(keep).map_values(key);
            assert forall|i: int, j: int|
                0 <= i < all.len() && 0 <= j < all.len() && i != j implies all[i] != all[j] by {
                if i < rest.len() {
                    assert(all[i] == rest.map_values(key)[i]);
                    assert(all[i] == key(rest[i]));
                }
                if j < rest.len() {
                    assert(all[j] == rest.map_values(key)[j]);
                    assert(all[j] == key(rest[j]));
                }
            }
        }
    }
}

/// The filter of a sequence with one more element behind it.
pub proof fn lemma_filter_push<T>(s: Seq<T>, keep: spec_fn(T) -> bool, x: T)
    ensures
        s.push(x).filter(keep) == if keep(x) {
            s.filter(keep).push(x)
        } else {
            s.filter(keep)
        },
{
    reveal(Seq::filter);
    assert(s.push(x).drop_last() =~= s);
}

/// An element that is not kept leaves no trace in the filter.
pub proof fn lemma_filter_remove<T>(s: Seq<T>, keep: spec_fn(T) -> bool, i: int)
    requires
        0 <= i < s.len(),
        !keep(s[i]),
    ensures
        s.remove(i).filter(keep) == s.filter(keep),
{
    let head = s.take(i);
    let tail = s.skip(i + 1);
    assert(s =~= head.push(s[i]) + tail);
    assert(s.remove(i) =~= head + tail);
    Seq::filter_distributes_over_add(head.push(s[i]), tail, keep);
    Seq::filter_distributes_over_add(head, tail, keep);
    lemma_filter_push(head, keep, s[i]);
}

/// A filter that everything passes changes nothing.
pub proof fn lemma_filter_all<T>(s: Seq<T>, keep: spec_fn(T) -> bool)
    requires
        forall|i: int| 0 <= i < s.len() ==> keep(#[trigger] s[i]),
    ensures
        s.filter(keep) == s,
    decreases s.len(),
{
    reveal(Seq::filter);
    if s.len() > 0 {
        lemma_filter_all(s.drop_last(), keep);
        assert(s.drop_last().push(s.last()) =~= s);
    }
}

/// A filter keeps the order of what is left.
pub proof fn lemma_filter_keeps_order<T>(
    s: Seq<T>,
    keep: spec_fn(T) -> bool,
    rank: spec_fn(T) -> int,
)
    requires
        forall|i: int, j: int|
            0 <= i < j < s.len() ==> rank(#[trigger] s[i]) < rank(#[trigger] s[j]),
    ensures
        forall|i: int, j: int|
            0 <= i < j < s.filter(keep).len() ==> rank(#[trigger] s.filter(keep)[i]) < rank(
                #[trigger] s.filter(keep)[j],
            ),
    decreases s.len(),
{
    reveal(Seq::filter);
    if s.len() > 0 {
        let front = s.drop_last();
        lemma_filter_keeps_order(front, keep, rank);
        let rest = front.filter(keep);
        let all = s.filter(keep);
        assert forall|i: int, j: int| 0 <= i < j < all.len() implies rank(#[trigger] all[i])
            < rank(#[trigger] all[j]) by {
            assert(all[i] == rest[i]);
            if j < rest.len() {
                assert(all[j] == rest[j]);
            } else {
                front.lemma_filter_contains_rev(keep, rest[i]);
                let k = choose|k: int| 0 <= k < front.len() && front[k] == rest[i];
                assert(s[k] == rest[i]);
                assert(all[j] == s[s.len() - 1]);
            }
        }
    }
}

/// A filter that goes by the names leaves the names that pass it.
pub proof fn lemma_filter_names<T, K>(
    s: Seq<T>,
    keep: spec_fn(T) -> bool,
    name: spec_fn(T) -> K,
    keep_name: spec_fn(K) -> bool,
)
    requires
        forall|item: T| #[trigger] keep(item) <==> keep_name(name(item)),
    ensures
        s.filter(keep).map_values(name) == s.map_values(name).filter(keep_name),
    decreases s.len(),
{
    reveal(Seq::filter);
    let names = s.map_values(name);
    if s.len() == 0 {
        assert(s.filter(keep).map_values(name) =~= names.filter(keep_name));
    } else {
        let front = s.drop_last();
        lemma_filter_names(front, keep, name, keep_name);
        assert(names.drop_last() =~= front.map_values(name));
        assert(names.last() == name(s.last()));
        let rest = front.filter(keep);
        assert(rest.push(s.last()).map_values(name) =~= rest.map_values(name).push(
            name(s.last()),
        ));
    }
}

} // verus!
