//! Batch results gathered from worker threads, put back into file order.

use vstd::prelude::*;

verus! {

/// Whether the tags of `tagged` are exactly the positions `0..len`, each once.
pub open spec fn tags_are_positions<T>(tagged: Seq<(usize, T)>) -> bool {
    &&& forall|i: int| 0 <= i < tagged.len() ==> (#[trigger] tagged[i]).0 < tagged.len()
    &&& forall|i: int, j: int|
        0 <= i < j < tagged.len() ==> (#[trigger] tagged[i]).0 != (#[trigger] tagged[j]).0
    &&& forall|k: int| 0 <= k < tagged.len() ==> #[trigger] has_tag(tagged, k)
}

/// Whether some entry of `tagged` carries the tag `k`.
pub open spec fn has_tag<T>(tagged: Seq<(usize, T)>, k: int) -> bool {
    exists|i: int| 0 <= i < tagged.len() && (#[trigger] tagged[i]).0 == k
}

/// Puts results tagged with their file's position back into file order,
/// whatever order they arrived in: the result tagged `k` ends up at position `k`.
pub fn restore_file_order<T>(tagged: Vec<(usize, T)>) -> (ordered: Vec<T>)
    requires
        tags_are_positions(tagged@),
    ensures
        ordered@.len() == tagged@.len(),
        forall|i: int| 0 <= i < tagged@.len() ==> ordered@[(#[trigger] tagged@[i]).0 as int] == tagged@[i].1,
{
    let n = tagged.len();
    let ghost all = tagged@;
    let mut slots: Vec<Option<T>> = Vec::new();
    let mut k: usize = 0;
    while k < n
        invariant
            k <= n,
            slots@.len() == k,
            forall|j: int| 0 <= j < k ==> (#[trigger] slots@[j]) is None,
        decreases n - k,
    {
        slots.push(None);
        k = k + 1;
    }
    let mut rest = tagged;
    while rest.len() > 0
        invariant
            n == all.len(),
            slots@.len() == n,
            rest@.len() <= n,
            rest@ == all.take(rest@.len() as int),
            tags_are_positions(all),
            forall|j: int|
                rest@.len() <= j < n ==> slots@[(#[trigger] all[j]).0 as int] == Some(all[j].1),
        decreases rest@.len(),
    {
        let ghost m = rest@.len() - 1;
        let (index, value) = rest.pop().unwrap();
        assert(all[m] == (index, value));
        let ghost before = slots@;
        slots.set(index, Some(value));
        assert(rest@ =~= all.take(m));
        assert forall|j: int| rest@.len() <= j < n implies slots@[(#[trigger] all[j]).0 as int] == Some(
            all[j].1,
        ) by {
            if j != m {
                assert(all[j].0 != all[m].0);
                assert(slots@[all[j].0 as int] == before[all[j].0 as int]);
            }
        }
    }
    assert forall|k: int| 0 <= k < n implies (#[trigger] slots@[k]) is Some by {
        assert(has_tag(all, k));
        let i = choose|i: int| 0 <= i < n && (#[trigger] all[i]).0 == k;
        assert(slots@[all[i].0 as int] == Some(all[i].1));
    }
    let mut reversed: Vec<T> = Vec::new();
    while slots.len() > 0
        invariant
            slots@.len() + reversed@.len() == n,
            forall|k: int| 0 <= k < slots@.len() ==> (#[trigger] slots@[k]) is Some,
            forall|j: int|
                0 <= j < n && rest_tag_below(all, j, slots@.len()) ==> slots@[all[j].0 as int] == Some(
                    all[j].1,
                ),
            forall|j: int|
                0 <= j < n && all[j].0 >= slots@.len() ==> reversed@[n - 1 - all[j].0] == all[j].1,
            tags_are_positions(all),
            n == all.len(),
        decreases slots@.len(),
    {
        let last = slots.len() - 1;
        let ghost before_slots = slots@;
        let ghost before_rev = reversed@;
        let slot = slots.pop().unwrap();
        assert(slots@ =~= before_slots.take(last as int));
        match slot {
            Some(value) => {
                reversed.push(value);
            },
            None => {
                assert(false);
            },
        }
        proof {
            assert forall|j: int|
                0 <= j < n && all[j].0 >= slots@.len() implies reversed@[n - 1 - all[j].0] == all[j].1 by {
                if all[j].0 == last {
                    assert(rest_tag_below(all, j, (last + 1) as nat));
                    assert(before_slots[last as int] == Some(all[j].1));
                    assert(reversed@[n - 1 - last] == reversed@.last());
                } else {
                    assert(reversed@[n - 1 - all[j].0] == before_rev[n - 1 - all[j].0]);
                }
            }
            assert forall|j: int|
                0 <= j < n && rest_tag_below(all, j, slots@.len()) implies slots@[all[j].0 as int] == Some(
                all[j].1,
            ) by {
                assert(rest_tag_below(all, j, (last + 1) as nat));
            }
        }
    }
    let mut ordered: Vec<T> = Vec::new();
    while reversed.len() > 0
        invariant
            reversed@.len() + ordered@.len() == n,
            forall|j: int| 0 <= j < n && all[j].0 >= ordered@.len() ==> reversed@[n - 1 - all[j].0] == all[j].1,
            forall|j: int| 0 <= j < n && all[j].0 < ordered@.len() ==> ordered@[all[j].0 as int] == all[j].1,
            tags_are_positions(all),
            n == all.len(),
        decreases reversed@.len(),
    {
        let ghost before = reversed@;
        let value = reversed.pop().unwrap();
        ordered.push(value);
        proof {
            assert forall|j: int| 0 <= j < n && all[j].0 < ordered@.len() implies ordered@[all[j].0 as int]
                == all[j].1 by {
                if all[j].0 == ordered@.len() - 1 {
                    assert(before[n - 1 - all[j].0] == all[j].1);
                }
            }
        }
    }
    ordered
}

/// Whether position `j`'s tag is still held among the first `held` slots.
pub open spec fn rest_tag_below<T>(all: Seq<(usize, T)>, j: int, held: nat) -> bool {
    all[j].0 < held
}

/// Whether one of the first `count` entries carries the tag `k`.
pub open spec fn tag_among<T>(tagged: Seq<(usize, T)>, count: int, k: int) -> bool {
    exists|i: int| 0 <= i < count && (#[trigger] tagged[i]).0 == k
}

/// Checks that the tags of `tagged` are exactly the positions `0..len`, each
/// once, as `restore_file_order` needs.
pub fn tags_are_file_positions<T>(tagged: &Vec<(usize, T)>) -> (b: bool)
    ensures
        b == tags_are_positions(tagged@),
{
    let n = tagged.len();
    let mut seen: Vec<bool> = Vec::new();
    let mut k: usize = 0;
    while k < n
        invariant
            k <= n,
            seen@.len() == k,
            forall|m: int| 0 <= m < k ==> !(#[trigger] seen@[m]),
        decreases n - k,
    {
        seen.push(false);
        k = k + 1;
    }
    let mut i: usize = 0;
    while i < n
        invariant
            n == tagged@.len(),
            i <= n,
            seen@.len() == n,
            forall|j: int| 0 <= j < i ==> (#[trigger] tagged@[j]).0 < n,
            forall|j1: int, j2: int|
                0 <= j1 < j2 < i ==> (#[trigger] tagged@[j1]).0 != (#[trigger] tagged@[j2]).0,
            forall|m: int| 0 <= m < n ==> (#[trigger] seen@[m]) == tag_among(tagged@, i as int, m),
        decreases n - i,
    {
        let t = tagged[i].0;
        if t >= n {
            assert(!tags_are_positions(tagged@)) by {
                assert(tagged@[i as int].0 >= tagged@.len());
            }
            return false;
        }
        if seen[t] {
            assert(!tags_are_positions(tagged@)) by {
                assert(tag_among(tagged@, i as int, t as int));
                let j = choose|j: int| 0 <= j < i && (#[trigger] tagged@[j]).0 == t;
                assert(tagged@[j].0 == tagged@[i as int].0);
            }
            return false;
        }
        assert(!tag_among(tagged@, i as int, t as int));
        let ghost before = seen@;
        seen.set(t, true);
        assert forall|m: int| 0 <= m < n implies (#[trigger] seen@[m]) == tag_among(
            tagged@,
            i + 1,
            m,
        ) by {
            if m == t {
                assert(tagged@[i as int].0 == m);
            } else {
                assert(seen@[m] == before[m]);
                if tag_among(tagged@, i + 1, m) {
                    let j = choose|j: int| 0 <= j < i + 1 && (#[trigger] tagged@[j]).0 == m;
                    assert(j != i);
                }
            }
        }
        assert forall|j1: int, j2: int|
            0 <= j1 < j2 < i + 1 implies (#[trigger] tagged@[j1]).0 != (#[trigger] tagged@[j2]).0 by {
            if j2 == i {
                if tagged@[j1].0 == tagged@[j2].0 {
                    assert(tag_among(tagged@, i as int, t as int));
                }
            }
        }
        i = i + 1;
    }
    let mut m: usize = 0;
    while m < n
        invariant
            n == tagged@.len(),
            seen@.len() == n,
            m <= n,
            forall|j: int| 0 <= j < n ==> (#[trigger] tagged@[j]).0 < n,
            forall|j1: int, j2: int|
                0 <= j1 < j2 < n ==> (#[trigger] tagged@[j1]).0 != (#[trigger] tagged@[j2]).0,
            forall|q: int| 0 <= q < n ==> (#[trigger] seen@[q]) == tag_among(tagged@, n as int, q),
            forall|q: int| 0 <= q < m ==> #[trigger] has_tag(tagged@, q),
        decreases n - m,
    {
        if !seen[m] {
            assert(!tags_are_positions(tagged@)) by {
                assert(!tag_among(tagged@, n as int, m as int));
                assert(!has_tag(tagged@, m as int));
            }
            return false;
        }
        assert(tag_among(tagged@, n as int, m as int));
        assert(has_tag(tagged@, m as int));
        m = m + 1;
    }
    true
}

} // verus!
