//! Lists of entries kept in the order of their identifiers, with one entry
//! per identifier, and sums over lists of numbers.

use vstd::prelude::*;
use crate::disk::DiskId;
use crate::text;

verus! {

/// The entries of a table by identifier text.
pub open spec fn entries<V>(list: Seq<(DiskId, V)>) -> Seq<(Seq<char>, V)> {
    list.map_values(|e: (DiskId, V)| (e.0@, e.1))
}

/// The table `list` after `value` was stored under `key`: an entry with that
/// key is replaced, otherwise a new one takes its place in the order of keys.
pub open spec fn stored<V>(list: Seq<(Seq<char>, V)>, key: Seq<char>, value: V) -> Seq<
    (Seq<char>, V),
>
    decreases list.len(),
{
    if list.len() == 0 {
        seq![(key, value)]
    } else if list.last().0 == key {
        list.drop_last().push((key, value))
    } else if text::before(key, list.last().0) {
        stored(list.drop_last(), key, value).push(list.last())
    } else {
        list.push((key, value))
    }
}

/// The number that a table has under `id`, or zero.
pub open spec fn entry_or_zero(list: Seq<(Seq<char>, u64)>, id: Seq<char>) -> nat
    decreases list.len(),
{
    if list.len() == 0 {
        0
    } else if list.last().0 == id {
        list.last().1 as nat
    } else {
        entry_or_zero(list.drop_last(), id)
    }
}

/// Whether the keys of `list` increase strictly.
pub open spec fn ordered<V>(list: Seq<(Seq<char>, V)>) -> bool {
    forall|i: int, j: int|
        0 <= i < j < list.len() ==> text::before((#[trigger] list[i]).0, (#[trigger] list[j]).0)
}

/// Stores `value` under `key`.
pub fn store<V>(list: &mut Vec<(DiskId, V)>, key: DiskId, value: V)
    ensures
        entries(final(list)@) == stored(entries(old(list)@), key@, value),
{
    let ghost before_store = entries(list@);
    let mut at: usize = list.len();
    assert(before_store.take(at as int) =~= before_store);
    assert(before_store.skip(at as int) =~= Seq::empty());
    assert(stored(before_store, key@, value) =~= stored(before_store.take(at as int), key@, value)
        + before_store.skip(at as int));
    while at > 0 && !list[at - 1].0.same(&key) && text::precedes(
        key.as_str(),
        list[at - 1].0.as_str(),
    )
        invariant
            at <= list.len(),
            before_store == entries(list@),
            stored(before_store, key@, value) == stored(
                before_store.take(at as int),
                key@,
                value,
            ) + before_store.skip(at as int),
        decreases at,
    {
        proof {
            let head = before_store.take(at as int);
            assert(head.drop_last() =~= before_store.take(at - 1));
            assert(head.last() == before_store[at - 1]);
            assert(stored(head.drop_last(), key@, value).push(head.last()) + before_store.skip(
                at as int,
            ) =~= stored(head.drop_last(), key@, value) + before_store.skip(at - 1));
        }
        at = at - 1;
    }
    let ghost head = before_store.take(at as int);
    if at > 0 && list[at - 1].0.same(&key) {
        let ghost new = (key@, value);
        assert(head.last() == before_store[at - 1]);
        list.remove(at - 1);
        list.insert(at - 1, (key, value));
        assert(entries(list@) =~= head.drop_last().push(new) + before_store.skip(at as int));
    } else {
        let ghost new = (key@, value);
        if at > 0 {
            assert(head.last() == before_store[at - 1]);
        }
        list.insert(at, (key, value));
        assert(entries(list@) =~= head.push(new) + before_store.skip(at as int));
        if at == 0 {
            assert(head.push(new) =~= seq![new]);
        }
    }
}

/// The number that a table has under `id`, or zero.
pub fn find_or_zero(list: &Vec<(DiskId, u64)>, id: &DiskId) -> (r: u64)
    ensures
        r == entry_or_zero(entries(list@), id@),
{
    let ghost all = entries(list@);
    let mut n: usize = list.len();
    assert(all.take(n as int) =~= all);
    while n > 0
        invariant
            n <= list.len(),
            all == entries(list@),
            entry_or_zero(all, id@) == entry_or_zero(all.take(n as int), id@),
        decreases n,
    {
        proof {
            assert(all.take(n as int).drop_last() =~= all.take(n - 1));
            assert(all.take(n as int).last() == all[n - 1]);
        }
        if list[n - 1].0.same(id) {
            return list[n - 1].1;
        }
        n = n - 1;
    }
    0
}

/// The key is in the table afterwards, and the other keys are those that were
/// there before.
pub proof fn lemma_stored_contains<V>(
    list: Seq<(Seq<char>, V)>,
    key: Seq<char>,
    value: V,
    e: (Seq<char>, V),
)
    requires
        ordered(list),
    ensures
        stored(list, key, value).contains(e) <==> e == (key, value) || (e.0 != key
            && list.contains(e)),
        stored(list, key, value).len() <= list.len() + 1,
    decreases list.len(),
{
    let out = stored(list, key, value);
    if list.len() == 0 {
        assert(out[0] == (key, value));
    } else if list.last().0 == key {
        let head = list.drop_last();
        assert(out.last() == (key, value));
        if out.contains(e) {
            let i = choose|i: int| 0 <= i < out.len() && out[i] == e;
            if i < head.len() {
                assert(list[i] == e);
                text::lemma_before_irreflexive(key);
                assert(text::before(list[i].0, list[list.len() - 1].0));
            }
        }
        if e.0 != key && list.contains(e) {
            let i = choose|i: int| 0 <= i < list.len() && list[i] == e;
            assert(out[i] == e);
        }
        if e == (key, value) {
            assert(out[out.len() - 1] == e);
        }
    } else if text::before(key, list.last().0) {
        let head = list.drop_last();
        let inner = stored(head, key, value);
        lemma_stored_contains(head, key, value, e);
        if out.contains(e) {
            let i = choose|i: int| 0 <= i < out.len() && out[i] == e;
            if i < inner.len() {
                assert(inner[i] == e);
                if head.contains(e) {
                    let j = choose|j: int| 0 <= j < head.len() && head[j] == e;
                    assert(list[j] == e);
                }
            } else {
                assert(list[list.len() - 1] == e);
            }
        }
        if inner.contains(e) {
            let i = choose|i: int| 0 <= i < inner.len() && inner[i] == e;
            assert(out[i] == e);
        }
        if list.contains(e) && e.0 != key {
            let i = choose|i: int| 0 <= i < list.len() && list[i] == e;
            if i < head.len() {
                assert(head[i] == e);
            } else {
                assert(out[out.len() - 1] == e);
            }
        }
    } else {
        if out.contains(e) {
            let i = choose|i: int| 0 <= i < out.len() && out[i] == e;
            if i < list.len() {
                assert(list[i] == e);
                text::lemma_before_total(key, list.last().0);
                text::lemma_before_irreflexive(key);
                if e.0 == key {
                    assert(text::before(list[i].0, list[list.len() - 1].0));
                }
            }
        }
        if list.contains(e) {
            let i = choose|i: int| 0 <= i < list.len() && list[i] == e;
            assert(out[i] == e);
        }
        if e == (key, value) {
            assert(out[out.len() - 1] == e);
        }
    }
}

/// Storing keeps a table in order.
pub proof fn lemma_stored_ordered<V>(list: Seq<(Seq<char>, V)>, key: Seq<char>, value: V)
    requires
        ordered(list),
    ensures
        ordered(stored(list, key, value)),
    decreases list.len(),
{
    let out = stored(list, key, value);
    if list.len() == 0 {
    } else if list.last().0 == key {
        assert forall|i: int, j: int| 0 <= i < j < out.len() implies text::before(
            (#[trigger] out[i]).0,
            (#[trigger] out[j]).0,
        ) by {
            assert(text::before(list[i].0, list[j].0));
        }
    } else if text::before(key, list.last().0) {
        let head = list.drop_last();
        lemma_stored_ordered(head, key, value);
        let inner = stored(head, key, value);
        assert forall|i: int, j: int| 0 <= i < j < out.len() implies text::before(
            (#[trigger] out[i]).0,
            (#[trigger] out[j]).0,
        ) by {
            if j < inner.len() {
                assert(text::before(inner[i].0, inner[j].0));
            } else {
                lemma_stored_contains(head, key, value, out[i]);
                assert(inner[i] == out[i]);
                assert(inner.contains(out[i]));
                if out[i] != (key, value) {
                    let k = choose|k: int| 0 <= k < head.len() && head[k] == out[i];
                    assert(text::before(list[k].0, list[list.len() - 1].0));
                }
            }
        }
    } else {
        text::lemma_before_total(key, list.last().0);
        assert forall|i: int, j: int| 0 <= i < j < out.len() implies text::before(
            (#[trigger] out[i]).0,
            (#[trigger] out[j]).0,
        ) by {
            if j < list.len() {
                assert(text::before(list[i].0, list[j].0));
            } else if i < list.len() - 1 {
                assert(text::before(list[i].0, list[list.len() - 1].0));
                text::lemma_before_transitive(list[i].0, list.last().0, key);
            }
        }
    }
}

/// Two tables in order that hold the same entries are the same list.
pub proof fn lemma_ordered_unique<V>(a: Seq<(Seq<char>, V)>, b: Seq<(Seq<char>, V)>)
    requires
        ordered(a),
        ordered(b),
        forall|e: (Seq<char>, V)| a.contains(e) <==> b.contains(e),
    ensures
        a == b,
    decreases a.len(),
{
    if a.len() == 0 {
        if b.len() > 0 {
            assert(b.contains(b[0]));
        }
        assert(a =~= b);
    } else if b.len() == 0 {
        assert(a.contains(a[0]));
    } else {
        let x = a.last();
        let y = b.last();
        assert(a[a.len() - 1] == x && a.contains(x));
        assert(b[b.len() - 1] == y && b.contains(y));
        assert(b.contains(x));
        assert(a.contains(y));
        let i = choose|i: int| 0 <= i < b.len() && b[i] == x;
        let j = choose|j: int| 0 <= j < a.len() && a[j] == y;
        if i < b.len() - 1 {
            assert(text::before(b[i].0, b[b.len() - 1].0));
            if j < a.len() - 1 {
                assert(text::before(a[j].0, a[a.len() - 1].0));
                text::lemma_before_transitive(x.0, y.0, x.0);
            }
            text::lemma_before_irreflexive(x.0);
        }
        assert(x == y);
        let ha = a.drop_last();
        let hb = b.drop_last();
        assert forall|e: (Seq<char>, V)| ha.contains(e) <==> hb.contains(e) by {
            if ha.contains(e) {
                let k = choose|k: int| 0 <= k < ha.len() && ha[k] == e;
                assert(a[k] == e);
                assert(a.contains(e));
                assert(text::before(a[k].0, a[a.len() - 1].0));
                text::lemma_before_irreflexive(e.0);
                let m = choose|m: int| 0 <= m < b.len() && b[m] == e;
                assert(m < b.len() - 1);
                assert(hb[m] == e);
            }
            if hb.contains(e) {
                let k = choose|k: int| 0 <= k < hb.len() && hb[k] == e;
                assert(b[k] == e);
                assert(b.contains(e));
                assert(text::before(b[k].0, b[b.len() - 1].0));
                text::lemma_before_irreflexive(e.0);
                let m = choose|m: int| 0 <= m < a.len() && a[m] == e;
                assert(m < a.len() - 1);
                assert(ha[m] == e);
            }
        }
        assert(ordered(ha)) by {
            assert forall|p: int, q: int| 0 <= p < q < ha.len() implies text::before(
                (#[trigger] ha[p]).0,
                (#[trigger] ha[q]).0,
            ) by {
                assert(text::before(a[p].0, a[q].0));
            }
        }
        assert(ordered(hb)) by {
            assert forall|p: int, q: int| 0 <= p < q < hb.len() implies text::before(
                (#[trigger] hb[p]).0,
                (#[trigger] hb[q]).0,
            ) by {
                assert(text::before(b[p].0, b[q].0));
            }
        }
        lemma_ordered_unique(ha, hb);
        assert(a =~= ha.push(x));
        assert(b =~= hb.push(y));
    }
}

// ---------------------------------------------------------------------------
// Sums
// ---------------------------------------------------------------------------

/// The sum of `values`.
pub open spec fn total(values: Seq<nat>) -> nat
    decreases values.len(),
{
    if values.len() == 0 {
        0
    } else {
        total(values.drop_last()) + values.last()
    }
}

/// The sum over a prefix is at most the sum over the whole.
pub proof fn lemma_total_prefix(values: Seq<nat>, i: int)
    requires
        0 <= i <= values.len(),
    ensures
        total(values.take(i)) <= total(values),
    decreases values.len(),
{
    if i == values.len() {
        assert(values.take(i) =~= values);
    } else {
        lemma_total_prefix(values.drop_last(), i);
        assert(values.drop_last().take(i) =~= values.take(i));
    }
}

/// The sum over one more value.
pub proof fn lemma_total_step(values: Seq<nat>, i: int)
    requires
        0 <= i < values.len(),
    ensures
        total(values.take(i + 1)) == total(values.take(i)) + values[i],
        total(values.take(i + 1)) <= total(values),
{
    assert(values.take(i + 1).drop_last() =~= values.take(i));
    lemma_total_prefix(values, i + 1);
}

} // verus!
