//! Grouping a sequence of values into batches of bounded size.

use crate::value::{all_wf, lemma_views_of, views_of, Value, ValueView};
use vstd::arithmetic::div_mod::lemma_fundamental_div_mod_converse;
use vstd::arithmetic::mul::{lemma_mul_inequality, lemma_mul_is_distributive_add_other_way};
use vstd::prelude::*;

verus! {

/// How many batches of at most `size` items hold `len` items.
pub open spec fn batch_count(len: nat, size: nat) -> nat {
    if size == 0 {
        0
    } else {
        ((len + size - 1) / (size as int)) as nat
    }
}

/// The `k`-th batch of `items`: the items from `k * size` up to, but not
/// including, `(k + 1) * size`, as far as there are any.
pub open spec fn batch_at(items: Seq<ValueView>, size: nat, k: int) -> Seq<ValueView> {
    let end = if (k + 1) * size <= items.len() {
        (k + 1) * size
    } else {
        items.len() as int
    };
    items.subrange(k * size, end)
}

/// `items` in batches of `size`: every batch but the last is full, the last
/// holds what is left and is not empty, and no items means no batch.
pub open spec fn batches(items: Seq<ValueView>, size: nat) -> Seq<ValueView> {
    Seq::new(batch_count(items.len(), size), |k: int| ValueView::Array(batch_at(items, size, k)))
}

/// With `q` full batches and `r` items over, there are `q` batches, and one
/// more where `r` is not zero.
pub proof fn lemma_batch_count(q: nat, r: nat, size: nat)
    requires
        r < size,
    ensures
        batch_count(q * size + r, size) == if r == 0 {
            q
        } else {
            q + 1
        },
{
    let d = size as int;
    let x = q * size + r + size - 1;
    if r == 0 {
        lemma_fundamental_div_mod_converse(x, d, q as int, d - 1);
    } else {
        assert((q + 1) * d == q * d + d) by {
            lemma_mul_is_distributive_add_other_way(d, q as int, 1);
        }
        lemma_fundamental_div_mod_converse(x, d, q as int + 1, r as int - 1);
    }
}

/// The sizes of the batches: `size` for each but the last, and for the last
/// what is left.
pub proof fn lemma_batch_sizes(items: Seq<ValueView>, size: nat, k: int)
    requires
        size > 0,
        0 <= k < batch_count(items.len(), size),
    ensures
        batches(items, size).len() == batch_count(items.len(), size),
        batches(items, size)[k] == ValueView::Array(batch_at(items, size, k)),
        k + 1 < batch_count(items.len(), size) ==> batch_at(items, size, k).len() == size,
        k + 1 == batch_count(items.len(), size) ==> batch_at(items, size, k).len()
            == items.len() - k * size,
        0 < batch_at(items, size, k).len() <= size,
        0 <= k * size,
        k * size + batch_at(items, size, k).len() <= items.len(),
        batch_at(items, size, k) == items.subrange(
            k * size,
            k * size + batch_at(items, size, k).len(),
        ),
{
    let d = size as int;
    let n = items.len();
    let q = n as int / d;
    let r = n as int % d;
    vstd::arithmetic::div_mod::lemma_fundamental_div_mod(n as int, d);
    vstd::arithmetic::div_mod::lemma_mod_bound(n as int, d);
    vstd::arithmetic::div_mod::lemma_div_pos_is_pos(n as int, d);
    assert(n == q * d + r) by {
        vstd::arithmetic::mul::lemma_mul_is_commutative(d, q);
    }
    lemma_batch_count(q as nat, r as nat, size);
    assert((k + 1) * d == k * d + d) by {
        lemma_mul_is_distributive_add_other_way(d, k, 1);
    }
    assert(0 <= k * d) by {
        vstd::arithmetic::mul::lemma_mul_nonnegative(k, d);
    }
    if k < q {
        assert((k + 1) * d <= q * d) by {
            lemma_mul_inequality(k + 1, q, d);
        }
    } else {
        assert(k == q && r > 0);
    }
}

/// Batches of well-formed values are well formed.
pub proof fn lemma_batches_wf(items: Seq<ValueView>, size: nat)
    requires
        size > 0,
        all_wf(items),
    ensures
        all_wf(batches(items, size)),
        ValueView::Array(batches(items, size)).wf(),
{
    assert forall|k: int| 0 <= k < batches(items, size).len() implies (#[trigger] batches(
        items,
        size,
    )[k]).wf() by {
        lemma_batch_sizes(items, size, k);
        let chunk = batch_at(items, size, k);
        assert forall|i: int| 0 <= i < chunk.len() implies (#[trigger] chunk[i]).wf() by {
            assert(chunk[i] == items[k * size + i]);
        }
    }
}

/// Groups `items`, in order, into arrays of `size` items each; the last
/// array holds what is left, and is left out where nothing is.
pub fn into_batches(items: Vec<Value>, size: usize) -> (r: Vec<Value>)
    requires
        size > 0,
    ensures
        views_of(r@) == batches(views_of(items@), size as nat),
{
    let ghost all = views_of(items@);
    let ghost source = items@;
    let mut sealed: Vec<Value> = Vec::new();
    let mut open: Vec<Value> = Vec::new();
    proof {
        lemma_views_of(source);
        assert(sealed.len() * size == 0) by (nonlinear_arith)
            requires
                sealed.len() == 0,
        ;
        assert(all.subrange(0, 0) == Seq::<ValueView>::empty());
    }
    for item in it: items
        invariant
            size > 0,
            it.seq() == source,
            all == views_of(source),
            all.len() == source.len(),
            forall|i: int| 0 <= i < source.len() ==> (#[trigger] all[i]) == source[i]@,
            open.len() < size,
            it.index() == sealed.len() * size + open.len(),
            forall|k: int|
                0 <= k < sealed.len() ==> (#[trigger] sealed[k])@ == ValueView::Array(
                    all.subrange(k * size, k * size + size),
                ),
            views_of(open@) == all.subrange(sealed.len() * size, it.index() as int),
    {
        let ghost m = it.index() as int;
        proof {
            assert(item == source[m]);
            assert(open@.push(item).drop_last() == open@);
            assert(all.subrange(sealed.len() * size, m + 1) == all.subrange(
                sealed.len() * size,
                m,
            ).push(all[m]));
        }
        open.push(item);
        if open.len() >= size {
            proof {
                assert((sealed.len() + 1) * size == sealed.len() * size + size) by {
                    lemma_mul_is_distributive_add_other_way(size as int, sealed.len() as int, 1);
                }
                assert(all.subrange(m + 1, m + 1) == Seq::<ValueView>::empty());
            }
            sealed.push(Value::array(open));
            open = Vec::new();
        }
    }
    let ghost q = sealed.len() as nat;
    let ghost r = open.len() as nat;
    if open.len() > 0 {
        sealed.push(Value::array(open));
    }
    proof {
        lemma_batch_count(q, r, size as nat);
        lemma_views_of(sealed@);
        let want = batches(all, size as nat);
        assert(views_of(sealed@).len() == want.len());
        assert forall|k: int| 0 <= k < want.len() implies views_of(sealed@)[k] == want[k] by {
            lemma_batch_sizes(all, size as nat, k);
            assert((k + 1) * size == k * size + size) by {
                lemma_mul_is_distributive_add_other_way(size as int, k, 1);
            }
            if k < q {
                assert((k + 1) * size <= q * size) by {
                    lemma_mul_inequality(k + 1, q as int, size as int);
                }
            }
        }
        assert(views_of(sealed@) =~= want);
    }
    sealed
}

} // verus!
