//! Helpers for lists that run parallel to a list of selection flags, and
//! the natural order of file names.

mod natural;

pub use natural::{
    chars_order, digits_end, is_ascii_digit, lemma_digits_end, natural_cmp, natural_order,
    natural_order_sign, numbers_order, ordering_of, zeros_end,
};
use vstd::prelude::*;

verus! {

/// The indices from `from` on at which `selected` is `true`, in rising
/// order.
pub open spec fn spec_true_indices(selected: Seq<bool>, from: int) -> Seq<usize>
    decreases selected.len() - from,
{
    if from < 0 || from >= selected.len() {
        Seq::empty()
    } else if selected[from] {
        seq![from as usize] + spec_true_indices(selected, from + 1)
    } else {
        spec_true_indices(selected, from + 1)
    }
}

/// The indices at which `selected_bbs` is `true`, in rising order.
pub fn true_indices(selected_bbs: &[bool]) -> (v: Vec<usize>)
    ensures
        v@ == spec_true_indices(selected_bbs@, 0),
{
    let mut v: Vec<usize> = Vec::new();
    let mut i: usize = 0;
    while i < selected_bbs.len()
        invariant
            i <= selected_bbs.len(),
            spec_true_indices(selected_bbs@, 0) == v@ + spec_true_indices(selected_bbs@, i as int),
        decreases selected_bbs.len() - i,
    {
        if selected_bbs[i] {
            assert(v@.push(i) + spec_true_indices(selected_bbs@, i + 1) =~= v@
                + spec_true_indices(selected_bbs@, i as int));
            v.push(i);
        }
        i += 1;
    }
    assert(v@ + spec_true_indices(selected_bbs@, i as int) =~= v@);
    v
}

/// Every index in the list of true indices is one at which `selected` is
/// `true`, and every such index from `from` on is in the list.
pub proof fn lemma_true_indices(selected: Seq<bool>, from: int)
    requires
        0 <= from,
        selected.len() <= usize::MAX,
    ensures
        forall|k: int|
            0 <= k < spec_true_indices(selected, from).len() ==> from <= (
            #[trigger] spec_true_indices(selected, from)[k]) < selected.len() && selected[spec_true_indices(
                selected,
                from,
            )[k] as int],
        forall|i: int|
            from <= i < selected.len() && selected[i] ==> #[trigger] spec_true_indices(
                selected,
                from,
            ).contains(i as usize),
    decreases selected.len() - from,
{
    if from < selected.len() {
        lemma_true_indices(selected, from + 1);
        let rest = spec_true_indices(selected, from + 1);
        let all = spec_true_indices(selected, from);
        if selected[from] {
            assert forall|i: int| from <= i < selected.len() && selected[i] implies all.contains(
                i as usize,
            ) by {
                if i > from {
                    assert(rest.contains(i as usize));
                    let k = choose|k: int| 0 <= k < rest.len() && rest[k] == i as usize;
                    assert(all[k + 1] == i as usize);
                } else {
                    assert(all[0] == i as usize);
                }
            }
            assert forall|k: int| 0 <= k < all.len() implies from <= (#[trigger] all[k])
                < selected.len() && selected[all[k] as int] by {
                if k > 0 {
                    assert(all[k] == rest[k - 1]);
                }
            }
        } else {
            assert(all == rest);
            assert forall|i: int| from <= i < selected.len() && selected[i] implies all.contains(
                i as usize,
            ) by {
                assert(rest.contains(i as usize));
            }
        }
    }
}

/// The items from `from` on whose flag in `selected` is not set, in their
/// order. An item without a flag counts as not selected.
pub open spec fn kept<T>(items: Seq<T>, selected: Seq<bool>, from: int) -> Seq<T>
    decreases items.len() - from,
{
    if from < 0 || from >= items.len() {
        Seq::empty()
    } else if from < selected.len() && selected[from] {
        kept(items, selected, from + 1)
    } else {
        seq![items[from]] + kept(items, selected, from + 1)
    }
}

/// The number of items before `upto` whose flag is not set: the place that
/// the item at `upto` has among the kept ones, if it is kept.
pub open spec fn rank(selected: Seq<bool>, upto: int) -> int
    decreases upto,
{
    if upto <= 0 {
        0
    } else if upto - 1 < selected.len() && selected[upto - 1] {
        rank(selected, upto - 1)
    } else {
        rank(selected, upto - 1) + 1
    }
}

/// Removing the selected items keeps every other item, and keeps them in
/// their order: the item at index `i`, if it is not selected, comes out at
/// the place `rank(.., i)`, which grows with `i`.
pub proof fn lemma_kept_keeps_order<T>(items: Seq<T>, selected: Seq<bool>, i: int)
    requires
        0 <= i < items.len(),
        !(i < selected.len() && selected[i]),
    ensures
        kept(items, selected, 0).len() == rank(selected, items.len() as int),
        0 <= rank(selected, i) < kept(items, selected, 0).len(),
        kept(items, selected, 0)[rank(selected, i)] == items[i],
        forall|j: int|
            i < j <= items.len() ==> rank(selected, i) < #[trigger] rank(selected, j,
            ),
{
    lemma_kept_from(items, selected, 0, i);
    lemma_kept_from(items, selected, 0, items.len() as int);
    let all = kept(items, selected, 0);
    let r = rank(selected, i);
    assert(kept(items, selected, i)[0] == items[i]);
    assert(all.subrange(r, all.len() as int)[0] == all[r]);
    assert(kept(items, selected, items.len() as int) =~= Seq::empty());
    assert forall|j: int| i < j <= items.len() implies rank(selected, i)
        < #[trigger] rank(selected, j) by {
        lemma_rank_grows(selected, i + 1, j);
    }
}

/// The rank does not fall.
pub proof fn lemma_rank_grows(selected: Seq<bool>, a: int, b: int)
    requires
        0 <= a <= b,
    ensures
        rank(selected, a) <= rank(selected, b),
        0 <= rank(selected, a) <= a,
    decreases b,
{
    if a < b {
        lemma_rank_grows(selected, a, b - 1);
    } else if a > 0 {
        lemma_rank_grows(selected, a - 1, a - 1);
    }
}

/// The kept items from `from` on are the kept ones among the items from
/// `from` up to `mid`, of which there are as many as the rank grows by,
/// followed by the kept ones from `mid` on.
pub proof fn lemma_kept_from<T>(items: Seq<T>, selected: Seq<bool>, from: int, mid: int)
    requires
        0 <= from <= mid <= items.len(),
    ensures
        kept(items, selected, from).len() == rank(selected, mid) - rank(selected, from,
        ) + kept(items, selected, mid).len(),
        kept(items, selected, from).subrange(
            rank(selected, mid) - rank(selected, from),
            kept(items, selected, from).len() as int,
        ) == kept(items, selected, mid),
        rank(selected, from) <= rank(selected, mid),
    decreases mid - from,
{
    if from == mid {
        assert(kept(items, selected, from).subrange(0, kept(items, selected, from).len() as int)
            =~= kept(items, selected, from));
    } else {
        lemma_kept_from(items, selected, from, mid - 1);
        let whole = kept(items, selected, from);
        let tail = kept(items, selected, mid - 1);
        let off = rank(selected, mid - 1) - rank(selected, from);
        assert(whole.subrange(off, whole.len() as int) == tail);
        if mid - 1 < selected.len() && selected[mid - 1] {
            assert(tail == kept(items, selected, mid));
        } else {
            assert(tail == seq![items[mid - 1]] + kept(items, selected, mid));
            assert(whole.subrange(off + 1, whole.len() as int) =~= kept(items, selected, mid)) by {
                assert forall|k: int| 0 <= k < whole.len() - off - 1 implies whole.subrange(
                    off + 1,
                    whole.len() as int,
                )[k] == kept(items, selected, mid)[k] by {
                    assert(whole.subrange(off, whole.len() as int)[k + 1] == tail[k + 1]);
                }
            }
        }
    }
}

/// Takes the items out of `items` whose flag in `selected` is set, and keeps
/// the others in their order.
pub fn remove_selected_items<T>(items: &mut Vec<T>, selected: &Vec<bool>)
    requires
        selected.len() <= old(items).len(),
    ensures
        final(items)@ == kept(old(items)@, selected@, 0),
{
    let mut i: usize = selected.len();
    assert(kept(items@, selected@, i as int) =~= items@.subrange(i as int, items@.len() as int))
        by {
        lemma_kept_unflagged(items@, selected@, i as int);
    }
    assert(items@ =~= items@.subrange(0, i as int) + items@.subrange(
        i as int,
        items@.len() as int,
    ));
    while i > 0
        invariant
            i <= selected.len() <= old(items).len(),
            items@ == old(items)@.subrange(0, i as int) + kept(old(items)@, selected@, i as int),
        decreases i,
    {
        i -= 1;
        let ghost prefix = old(items)@.subrange(0, i as int);
        let ghost rest = kept(old(items)@, selected@, i + 1);
        assert(old(items)@.subrange(0, i + 1) =~= prefix.push(old(items)@[i as int]));
        if selected[i] {
            items.remove(i);
            assert(items@ =~= prefix + rest);
        } else {
            assert(items@ =~= prefix + (seq![old(items)@[i as int]] + rest));
        }
    }
    assert(old(items)@.subrange(0, 0) + kept(old(items)@, selected@, 0) =~= kept(
        old(items)@,
        selected@,
        0,
    ));
}

/// Beyond the flags every item is kept.
pub proof fn lemma_kept_unflagged<T>(items: Seq<T>, selected: Seq<bool>, from: int)
    requires
        selected.len() <= from <= items.len(),
    ensures
        kept(items, selected, from) =~= items.subrange(from, items.len() as int),
    decreases items.len() - from,
{
    if from < items.len() {
        lemma_kept_unflagged(items, selected, from + 1);
    }
}

/// A list of `n` copies of `value`.
pub fn filled<T: Copy>(value: T, n: usize) -> (v: Vec<T>)
    ensures
        v@ == Seq::new(n as nat, |i: int| value),
{
    let mut v: Vec<T> = Vec::new();
    let mut i: usize = 0;
    while i < n
        invariant
            i <= n,
            v@ == Seq::new(i as nat, |k: int| value),
        decreases n - i,
    {
        v.push(value);
        i += 1;
        assert(v@ =~= Seq::new(i as nat, |k: int| value));
    }
    v
}

} // verus!
