//! Stable sorting by a rank and a text key, as `slice::sort_by` does with a
//! comparator that compares a group first and names second.
use vstd::prelude::*;
use crate::text::{
    compare_chars, lemma_text_less_irreflexive, lemma_text_less_total,
    lemma_text_less_transitive, text_less,
};

verus! {

/// The key an item is sorted by: a rank compared first, then a text.
pub struct SortKey {
    pub rank: u8,
    pub text: Vec<char>,
}

impl DeepView for SortKey {
    type V = (u8, Seq<char>);

    open spec fn deep_view(&self) -> (u8, Seq<char>) {
        (self.rank, self.text@)
    }
}

/// Whether key `a` sorts strictly before key `b`: by rank, then by text,
/// the text order reversed when `descending`.
pub open spec fn key_before(a: (u8, Seq<char>), b: (u8, Seq<char>), descending: bool) -> bool {
    a.0 < b.0 || (a.0 == b.0 && if descending {
        text_less(b.1, a.1)
    } else {
        text_less(a.1, b.1)
    })
}

/// Whether the item at input position `i` comes out before the one at `j`
/// in a stable sort: by key, and by input position among equal keys.
pub open spec fn index_before(keys: Seq<(u8, Seq<char>)>, i: int, j: int, descending: bool) -> bool {
    key_before(keys[i], keys[j], descending) || (!key_before(keys[j], keys[i], descending) && i
        < j)
}

/// `perm` lists the input positions in the order a stable sort puts them.
pub open spec fn is_stable_order(perm: Seq<int>, keys: Seq<(u8, Seq<char>)>, descending: bool) -> bool {
    &&& perm.len() == keys.len()
    &&& forall|a: int| 0 <= a < perm.len() ==> 0 <= #[trigger] perm[a] < keys.len()
    &&& forall|a: int, b: int|
        0 <= a < b < perm.len() ==> index_before(keys, #[trigger] perm[a], #[trigger] perm[b], descending)
}

/// `out` is `items` stably sorted by `keys`.
pub open spec fn is_stable_sort_of<T>(
    out: Seq<T>,
    items: Seq<T>,
    keys: Seq<(u8, Seq<char>)>,
    descending: bool,
) -> bool {
    exists|perm: Seq<int>|
        {
            &&& is_stable_order(perm, keys, descending)
            &&& out.len() == perm.len()
            &&& forall|a: int| 0 <= a < out.len() ==> #[trigger] out[a] == items[perm[a]]
        }
}

pub proof fn lemma_key_before_irreflexive(a: (u8, Seq<char>), descending: bool)
    ensures
        !key_before(a, a, descending),
{
    lemma_text_less_irreflexive(a.1);
}

pub proof fn lemma_key_before_transitive(
    a: (u8, Seq<char>),
    b: (u8, Seq<char>),
    c: (u8, Seq<char>),
    descending: bool,
)
    requires
        key_before(a, b, descending),
        key_before(b, c, descending),
    ensures
        key_before(a, c, descending),
{
    if a.0 == b.0 && b.0 == c.0 {
        if descending {
            lemma_text_less_transitive(c.1, b.1, a.1);
        } else {
            lemma_text_less_transitive(a.1, b.1, c.1);
        }
    }
}

/// Keys that neither precede the other are equal.
pub proof fn lemma_key_before_total(a: (u8, Seq<char>), b: (u8, Seq<char>), descending: bool)
    requires
        !key_before(a, b, descending),
        !key_before(b, a, descending),
    ensures
        a == b,
{
    if a.1 != b.1 {
        lemma_text_less_total(a.1, b.1);
    }
}

proof fn lemma_key_before_weak(
    a: (u8, Seq<char>),
    b: (u8, Seq<char>),
    c: (u8, Seq<char>),
    descending: bool,
)
    requires
        key_before(a, b, descending),
        !key_before(c, b, descending),
    ensures
        key_before(a, c, descending),
{
    if key_before(b, c, descending) {
        lemma_key_before_transitive(a, b, c, descending);
    } else {
        lemma_key_before_total(b, c, descending);
    }
}

/// Whether key `a` sorts strictly before key `b`.
pub fn key_precedes(a: &SortKey, b: &SortKey, descending: bool) -> (res: bool)
    ensures
        res == key_before(a.deep_view(), b.deep_view(), descending),
{
    if a.rank != b.rank {
        return a.rank < b.rank;
    }
    let c = compare_chars(&a.text, &b.text);
    if descending {
        c == 1
    } else {
        c == -1
    }
}

/// Sorts `items` stably by their `keys` (one key per item).
pub fn stable_sort<T>(items: Vec<T>, keys: &Vec<SortKey>, descending: bool) -> (res: Vec<T>)
    requires
        items@.len() == keys@.len(),
    ensures
        is_stable_sort_of(res@, items@, keys.deep_view(), descending),
{
    let ghost kv = keys.deep_view();
    let ghost orig = items@;
    let n = items.len();
    let mut rest = items;
    let mut out: Vec<T> = Vec::new();
    let mut order: Vec<usize> = Vec::new();
    let mut i: usize = 0;
    while i < n
        invariant
            n == keys@.len(),
            n == orig.len(),
            kv == keys.deep_view(),
            i <= n,
            rest@ == orig.subrange(i as int, n as int),
            order@.len() == i,
            out@.len() == i,
            forall|a: int| 0 <= a < i ==> #[trigger] order@[a] < i,
            forall|a: int| 0 <= a < i ==> #[trigger] out@[a] == orig[order@[a] as int],
            forall|a: int, b: int|
                0 <= a < b < i ==> index_before(
                    kv,
                    #[trigger] order@[a] as int,
                    #[trigger] order@[b] as int,
                    descending,
                ),
        decreases n - i,
    {
        let mut p: usize = 0;
        while p < order.len() && !key_precedes(&keys[i], &keys[order[p]], descending)
            invariant
                n == keys@.len(),
                kv == keys.deep_view(),
                i < n,
                order@.len() == i,
                p <= i,
                forall|a: int| 0 <= a < i ==> #[trigger] order@[a] < i,
                forall|q: int|
                    0 <= q < p ==> !key_before(kv[i as int], kv[#[trigger] order@[q] as int], descending),
            decreases i - p,
        {
            p = p + 1;
        }
        let ghost old_order = order@;
        let ghost old_out = out@;
        proof {
            assert forall|q: int| p <= q < i implies key_before(
                kv[i as int],
                kv[#[trigger] old_order[q] as int],
                descending,
            ) by {
                if q > p {
                    let x = old_order[p as int] as int;
                    let y = old_order[q] as int;
                    assert(index_before(kv, x, y, descending));
                    if key_before(kv[x], kv[y], descending) {
                        lemma_key_before_transitive(kv[i as int], kv[x], kv[y], descending);
                    } else {
                        lemma_key_before_weak(kv[i as int], kv[x], kv[y], descending);
                    }
                }
            }
        }
        let item = rest.remove(0);
        assert(item == orig[i as int]);
        out.insert(p, item);
        order.insert(p, i);
        proof {
            assert(rest@ =~= orig.subrange(i + 1, n as int));
            assert forall|a: int| 0 <= a < i + 1 implies #[trigger] order@[a] < i + 1 by {
                if a < p {
                    assert(order@[a] == old_order[a]);
                } else if a > p {
                    assert(order@[a] == old_order[a - 1]);
                }
            }
            assert forall|a: int| 0 <= a < i + 1 implies #[trigger] out@[a] == orig[order@[a] as int] by {
                if a < p {
                    assert(order@[a] == old_order[a]);
                    assert(out@[a] == old_out[a]);
                } else if a > p {
                    assert(order@[a] == old_order[a - 1]);
                    assert(out@[a] == old_out[a - 1]);
                }
            }
            assert forall|a: int, b: int| 0 <= a < b < i + 1 implies index_before(
                kv,
                #[trigger] order@[a] as int,
                #[trigger] order@[b] as int,
                descending,
            ) by {
                if a < p {
                    assert(order@[a] == old_order[a]);
                } else if a > p {
                    assert(order@[a] == old_order[a - 1]);
                }
                if b < p {
                    assert(order@[b] == old_order[b]);
                } else if b > p {
                    assert(order@[b] == old_order[b - 1]);
                }
                if a < p && b > p {
                    assert(index_before(kv, old_order[a] as int, old_order[b - 1] as int, descending));
                } else if a > p {
                    assert(index_before(kv, old_order[a - 1] as int, old_order[b - 1] as int, descending));
                }
            }
        }
        i = i + 1;
    }
    let ghost perm = order@.map_values(|i: usize| i as int);
    proof {
        assert forall|a: int| 0 <= a < perm.len() implies 0 <= #[trigger] perm[a] < kv.len() by {
            assert(perm[a] == order@[a] as int);
        }
        assert forall|a: int, b: int| 0 <= a < b < perm.len() implies index_before(
            kv,
            #[trigger] perm[a],
            #[trigger] perm[b],
            descending,
        ) by {
            assert(perm[a] == order@[a] as int);
            assert(perm[b] == order@[b] as int);
        }
        assert forall|a: int| 0 <= a < out@.len() implies #[trigger] out@[a] == orig[perm[a]] by {
            assert(perm[a] == order@[a] as int);
        }
        assert(is_stable_order(perm, kv, descending));
    }
    out
}

} // verus!

verus! {

/// In a stable sort the items come out in key order: no item is preceded
/// by one whose key sorts after its own.
pub proof fn lemma_stable_order_sorted(
    perm: Seq<int>,
    keys: Seq<(u8, Seq<char>)>,
    descending: bool,
    a: int,
    b: int,
)
    requires
        is_stable_order(perm, keys, descending),
        0 <= a < b < perm.len(),
    ensures
        !key_before(keys[perm[b]], keys[perm[a]], descending),
        perm[a] != perm[b],
        keys[perm[a]] == keys[perm[b]] ==> perm[a] < perm[b],
{
    let x = perm[a];
    let y = perm[b];
    assert(index_before(keys, x, y, descending));
    lemma_key_before_irreflexive(keys[x], descending);
    if key_before(keys[x], keys[y], descending) && key_before(keys[y], keys[x], descending) {
        lemma_key_before_transitive(keys[x], keys[y], keys[x], descending);
    }
}

/// The lowercase characters of a text.
pub fn lowercase_chars(s: &str) -> (res: Vec<char>)
    ensures
        res@ == crate::text::lowercase(s@),
{
    let lowered = crate::text::to_lowercase(s);
    crate::text::chars_of(lowered.as_str())
}

/// A stable sort of items is, seen through any view of the items, a
/// stable sort of their views.
pub proof fn lemma_stable_sort_map<T, U>(
    out: Seq<T>,
    items: Seq<T>,
    keys: Seq<(u8, Seq<char>)>,
    descending: bool,
    f: spec_fn(T) -> U,
)
    requires
        is_stable_sort_of(out, items, keys, descending),
        items.len() == keys.len(),
    ensures
        is_stable_sort_of(out.map_values(f), items.map_values(f), keys, descending),
{
    let perm = choose|perm: Seq<int>|
        {
            &&& is_stable_order(perm, keys, descending)
            &&& out.len() == perm.len()
            &&& forall|a: int| 0 <= a < out.len() ==> #[trigger] out[a] == items[perm[a]]
        };
    assert forall|a: int| 0 <= a < out.map_values(f).len() implies #[trigger] out.map_values(f)[a]
        == items.map_values(f)[perm[a]] by {
        assert(0 <= perm[a] < keys.len());
        assert(out[a] == items[perm[a]]);
    }
}

} // verus!
