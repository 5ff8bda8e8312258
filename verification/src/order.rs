//! Stable ordering by text keys (the byte order of `str`), and rearranging a
//! vector by an order.
use vstd::prelude::*;
use vstd::string::StringSliceAdditionalSpecFns;
use vstd::utf8::encode_utf8;
use crate::text::{
    bytes_lt, lemma_bytes_lt_irreflexive, lemma_bytes_lt_total, lemma_bytes_lt_trans, text_lt,
};

verus! {

broadcast use vstd::string::group_string_axioms;

pub open spec fn key_of(s: String) -> Seq<u8> {
    encode_utf8(s@)
}

/// Position `i` comes before `j` when sorting `keys` ascending, stably.
pub open spec fn ascending_before(keys: Seq<String>, i: int, j: int) -> bool {
    bytes_lt(key_of(keys[i]), key_of(keys[j])) || (key_of(keys[i]) == key_of(keys[j]) && i < j)
}

/// `order` lists every index of `keys` once, as a stable ascending sort does.
pub open spec fn stable_ascending(keys: Seq<String>, order: Seq<usize>) -> bool {
    &&& order.len() == keys.len()
    &&& forall|p: int| 0 <= p < order.len() ==> (#[trigger] order[p]) < keys.len()
    &&& forall|p: int, q: int|
        0 <= p < q < order.len() ==> ascending_before(keys, #[trigger] order[p] as int, #[trigger] order[q] as int)
}

/// Indices of `keys` in stable ascending order of their text.
pub fn stable_ascending_order(keys: &Vec<String>) -> (order: Vec<usize>)
    ensures
        stable_ascending(keys@, order@),
{
    let ghost k = keys@;
    let mut out: Vec<usize> = Vec::new();
    let mut i: usize = 0;
    while i < keys.len()
        invariant
            0 <= i <= keys.len(),
            k == keys@,
            out@.len() == i,
            forall|p: int| 0 <= p < out@.len() ==> (#[trigger] out@[p]) < i,
            forall|p: int, q: int|
                0 <= p < q < out@.len() ==> ascending_before(k, #[trigger] out@[p] as int, #[trigger] out@[q] as int),
        decreases keys.len() - i,
    {
        let key = keys[i].as_str();
        let mut p: usize = 0;
        while p < out.len() && !text_lt(key, keys[out[p]].as_str())
            invariant
                0 <= p <= out@.len(),
                out@.len() == i,
                i < keys.len(),
                k == keys@,
                key@ == k[i as int]@,
                forall|m: int| 0 <= m < out@.len() ==> (#[trigger] out@[m]) < i,
                forall|m: int| 0 <= m < p ==> !bytes_lt(key_of(k[i as int]), key_of(k[#[trigger] out@[m] as int])),
            decreases out@.len() - p,
        {
            p = p + 1;
        }
        proof {
            let ki = key_of(k[i as int]);
            assert forall|m: int| 0 <= m < p implies ascending_before(k, #[trigger] out@[m] as int, i as int) by {
                lemma_bytes_lt_total(ki, key_of(k[out@[m] as int]));
            }
            assert forall|m: int| p <= m < out@.len() implies ascending_before(k, i as int, #[trigger] out@[m] as int) by {
                let a = key_of(k[out@[p as int] as int]);
                let b = key_of(k[out@[m] as int]);
                if m != p {
                    assert(ascending_before(k, out@[p as int] as int, out@[m] as int));
                    if bytes_lt(a, b) {
                        lemma_bytes_lt_trans(ki, a, b);
                    }
                }
            }
        }
        let ghost before = out@;
        out.insert(p, i);
        proof {
            assert forall|a: int, b: int| 0 <= a < b < out@.len() implies ascending_before(k, #[trigger] out@[a] as int, #[trigger] out@[b] as int) by {
                if b < p {
                    assert(out@[a] == before[a] && out@[b] == before[b]);
                } else if b == p {
                    assert(out@[a] == before[a]);
                } else if a < p {
                    assert(out@[a] == before[a] && out@[b] == before[b - 1]);
                    assert(ascending_before(k, before[a] as int, i as int));
                    assert(ascending_before(k, i as int, before[b - 1] as int));
                    let x = key_of(k[before[a] as int]);
                    let y = key_of(k[i as int]);
                    let z = key_of(k[before[b - 1] as int]);
                    if bytes_lt(x, y) && bytes_lt(y, z) {
                        lemma_bytes_lt_trans(x, y, z);
                    }
                } else if a == p {
                    assert(out@[b] == before[b - 1]);
                } else {
                    assert(out@[a] == before[a - 1] && out@[b] == before[b - 1]);
                }
            }
        }
        i = i + 1;
    }
    out
}

/// `order` lists indices below `n`, each once.
pub open spec fn is_permutation(order: Seq<usize>, n: int) -> bool {
    &&& order.len() == n
    &&& forall|p: int| 0 <= p < order.len() ==> (#[trigger] order[p]) < n
    &&& forall|p: int, q: int| 0 <= p < q < order.len() ==> #[trigger] order[p] != #[trigger] order[q]
}

/// The items rearranged so that position `p` holds `items[order[p]]`.
pub fn rearrange<T>(items: Vec<T>, order: &Vec<usize>) -> (r: Vec<T>)
    requires
        is_permutation(order@, items@.len() as int),
    ensures
        r@.len() == order@.len(),
        forall|p: int| 0 <= p < order@.len() ==> #[trigger] r@[p] == items@[order@[p] as int],
{
    let ghost original = items@;
    let mut slots: Vec<Option<T>> = Vec::new();
    let mut source = items;
    let n = source.len();
    let mut k: usize = 0;
    while k < n
        invariant
            0 <= k <= n,
            n == original.len(),
            source@ == original.skip(k as int),
            slots@.len() == k,
            forall|m: int| 0 <= m < k ==> #[trigger] slots@[m] == Some(original[m]),
        decreases n - k,
    {
        let ghost before = source@;
        let item = source.remove(0);
        assert(source@ =~= original.skip(k + 1)) by {
            assert(before =~= original.skip(k as int));
        }
        slots.push(Some(item));
        k = k + 1;
    }
    let mut out: Vec<T> = Vec::new();
    let mut p: usize = 0;
    while p < order.len()
        invariant
            0 <= p <= order@.len(),
            is_permutation(order@, original.len() as int),
            slots@.len() == original.len(),
            out@.len() == p,
            forall|m: int| 0 <= m < p ==> #[trigger] out@[m] == original[order@[m] as int],
            forall|q: int| p <= q < order@.len() ==> slots@[#[trigger] order@[q] as int] == Some(
                original[order@[q] as int],
            ),
        decreases order@.len() - p,
    {
        let idx = order[p];
        let taken = slots[idx].take();
        proof {
            assert forall|q: int| p + 1 <= q < order@.len() implies slots@[#[trigger] order@[q] as int]
                == Some(original[order@[q] as int]) by {
                assert(order@[p as int] != order@[q]);
            }
        }
        match taken {
            Some(item) => {
                out.push(item);
            },
            None => {
                proof {
                    assert(false);
                }
            },
        }
        p = p + 1;
    }
    out
}

pub proof fn lemma_stable_ascending_permutation(keys: Seq<String>, order: Seq<usize>)
    requires
        stable_ascending(keys, order),
    ensures
        is_permutation(order, keys.len() as int),
{
    assert forall|p: int, q: int| 0 <= p < q < order.len() implies #[trigger] order[p] != #[trigger] order[q] by {
        assert(ascending_before(keys, order[p] as int, order[q] as int));
        if order[p] == order[q] {
            lemma_bytes_lt_irreflexive(key_of(keys[order[p] as int]));
        }
    }
}

} // verus!
