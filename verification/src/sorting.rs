//! Stable sorting by a text key, in ascending or descending `String` order.
//!
//! `sort_by_key` is the stable insertion sort: each element, taken in input
//! order, is placed after every element already placed that it does not
//! strictly precede. A stable sort's output is determined by the order alone,
//! so this is also what `slice::sort_by` returns for the same comparison.
use vstd::prelude::*;
use vstd::seq_lib::to_multiset_build;
use vstd::seq_lib::to_multiset_insert;

use crate::text::lex_le;
use crate::text::lex_le_chars;
use crate::text::lemma_lex_total;
use crate::text::lemma_lex_reflexive;
use crate::text::lemma_lex_transitive;

verus! {

/// The key `x` comes strictly before the key `y`: ascending, `x < y`;
/// descending, `y < x`.
pub open spec fn goes_before(x: Seq<char>, y: Seq<char>, descending: bool) -> bool {
    if descending {
        !lex_le(x, y)
    } else {
        !lex_le(y, x)
    }
}

/// Where `x` is placed in the sorted `s`: before the first element it
/// strictly precedes.
pub open spec fn insert_index<T>(
    s: Seq<T>,
    x: T,
    key: spec_fn(T) -> Seq<char>,
    descending: bool,
) -> nat
    decreases s.len(),
{
    if s.len() == 0 {
        0
    } else if goes_before(key(x), key(s[0]), descending) {
        0
    } else {
        1 + insert_index(s.drop_first(), x, key, descending)
    }
}

/// The stable sort of `s` by `key`.
pub open spec fn sort_by_key<T>(s: Seq<T>, key: spec_fn(T) -> Seq<char>, descending: bool) -> Seq<
    T,
>
    decreases s.len(),
{
    if s.len() == 0 {
        s
    } else {
        let rest = sort_by_key(s.drop_last(), key, descending);
        rest.insert(insert_index(rest, s.last(), key, descending) as int, s.last())
    }
}

/// No element of `s` strictly precedes an element before it.
pub open spec fn sorted_by_key<T>(s: Seq<T>, key: spec_fn(T) -> Seq<char>, descending: bool) -> bool {
    forall|i: int, j: int|
        0 <= i < j < s.len() ==> !goes_before(#[trigger] key(s[j]), #[trigger] key(s[i]), descending)
}

/// What `insert_index` finds.
pub proof fn lemma_insert_index<T>(
    s: Seq<T>,
    x: T,
    key: spec_fn(T) -> Seq<char>,
    descending: bool,
)
    ensures
        insert_index(s, x, key, descending) <= s.len(),
        forall|m: int|
            0 <= m < insert_index(s, x, key, descending) ==> !goes_before(
                key(x),
                #[trigger] key(s[m]),
                descending,
            ),
        insert_index(s, x, key, descending) < s.len() ==> goes_before(
            key(x),
            key(s[insert_index(s, x, key, descending) as int]),
            descending,
        ),
    decreases s.len(),
{
    if s.len() > 0 && !goes_before(key(x), key(s[0]), descending) {
        lemma_insert_index(s.drop_first(), x, key, descending);
        assert forall|m: int| 0 <= m < insert_index(s, x, key, descending) implies !goes_before(
            key(x),
            #[trigger] key(s[m]),
            descending,
        ) by {
            if m > 0 {
                assert(s[m] == s.drop_first()[m - 1]);
            }
        }
    }
}

/// If `x` strictly precedes `y` and `z` does not strictly precede `y`, then
/// `z` does not strictly precede `x`.
pub proof fn lemma_goes_before_chain(x: Seq<char>, y: Seq<char>, z: Seq<char>, descending: bool)
    requires
        goes_before(x, y, descending),
        !goes_before(z, y, descending),
    ensures
        !goes_before(z, x, descending),
{
    if descending {
        lemma_lex_total(x, y);
        lemma_lex_transitive(z, y, x);
    } else {
        lemma_lex_total(x, y);
        lemma_lex_transitive(x, y, z);
    }
}

/// Law: the stable sort is ordered by the key.
pub proof fn lemma_sort_by_key_sorted<T>(s: Seq<T>, key: spec_fn(T) -> Seq<char>, descending: bool)
    ensures
        sorted_by_key(sort_by_key(s, key, descending), key, descending),
        sort_by_key(s, key, descending).len() == s.len(),
    decreases s.len(),
{
    if s.len() > 0 {
        let rest = sort_by_key(s.drop_last(), key, descending);
        lemma_sort_by_key_sorted(s.drop_last(), key, descending);
        let x = s.last();
        let k = insert_index(rest, x, key, descending) as int;
        lemma_insert_index(rest, x, key, descending);
        let r = rest.insert(k, x);
        rest.insert_ensures(k, x);
        assert forall|i: int, j: int| 0 <= i < j < r.len() implies !goes_before(
            #[trigger] key(r[j]),
            #[trigger] key(r[i]),
            descending,
        ) by {
            if j < k {
                assert(r[i] == rest[i] && r[j] == rest[j]);
            } else if j == k {
                assert(r[i] == rest[i]);
            } else if i < k {
                assert(r[i] == rest[i] && r[j] == rest[j - 1]);
            } else if i == k {
                assert(r[j] == rest[j - 1]);
                if j - 1 > k {
                    assert(!goes_before(key(rest[j - 1]), key(rest[k]), descending));
                } else {
                    lemma_lex_reflexive(key(rest[k]));
                }
                lemma_goes_before_chain(key(x), key(rest[k]), key(rest[j - 1]), descending);
            } else {
                assert(r[i] == rest[i - 1] && r[j] == rest[j - 1]);
            }
        }
    }
}

/// Law: the stable sort keeps exactly the elements it is given.
pub proof fn lemma_sort_by_key_permutes<T>(s: Seq<T>, key: spec_fn(T) -> Seq<char>, descending: bool)
    ensures
        sort_by_key(s, key, descending).to_multiset() == s.to_multiset(),
    decreases s.len(),
{
    if s.len() > 0 {
        let rest = sort_by_key(s.drop_last(), key, descending);
        lemma_sort_by_key_permutes(s.drop_last(), key, descending);
        lemma_insert_index(rest, s.last(), key, descending);
        to_multiset_insert(rest, insert_index(rest, s.last(), key, descending) as int, s.last());
        to_multiset_build(s.drop_last(), s.last());
        assert(s.drop_last().push(s.last()) =~= s);
    }
}

/// The elements of `s` whose key is `k`, in order.
pub open spec fn with_key<T>(s: Seq<T>, key: spec_fn(T) -> Seq<char>, k: Seq<char>) -> Seq<T> {
    s.filter(has_key(key, k))
}

/// The test for the key `k`.
pub open spec fn has_key<T>(key: spec_fn(T) -> Seq<char>, k: Seq<char>) -> spec_fn(T) -> bool {
    |x: T| key(x) == k
}

/// Inserting at `p` an element before which nothing passes the filter
/// after `p`: the filter of the result is that of the original, with the
/// element appended when it passes.
proof fn lemma_filter_insert<T>(t: Seq<T>, p: int, x: T, pred: spec_fn(T) -> bool)
    requires
        0 <= p <= t.len(),
        forall|m: int| p <= m < t.len() ==> !pred(#[trigger] t[m]),
    ensures
        t.insert(p, x).filter(pred) == if pred(x) {
            t.filter(pred).push(x)
        } else {
            t.filter(pred)
        },
{
    reveal(Seq::filter);
    let a = t.subrange(0, p);
    let b = t.subrange(p, t.len() as int);
    assert(t =~= a + b);
    assert(t.insert(p, x) =~= a.push(x) + b);
    Seq::filter_distributes_over_add(a, b, pred);
    Seq::filter_distributes_over_add(a.push(x), b, pred);
    assert(b.filter(pred).len() == 0) by {
        assert(b.all(|y: T| !pred(y))) by {
            assert forall|m: int| 0 <= m < b.len() implies !pred(#[trigger] b[m]) by {
                assert(b[m] == t[p + m]);
            }
        }
        b.lemma_all_neg_filter_empty(pred);
    }
    assert(b.filter(pred) =~= Seq::<T>::empty());
    assert(a.push(x).drop_last() =~= a);
    assert(a.filter(pred) + Seq::<T>::empty() =~= a.filter(pred));
    assert(a.push(x).filter(pred) + Seq::<T>::empty() =~= a.push(x).filter(pred));
}

/// Inserting an element that fails the filter leaves the filter unchanged.
proof fn lemma_filter_insert_failing<T>(t: Seq<T>, p: int, x: T, pred: spec_fn(T) -> bool)
    requires
        0 <= p <= t.len(),
        !pred(x),
    ensures
        t.insert(p, x).filter(pred) == t.filter(pred),
{
    reveal(Seq::filter);
    let a = t.subrange(0, p);
    let b = t.subrange(p, t.len() as int);
    assert(t =~= a + b);
    assert(t.insert(p, x) =~= a.push(x) + b);
    Seq::filter_distributes_over_add(a, b, pred);
    Seq::filter_distributes_over_add(a.push(x), b, pred);
    assert(a.push(x).drop_last() =~= a);
}

/// Law: the sort is stable: the elements sharing a key keep their order.
pub proof fn lemma_sort_by_key_stable<T>(
    s: Seq<T>,
    key: spec_fn(T) -> Seq<char>,
    descending: bool,
    k: Seq<char>,
)
    ensures
        with_key(sort_by_key(s, key, descending), key, k) == with_key(s, key, k),
    decreases s.len(),
{
    reveal(Seq::filter);
    let pred = has_key(key, k);
    if s.len() > 0 {
        let t = sort_by_key(s.drop_last(), key, descending);
        let x = s.last();
        lemma_sort_by_key_stable(s.drop_last(), key, descending, k);
        lemma_sort_by_key_sorted(s.drop_last(), key, descending);
        lemma_insert_index(t, x, key, descending);
        let p = insert_index(t, x, key, descending) as int;
        if key(x) == k {
            assert forall|m: int| p <= m < t.len() implies !pred(#[trigger] t[m]) by {
                lemma_lex_reflexive(key(t[p]));
                lemma_lex_reflexive(key(x));
                if m > p {
                    assert(!goes_before(key(t[m]), key(t[p]), descending));
                }
            }
            lemma_filter_insert(t, p, x, pred);
        } else {
            lemma_filter_insert_failing(t, p, x, pred);
        }
        assert(s.filter(pred) == if pred(x) {
            s.drop_last().filter(pred).push(x)
        } else {
            s.drop_last().filter(pred)
        });
    }
}

/// The views of a vector's elements.
pub open spec fn seq_views<T: View>(s: Seq<T>) -> Seq<T::V> {
    s.map_values(|t: T| t@)
}

/// `goes_before` on character vectors.
fn goes_before_exec(x: &Vec<char>, y: &Vec<char>, descending: bool) -> (r: bool)
    ensures
        r == goes_before(x@, y@, descending),
{
    if descending {
        !lex_le_chars(x, y)
    } else {
        !lex_le_chars(y, x)
    }
}

/// Sorts `items` stably by the text keys `keys` (`keys[i]` is the key of
/// `items[i]`), ascending or descending.
pub fn sort_items_by_key<T: View>(
    items: Vec<T>,
    keys: Vec<Vec<char>>,
    Ghost(key): Ghost<spec_fn(T::V) -> Seq<char>>,
    descending: bool,
) -> (r: Vec<T>)
    requires
        items@.len() == keys@.len(),
        forall|i: int| 0 <= i < items@.len() ==> #[trigger] keys@[i]@ == key(items@[i]@),
    ensures
        seq_views(r@) == sort_by_key(seq_views(items@), key, descending),
{
    let ghost input = seq_views(items@);
    let ghost n = items@.len();
    // Reverse both vectors so that popping yields the input order.
    let mut items = items;
    let mut keys = keys;
    let mut rev_items: Vec<T> = Vec::new();
    let mut rev_keys: Vec<Vec<char>> = Vec::new();
    while items.len() > 0
        invariant
            items@.len() == keys@.len(),
            items@.len() + rev_items@.len() == n,
            rev_items@.len() == rev_keys@.len(),
            n == input.len(),
            forall|i: int| 0 <= i < items@.len() ==> #[trigger] items@[i]@ == input[i],
            forall|i: int|
                0 <= i < rev_items@.len() ==> #[trigger] rev_items@[i]@ == input[n - 1 - i],
            forall|i: int| 0 <= i < items@.len() ==> #[trigger] keys@[i]@ == key(input[i]),
            forall|i: int|
                0 <= i < rev_keys@.len() ==> #[trigger] rev_keys@[i]@ == key(input[n - 1 - i]),
        decreases items@.len(),
    {
        let t = items.pop().unwrap();
        let k = keys.pop().unwrap();
        rev_items.push(t);
        rev_keys.push(k);
    }
    let mut res: Vec<T> = Vec::new();
    let mut res_keys: Vec<Vec<char>> = Vec::new();
    proof {
        assert(seq_views(res@) =~= sort_by_key(input.take(0), key, descending));
    }
    while rev_items.len() > 0
        invariant
            rev_items@.len() == rev_keys@.len(),
            rev_items@.len() <= n,
            n == input.len(),
            forall|i: int|
                0 <= i < rev_items@.len() ==> #[trigger] rev_items@[i]@ == input[n - 1 - i],
            forall|i: int|
                0 <= i < rev_keys@.len() ==> #[trigger] rev_keys@[i]@ == key(input[n - 1 - i]),
            res@.len() == res_keys@.len(),
            seq_views(res@) == sort_by_key(input.take(n - rev_items@.len()), key, descending),
            forall|i: int| 0 <= i < res@.len() ==> #[trigger] res_keys@[i]@ == key(res@[i]@),
        decreases rev_items@.len(),
    {
        let ghost done = n - rev_items@.len();
        let ghost before = seq_views(res@);
        let x = rev_items.pop().unwrap();
        let kx = rev_keys.pop().unwrap();
        proof {
            assert(x@ == input[done]);
        }
        let mut j: usize = 0;
        let len = res.len();
        proof {
            assert(before.skip(0) =~= before);
            lemma_sort_by_key_sorted(input.take(done), key, descending);
        }
        while j < len && !goes_before_exec(&kx, &res_keys[j], descending)
            invariant
                j <= len,
                len == res@.len(),
                len == res_keys@.len(),
                before == seq_views(res@),
                kx@ == key(x@),
                forall|i: int| 0 <= i < res@.len() ==> #[trigger] res_keys@[i]@ == key(res@[i]@),
                insert_index(before, x@, key, descending) == j + insert_index(
                    before.skip(j as int),
                    x@,
                    key,
                    descending,
                ),
            decreases len - j,
        {
            proof {
                assert(before.skip(j as int).drop_first() =~= before.skip(j + 1));
                assert(before.skip(j as int)[0] == res@[j as int]@);
            }
            j += 1;
        }
        proof {
            if j < len {
                assert(before.skip(j as int)[0] == res@[j as int]@);
            }
            assert(insert_index(before, x@, key, descending) == j);
            assert(input.take(done + 1).drop_last() =~= input.take(done));
            assert(input.take(done + 1).last() == x@);
        }
        let ghost res_before = res@;
        let ghost keys_before = res_keys@;
        res.insert(j, x);
        res_keys.insert(j, kx);
        proof {
            assert(seq_views(res@) =~= before.insert(j as int, x@));
            assert forall|i: int| 0 <= i < res@.len() implies #[trigger] res_keys@[i]@ == key(
                res@[i]@,
            ) by {
                if i > j {
                    assert(res@[i] == res_before[i - 1]);
                    assert(res_keys@[i] == keys_before[i - 1]);
                } else if i < j {
                    assert(res@[i] == res_before[i]);
                    assert(res_keys@[i] == keys_before[i]);
                }
            }
        }
    }
    proof {
        assert(input.take(n as int) =~= input);
    }
    res
}

} // verus!
