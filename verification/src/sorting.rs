//! In-place sorting of `i32` slices: a quicksort with a median-of-three pivot
//! and a three-way partition, and a Shell sort with Tokuda's gap sequence.
use vstd::prelude::*;
use vstd::multiset::Multiset;
use vstd::arithmetic::power::{pow, lemma_pow_increases};

verus! {

broadcast use vstd::seq_lib::group_to_multiset_ensures;

/// The elements appear in non-decreasing order.
pub open spec fn sorted(s: Seq<i32>) -> bool {
    forall|i: int, j: int| 0 <= i <= j < s.len() ==> s[i] <= s[j]
}

/// `s` holds exactly the elements of `t`, counted with multiplicity.
pub open spec fn same_elements(s: Seq<i32>, t: Seq<i32>) -> bool {
    s.to_multiset() == t.to_multiset()
}

/// The position among `i`, `j`, `k` that `compute_medium` picks: the one whose value
/// lies between the other two, ties broken as the comparisons fall.
pub open spec fn median_index(s: Seq<i32>, i: usize, j: usize, k: usize) -> usize {
    let (a, b, c) = (s[i as int], s[j as int], s[k as int]);
    if a > b {
        if b > c { j } else if a > c { k } else { i }
    } else if a > c {
        i
    } else if b > c {
        k
    } else {
        j
    }
}

/// `v` is a median of `a`, `b`, `c`: at least two of them are not above it and at least
/// two are not below it.
pub open spec fn is_median_of(v: i32, a: i32, b: i32, c: i32) -> bool {
    &&& (if a <= v { 1int } else { 0 }) + (if b <= v { 1int } else { 0 }) + (if c <= v { 1int } else { 0 }) >= 2
    &&& (if a >= v { 1int } else { 0 }) + (if b >= v { 1int } else { 0 }) + (if c >= v { 1int } else { 0 }) >= 2
}

/// Swapping two positions of a sequence keeps its elements.
pub proof fn lemma_swap_same_elements(s: Seq<i32>, i: int, j: int)
    requires
        0 <= i < s.len(),
        0 <= j < s.len(),
    ensures
        same_elements(s.update(i, s[j]).update(j, s[i]), s),
{
    broadcast use vstd::multiset::group_multiset_axioms;

    let t = s.update(i, s[j]);
    if i == j {
        assert(t.update(j, s[i]) =~= s);
    } else {
        let m = s.to_multiset();
        assert(t.to_multiset() == m.insert(s[j]).remove(s[i]));
        assert(t[j] == s[j]);
        assert(t.update(j, s[i]).to_multiset() == t.to_multiset().insert(s[i]).remove(s[j]));
        assert(m.count(s[i]) > 0);
        assert(m.insert(s[j]).remove(s[i]).insert(s[i]).remove(s[j]) =~= m);
    }
}

/// Every element of a sequence with the same elements as `t` is an element of `t`.
pub proof fn lemma_same_elements_contains(s: Seq<i32>, t: Seq<i32>, x: i32)
    requires
        same_elements(s, t),
        s.contains(x),
    ensures
        t.contains(x),
{
    assert(s.to_multiset().count(x) > 0);
}

/// Putting the sorted smaller elements before a run of pivots and the sorted larger
/// elements after it yields a sorted arrangement of the same elements.
pub proof fn lemma_partition_sorted(
    a: Seq<i32>,
    e: Seq<i32>,
    b: Seq<i32>,
    a2: Seq<i32>,
    b2: Seq<i32>,
    p: i32,
)
    requires
        forall|k: int| 0 <= k < a.len() ==> a[k] < p,
        forall|k: int| 0 <= k < e.len() ==> e[k] == p,
        forall|k: int| 0 <= k < b.len() ==> b[k] > p,
        sorted(a2),
        sorted(b2),
        same_elements(a2, a),
        same_elements(b2, b),
    ensures
        sorted(a2 + (e + b2)),
        same_elements(a2 + (e + b2), a + (e + b)),
{
    assert forall|x: i32| a2.contains(x) implies x < p by {
        lemma_same_elements_contains(a2, a, x);
    }
    assert forall|x: i32| b2.contains(x) implies x > p by {
        lemma_same_elements_contains(b2, b, x);
    }
    let s = a2 + (e + b2);
    assert forall|i: int, j: int| 0 <= i <= j < s.len() implies s[i] <= s[j] by {
        if i < a2.len() {
            assert(a2.contains(a2[i]));
        }
        if j >= a2.len() + e.len() {
            assert(b2.contains(b2[j - a2.len() - e.len()]));
        }
    }
    vstd::seq_lib::lemma_multiset_commutative(e, b2);
    vstd::seq_lib::lemma_multiset_commutative(e, b);
    vstd::seq_lib::lemma_multiset_commutative(a2, e + b2);
    vstd::seq_lib::lemma_multiset_commutative(a, e + b);
}

/// Exchanges the elements at positions `i` and `j`.
fn swap_at(arr: &mut [i32], i: usize, j: usize)
    requires
        i < old(arr)@.len(),
        j < old(arr)@.len(),
    ensures
        final(arr)@ == old(arr)@.update(i as int, old(arr)@[j as int]).update(
            j as int,
            old(arr)@[i as int],
        ),
{
    let t = arr[i];
    let u = arr[j];
    arr[i] = u;
    arr[j] = t;
}

/// Returns whichever of the positions `i`, `j`, `k` holds the median of the three values.
pub fn compute_medium(arr: &[i32], i: &usize, j: &usize, k: &usize) -> (r: usize)
    requires
        *i < arr@.len(),
        *j < arr@.len(),
        *k < arr@.len(),
    ensures
        r == median_index(arr@, *i, *j, *k),
        r == *i || r == *j || r == *k,
        is_median_of(arr@[r as int], arr@[*i as int], arr@[*j as int], arr@[*k as int]),
{
    let a = arr[*i];
    let b = arr[*j];
    let c = arr[*k];
    if a > b {
        if b > c {
            *j
        } else if a > c {
            *k
        } else {
            *i
        }
    } else if a > c {
        *i
    } else if b > c {
        *k
    } else {
        *j
    }
}

/// Sorts the slice in place into non-decreasing order.
pub fn quick_sort(arr: &mut [i32])
    ensures
        sorted(final(arr)@),
        same_elements(final(arr)@, old(arr)@),
    decreases old(arr)@.len(),
{
    if arr.len() < 2 {
        return;
    }
    let ghost orig = arr@;
    let first: usize = 0;
    let mid: usize = arr.len() / 2;
    let last: usize = arr.len() - 1;
    let pivot = compute_medium(arr, &first, &mid, &last);
    proof {
        lemma_swap_same_elements(arr@, last as int, pivot as int);
    }
    swap_at(arr, last, pivot);
    let p = arr[last];
    let ghost n = arr@.len();
    let mut left_index: usize = 0;
    let mut idx: usize = 0;
    let mut right_index: usize = last - 1;
    loop
        invariant_except_break
            idx <= right_index + 1,
            right_index < last,
        invariant
            arr@.len() == n,
            n == last + 1,
            arr@[last as int] == p,
            same_elements(arr@, orig),
            left_index <= idx <= last,
            forall|k: int| 0 <= k < left_index ==> arr@[k] < p,
            forall|k: int| left_index <= k < idx ==> arr@[k] == p,
            forall|k: int| right_index < k < last ==> arr@[k] > p,
        ensures
            arr@.len() == n,
            arr@[last as int] == p,
            same_elements(arr@, orig),
            left_index <= idx <= last,
            forall|k: int| 0 <= k < left_index ==> arr@[k] < p,
            forall|k: int| left_index <= k < idx ==> arr@[k] == p,
            forall|k: int| idx <= k < last ==> arr@[k] > p,
        decreases 2 * (right_index + 1 - idx) + (idx - left_index),
    {
        if idx > right_index {
            break;
        }
        let cur = arr[idx];
        if cur > p {
            proof {
                lemma_swap_same_elements(arr@, idx as int, right_index as int);
            }
            swap_at(arr, idx, right_index);
            if right_index == 0 {
                break;
            }
            right_index -= 1;
        } else if cur < p {
            proof {
                lemma_swap_same_elements(arr@, idx as int, left_index as int);
            }
            swap_at(arr, idx, left_index);
            left_index += 1;
            if idx < left_index {
                idx += 1;
            }
        } else {
            idx += 1;
        }
    }
    proof {
        lemma_swap_same_elements(arr@, idx as int, last as int);
    }
    swap_at(arr, idx, last);
    assert(forall|k: int| idx < k < n ==> arr@[k] > p);
    assert(forall|k: int| left_index <= k <= idx ==> arr@[k] == p);
    let ghost mid_seq = arr@;
    let (lt, egt) = arr.split_at_mut(left_index);
    let (e, gt) = egt.split_at_mut(idx + 1 - lt.len());
    let ghost lt0 = lt@;
    let ghost gt0 = gt@;
    let ghost e0 = e@;
    proof {
        assert(mid_seq =~= lt0 + (e0 + gt0));
        assert forall|k: int| 0 <= k < e0.len() implies e0[k] == p by {
            assert(e0[k] == mid_seq[left_index + k]);
        }
        assert forall|k: int| 0 <= k < gt0.len() implies gt0[k] > p by {
            assert(gt0[k] == mid_seq[idx + 1 + k]);
        }
    }
    quick_sort(lt);
    quick_sort(gt);
    proof {
        lemma_partition_sorted(lt0, e0, gt0, lt@, gt@, p);
    }
}

} // verus!

verus! {

/// The `k`-th gap of Tokuda's sequence, `(9^k - 4^k) / (5 * 4^(k-1))` for `k >= 1`
/// (1, 3, 8, 19, 45, ...).
pub open spec fn tokuda_gap(k: nat) -> int {
    (pow(9, k) - pow(4, k)) / (5 * pow(4, (k - 1) as nat))
}

/// Tokuda gaps from the `k`-th on, in increasing order, up to the last one that does not
/// exceed `n` (the sequence is cut at the twentieth gap, whose computation leaves `i64`).
pub open spec fn gaps_from(k: nat, n: int) -> Seq<int>
    decreases 20 - k,
{
    if k >= 20 || tokuda_gap(k) > n {
        Seq::empty()
    } else {
        seq![tokuda_gap(k)] + gaps_from(k + 1, n)
    }
}

/// The largest length that `shell_sort` accepts: with longer slices the computation of
/// the twentieth Tokuda gap overflows `i64`.
pub open spec fn shell_sort_max_len() -> int {
    tokuda_gap(19) - 1
}

/// The elements at positions `lo..hi` appear in non-decreasing order.
pub open spec fn sorted_between(s: Seq<i32>, lo: int, hi: int) -> bool {
    forall|a: int, b: int| lo <= a <= b < hi ==> s[a] <= s[b]
}

} // verus!

verus! {

/// Nine to a power is never below four to the same power.
pub proof fn lemma_pow9_ge_pow4(k: nat)
    ensures
        pow(9, k) >= pow(4, k),
        pow(4, k) >= 1,
    decreases k,
{
    reveal(pow);
    if k > 0 {
        lemma_pow9_ge_pow4((k - 1) as nat);
    }
}

/// One pass of Shell sort with the given gap: each element from position `gap` on is moved
/// back in steps of `gap` while the element `gap` before it is larger (an insertion sort of
/// every gap-spaced subsequence). With gap 1 this is an insertion sort of the whole slice.
fn gapped_insertion_pass(arr: &mut [i32], gap: usize)
    requires
        gap >= 1,
    ensures
        final(arr)@.len() == old(arr)@.len(),
        same_elements(final(arr)@, old(arr)@),
        gap == 1 ==> sorted(final(arr)@),
{
    let ghost s0 = arr@;
    let n = arr.len();
    let mut i: usize = gap;
    while i < n
        invariant
            gap >= 1,
            n == arr@.len(),
            n == s0.len(),
            gap <= i || n <= i,
            same_elements(arr@, s0),
            gap == 1 ==> sorted_between(arr@, 0, if i <= n { i as int } else { n as int }),
        decreases n - i,
    {
        let mut j: usize = i;
        while j >= gap && arr[j - gap] > arr[j]
            invariant
                gap >= 1,
                i < n,
                n == arr@.len(),
                n == s0.len(),
                j <= i,
                same_elements(arr@, s0),
                gap == 1 ==> {
                    &&& sorted_between(arr@, 0, j as int)
                    &&& sorted_between(arr@, j + 1, i + 1)
                    &&& forall|a: int, b: int| 0 <= a < j < b <= i ==> arr@[a] <= arr@[b]
                    &&& forall|b: int| j < b <= i ==> arr@[j as int] < arr@[b]
                },
            decreases j,
        {
            proof {
                lemma_swap_same_elements(arr@, (j - gap) as int, j as int);
            }
            swap_at(arr, j - gap, j);
            j = j - gap;
        }
        proof {
            if gap == 1 {
                assert forall|a: int, b: int| 0 <= a <= b < i + 1 implies arr@[a] <= arr@[b] by {
                    if a < j && b == j {
                        assert(arr@[a] <= arr@[j - 1]);
                    }
                }
            }
        }
        i += 1;
    }
}

/// Shell sort with Tokuda's gap sequence: a gapped insertion pass for each gap not larger
/// than the length, largest gap first; the last pass, with gap 1, sorts the slice.
pub fn shell_sort(arr: &mut [i32])
    requires
        old(arr)@.len() <= shell_sort_max_len(),
    ensures
        sorted(final(arr)@),
        same_elements(final(arr)@, old(arr)@),
{
    let ghost s0 = arr@;
    let n = arr.len();
    proof {
        reveal_with_fuel(pow, 21);
        assert(pow(9, 19) == 1350851717672992089);
        assert(pow(4, 18) == 68719476736);
        assert(pow(4, 19) == 274877906944);
        assert(5 * pow(4, 18) == 343597383680);
        assert(pow(9, 19) - pow(4, 19) == 1350851442795085145);
        assert(1350851442795085145int / 343597383680int == 3931495) by (nonlinear_arith);
        assert(tokuda_gap(19) == 3931495);
        assert(pow(9, 1) == 9);
        assert(pow(4, 0) == 1);
    }
    // Tokuda's gap sequence, increasing.
    let mut gaps: Vec<usize> = Vec::new();
    let mut k: u32 = 1;
    let mut p9: i64 = 9;
    let mut p4prev: i64 = 1;
    loop
        invariant_except_break
            1 <= k <= 19,
            p9 == pow(9, k as nat),
            p4prev == pow(4, (k - 1) as nat),
            gaps@.map_values(|g: usize| g as int) + gaps_from(k as nat, n as int) == gaps_from(
                1,
                n as int,
            ),
            gaps@.len() == k - 1,
        invariant
            forall|t: int| 0 <= t < gaps@.len() ==> gaps@[t] >= 1,
            gaps@.len() > 0 ==> gaps@[0] == 1,
            n == arr@.len(),
            n <= shell_sort_max_len(),
            tokuda_gap(19) == 3931495,
            pow(9, 19) == 1350851717672992089,
            pow(4, 19) == 274877906944,
            forall|t: int| 0 <= t < gaps@.len() ==> gaps@[t] <= n,
        ensures
            gaps@.map_values(|g: usize| g as int) == gaps_from(1, n as int),
            gaps@.len() == 0 ==> n == 0,
        decreases 19 - k,
    {
        proof {
            reveal(pow);
            lemma_pow_increases(9, k as nat, 19);
            lemma_pow_increases(4, k as nat, 19);
            lemma_pow9_ge_pow4(k as nat);
            lemma_pow9_ge_pow4((k - 1) as nat);
        }
        let p4 = p4prev * 4;
        let num = p9 - p4;
        let den = 5 * p4prev;
        let gap = num / den;
        proof {
            assert(gap == tokuda_gap(k as nat));
            assert(pow(9, k as nat) == 9 * pow(9, (k - 1) as nat));
            assert(p9 >= 9 * p4prev) by (nonlinear_arith)
                requires
                    p9 == 9 * pow(9, (k - 1) as nat),
                    pow(9, (k - 1) as nat) >= pow(4, (k - 1) as nat),
                    p4prev == pow(4, (k - 1) as nat),
            ;
            assert(gap >= 1) by (nonlinear_arith)
                requires
                    num == p9 - 4 * p4prev,
                    den == 5 * p4prev,
                    p4prev >= 1,
                    p9 >= 9 * p4prev,
                    gap == num / den,
            ;
            if k == 1 {
                assert(gap == 1) by (nonlinear_arith)
                    requires
                        p9 == 9,
                        p4prev == 1,
                        num == p9 - 4 * p4prev,
                        den == 5 * p4prev,
                        gap == num / den,
                ;
            }
        }
        if gap > n as i64 {
            proof {
                assert(gaps_from(k as nat, n as int) =~= Seq::<int>::empty());
                assert(gaps@.map_values(|g: usize| g as int) + Seq::<int>::empty() =~= gaps@.map_values(
                    |g: usize| g as int,
                ));
            }
            break;
        }
        let ghost before = gaps@;
        gaps.push(gap as usize);
        proof {
            assert(gaps@.map_values(|g: usize| g as int) =~= before.map_values(|g: usize| g as int)
                + seq![tokuda_gap(k as nat)]);
            assert(gaps_from(k as nat, n as int) == seq![tokuda_gap(k as nat)] + gaps_from(
                (k + 1) as nat,
                n as int,
            ));
            vstd::seq_lib::lemma_concat_associative(
                before.map_values(|g: usize| g as int),
                seq![tokuda_gap(k as nat)],
                gaps_from((k + 1) as nat, n as int),
            );
        }
        proof {
            if k >= 19 {
                assert(false);
            }
            lemma_pow_increases(9, (k + 1) as nat, 19);
            assert(pow(9, (k + 1) as nat) == 9 * pow(9, k as nat));
            assert(pow(4, k as nat) == 4 * pow(4, (k - 1) as nat));
        }
        k = k + 1;
        p9 = p9 * 9;
        p4prev = p4;
    }
    let mut gi: usize = gaps.len();
    if gi == 0 {
        assert(sorted(arr@));
    }
    while gi > 0
        invariant
            gi <= gaps@.len(),
            n == arr@.len(),
            forall|t: int| 0 <= t < gaps@.len() ==> gaps@[t] >= 1,
            gaps@.len() > 0 ==> gaps@[0] == 1,
            same_elements(arr@, s0),
            gi == 0 ==> sorted(arr@),
        decreases gi,
    {
        let gap = gaps[gi - 1];
        gapped_insertion_pass(arr, gap);
        gi -= 1;
    }
}

} // verus!
