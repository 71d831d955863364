//! Subset-sum search by backtracking with pruning.
use vstd::prelude::*;

verus! {

/// `x` is representable as an `i32`.
pub open spec fn fits_i32(x: int) -> bool {
    i32::MIN <= x <= i32::MAX
}

/// What the search returns when started at `index` with the running sum `temp` and the
/// sum `left` of the elements not yet considered: `Some(chosen)` when it succeeds, with
/// the indices it picked in order, `None` when it gives up. It stops when the running sum
/// passes the target, succeeds when it meets it, and gives up when no element is left or
/// when even all the remaining elements cannot reach the target; otherwise it first tries
/// to take the element at `index` and, if that fails, to skip it.
pub open spec fn subset_search(arr: Seq<i32>, sum: int, left: int, temp: int, index: int) -> Option<
    Seq<usize>,
>
    decreases arr.len() - index,
{
    if temp > sum {
        None
    } else if temp == sum {
        Some(Seq::empty())
    } else if index >= arr.len() || index < 0 {
        None
    } else if temp + left < sum {
        None
    } else {
        match subset_search(arr, sum, left - arr[index], temp + arr[index], index + 1) {
            Some(chosen) => Some(seq![index as usize] + chosen),
            None => subset_search(arr, sum, left - arr[index], temp, index + 1),
        }
    }
}

/// Every `i32` sum that the search computes on its way stays within `i32` (the
/// search overflows, and so panics, on exactly the other inputs).
pub open spec fn subset_search_fits(arr: Seq<i32>, sum: int, left: int, temp: int, index: int) -> bool
    decreases arr.len() - index,
{
    if temp > sum || temp == sum || index >= arr.len() || index < 0 {
        true
    } else {
        &&& fits_i32(temp + left)
        &&& (temp + left < sum || {
            &&& fits_i32(left - arr[index])
            &&& fits_i32(temp + arr[index])
            &&& subset_search_fits(arr, sum, left - arr[index], temp + arr[index], index + 1)
            &&& (subset_search(arr, sum, left - arr[index], temp + arr[index], index + 1) is Some
                || subset_search_fits(arr, sum, left - arr[index], temp, index + 1))
        })
    }
}

/// Searches `arr[index..]` for elements that, added to `temp_sum`, make exactly `sum`;
/// on success the indices of the elements taken are appended to `ans_arr` in increasing
/// order, on failure `ans_arr` is left as it was.
pub fn is_sub_set_sum_recursion(
    arr: &[i32],
    sum: &i32,
    ans_arr: &mut Vec<usize>,
    left_elements_sum: i32,
    temp_sum: i32,
    index: usize,
) -> (r: bool)
    requires
        subset_search_fits(arr@, *sum as int, left_elements_sum as int, temp_sum as int, index as int),
    ensures
        r == subset_search(arr@, *sum as int, left_elements_sum as int, temp_sum as int, index as int) is Some,
        final(ans_arr)@ == match subset_search(
            arr@,
            *sum as int,
            left_elements_sum as int,
            temp_sum as int,
            index as int,
        ) {
            Some(chosen) => old(ans_arr)@ + chosen,
            None => old(ans_arr)@,
        },
    decreases arr@.len() - index,
{
    if temp_sum > *sum {
        return false;
    }
    if temp_sum == *sum {
        assert(old(ans_arr)@ + Seq::<usize>::empty() =~= old(ans_arr)@);
        return true;
    }
    if index >= arr.len() {
        return false;
    }
    let upper_bound = temp_sum + left_elements_sum;
    if upper_bound < *sum {
        return false;
    }
    let ghost before = ans_arr@;
    ans_arr.push(index);
    let result_chose = is_sub_set_sum_recursion(
        arr,
        sum,
        ans_arr,
        left_elements_sum - arr[index],
        temp_sum + arr[index],
        index + 1,
    );
    if !result_chose {
        let last = ans_arr.len() - 1;
        ans_arr.remove(last);
        assert(ans_arr@ =~= before);
        let result_skip = is_sub_set_sum_recursion(
            arr,
            sum,
            ans_arr,
            left_elements_sum - arr[index],
            temp_sum,
            index + 1,
        );
        return result_skip;
    }
    proof {
        let chosen = subset_search(
            arr@,
            *sum as int,
            left_elements_sum - arr@[index as int],
            temp_sum + arr@[index as int],
            index + 1,
        )->Some_0;
        assert(before.push(index) + chosen =~= before + (seq![index] + chosen));
    }
    result_chose
}

} // verus!

verus! {

/// The sum of the elements of `arr` from `index` to the end.
pub open spec fn sum_from(arr: Seq<i32>, index: int) -> int
    decreases arr.len() - index,
{
    if index < 0 || index >= arr.len() {
        0
    } else {
        arr[index] + sum_from(arr, index + 1)
    }
}

/// The sum of the elements of `arr` at the positions `chosen`.
pub open spec fn total(arr: Seq<i32>, chosen: Seq<usize>) -> int
    decreases chosen.len(),
{
    if chosen.len() == 0 {
        0
    } else {
        arr[chosen[0] as int] + total(arr, chosen.drop_first())
    }
}

/// `chosen` lists distinct positions of `arr` at or after `index`, in increasing order.
pub open spec fn valid_choice(arr: Seq<i32>, index: int, chosen: Seq<usize>) -> bool {
    &&& forall|i: int| 0 <= i < chosen.len() ==> index <= #[trigger] chosen[i] < arr.len()
    &&& forall|i: int, j: int| 0 <= i < j < chosen.len() ==> chosen[i] < chosen[j]
}

/// The elements from `index` on are not negative.
pub open spec fn nonnegative_from(arr: Seq<i32>, index: int) -> bool {
    forall|i: int| index <= i < arr.len() ==> arr[i] >= 0
}

/// Some choice of elements from `index` on, added to `temp`, makes exactly `sum`.
pub open spec fn has_subset_sum(arr: Seq<i32>, sum: int, temp: int, index: int) -> bool {
    exists|chosen: Seq<usize>| valid_choice(arr, index, chosen) && temp + total(arr, chosen) == sum
}

/// With non-negative elements, a valid choice sums to between zero and the suffix sum.
pub proof fn lemma_total_bounds(arr: Seq<i32>, index: int, chosen: Seq<usize>)
    requires
        0 <= index,
        nonnegative_from(arr, index),
        valid_choice(arr, index, chosen),
    ensures
        0 <= total(arr, chosen) <= sum_from(arr, index),
    decreases arr.len() - index,
{
    if index >= arr.len() {
        if chosen.len() > 0 {
            assert(index <= chosen[0] < arr.len());
        }
    } else if chosen.len() == 0 {
        lemma_sum_from_nonnegative(arr, index);
    } else if chosen[0] == index {
        let rest = chosen.drop_first();
        assert(valid_choice(arr, index + 1, rest)) by {
            assert forall|i: int| 0 <= i < rest.len() implies index + 1 <= #[trigger] rest[i] < arr.len() by {
                assert(chosen[0] < chosen[i + 1]);
            }
            assert forall|i: int, j: int| 0 <= i < j < rest.len() implies rest[i] < rest[j] by {
                assert(chosen[i + 1] < chosen[j + 1]);
            }
        }
        lemma_total_bounds(arr, index + 1, rest);
    } else {
        assert(valid_choice(arr, index + 1, chosen)) by {
            assert forall|i: int| 0 <= i < chosen.len() implies index + 1 <= #[trigger] chosen[i] by {
                if i > 0 {
                    assert(chosen[0] < chosen[i]);
                }
            }
        }
        lemma_total_bounds(arr, index + 1, chosen);
    }
}

/// With non-negative elements the suffix sum is not negative.
pub proof fn lemma_sum_from_nonnegative(arr: Seq<i32>, index: int)
    requires
        nonnegative_from(arr, index),
    ensures
        sum_from(arr, index) >= 0,
    decreases arr.len() - index,
{
    if 0 <= index < arr.len() {
        lemma_sum_from_nonnegative(arr, index + 1);
    }
}

/// What the search picks is a valid choice that meets the target.
pub proof fn lemma_search_sound(arr: Seq<i32>, sum: int, left: int, temp: int, index: int)
    requires
        0 <= index,
        arr.len() <= usize::MAX,
        subset_search(arr, sum, left, temp, index) is Some,
    ensures
        valid_choice(arr, index, subset_search(arr, sum, left, temp, index)->Some_0),
        temp + total(arr, subset_search(arr, sum, left, temp, index)->Some_0) == sum,
    decreases arr.len() - index,
{
    if temp > sum || temp == sum || index >= arr.len() || temp + left < sum {
    } else {
        let with = subset_search(arr, sum, left - arr[index], temp + arr[index], index + 1);
        match with {
            Some(c) => {
                lemma_search_sound(arr, sum, left - arr[index], temp + arr[index], index + 1);
                let all = seq![index as usize] + c;
                assert(all.drop_first() =~= c);
                assert(all[0] as int == index);
                assert(total(arr, all) == arr[index] + total(arr, c));
                assert forall|i: int| 0 <= i < all.len() implies index <= #[trigger] all[i] < arr.len() by {
                    if i > 0 {
                        assert(all[i] == c[i - 1]);
                    }
                }
                assert forall|i: int, j: int| 0 <= i < j < all.len() implies all[i] < all[j] by {
                    if i > 0 {
                        assert(all[i] == c[i - 1]);
                    }
                    assert(all[j] == c[j - 1]);
                }
            },
            None => {
                lemma_search_sound(arr, sum, left - arr[index], temp, index + 1);
            },
        }
    }
}

/// With non-negative elements and `left` the sum of the elements not yet considered, the
/// search succeeds whenever some choice meets the target.
pub proof fn lemma_search_complete(arr: Seq<i32>, sum: int, left: int, temp: int, index: int)
    requires
        0 <= index,
        nonnegative_from(arr, index),
        left == sum_from(arr, index),
        has_subset_sum(arr, sum, temp, index),
    ensures
        subset_search(arr, sum, left, temp, index) is Some,
    decreases arr.len() - index,
{
    let chosen = choose|chosen: Seq<usize>|
        valid_choice(arr, index, chosen) && temp + total(arr, chosen) == sum;
    lemma_total_bounds(arr, index, chosen);
    if temp == sum {
    } else if index >= arr.len() {
        if chosen.len() > 0 {
            assert(index <= chosen[0] < arr.len());
        }
    } else {
        let next_left = left - arr[index];
        assert(next_left == sum_from(arr, index + 1));
        if chosen.len() > 0 && chosen[0] == index {
            let rest = chosen.drop_first();
            assert(valid_choice(arr, index + 1, rest)) by {
                assert forall|i: int| 0 <= i < rest.len() implies index + 1 <= #[trigger] rest[i] < arr.len() by {
                    assert(chosen[0] < chosen[i + 1]);
                }
                assert forall|i: int, j: int| 0 <= i < j < rest.len() implies rest[i] < rest[j] by {
                    assert(chosen[i + 1] < chosen[j + 1]);
                }
            }
            assert(has_subset_sum(arr, sum, temp + arr[index], index + 1));
            lemma_search_complete(arr, sum, next_left, temp + arr[index], index + 1);
        } else {
            assert(valid_choice(arr, index + 1, chosen)) by {
                assert forall|i: int| 0 <= i < chosen.len() implies index + 1 <= #[trigger] chosen[i] by {
                    if i > 0 {
                        assert(chosen[0] < chosen[i]);
                    }
                }
            }
            assert(has_subset_sum(arr, sum, temp, index + 1));
            lemma_search_complete(arr, sum, next_left, temp, index + 1);
        }
    }
}

/// With non-negative elements, started with the sum of the elements from `index` on, the
/// search succeeds exactly when some elements from `index` on, added to `temp`, make
/// `sum`; and what it picks is such a choice.
pub proof fn lemma_search_decides_subset_sum(
    arr: Seq<i32>,
    sum: int,
    left: int,
    temp: int,
    index: int,
)
    requires
        0 <= index,
        arr.len() <= usize::MAX,
        nonnegative_from(arr, index),
        left == sum_from(arr, index),
    ensures
        subset_search(arr, sum, left, temp, index) is Some <==> has_subset_sum(arr, sum, temp, index),
        subset_search(arr, sum, left, temp, index) matches Some(chosen) ==> valid_choice(
            arr,
            index,
            chosen,
        ) && temp + total(arr, chosen) == sum,
{
    if has_subset_sum(arr, sum, temp, index) {
        lemma_search_complete(arr, sum, left, temp, index);
    }
    if subset_search(arr, sum, left, temp, index) is Some {
        lemma_search_sound(arr, sum, left, temp, index);
    }
}

} // verus!

verus! {

/// On non-negative elements, started with the sum of the elements not yet considered
/// and a non-negative running sum whose total with them fits in `i32`, the search never
/// overflows.
pub proof fn lemma_search_fits_nonnegative(arr: Seq<i32>, sum: int, left: int, temp: int, index: int)
    requires
        0 <= index,
        nonnegative_from(arr, index),
        left == sum_from(arr, index),
        0 <= temp,
        temp + left <= i32::MAX,
    ensures
        subset_search_fits(arr, sum, left, temp, index),
    decreases arr.len() - index,
{
    lemma_sum_from_nonnegative(arr, index);
    if temp > sum || temp == sum || index >= arr.len() {
    } else {
        lemma_sum_from_nonnegative(arr, index + 1);
        let a = arr[index] as int;
        lemma_search_fits_nonnegative(arr, sum, left - a, temp + a, index + 1);
        lemma_search_fits_nonnegative(arr, sum, left - a, temp, index + 1);
    }
}

} // verus!
