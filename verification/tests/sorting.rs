use tiny_player::sorting::{compute_medium, quick_sort, shell_sort};

fn is_sorted(arr: &[i32]) -> bool {
    arr.windows(2).all(|w| w[0] <= w[1])
}

fn sorted_copy(arr: &[i32]) -> Vec<i32> {
    let mut v = arr.to_vec();
    v.sort();
    v
}

#[test]
fn asyncmod_test_quick_sort() {
    let mut arr = [
        1236985745, 213, 213, -3069, 2000, 213, 569, 265, 231, 444, 578, 032, -136, 123, 589,
        987, 625, 301, 203, 10, 9999,
    ];
    let expected = sorted_copy(&arr);
    quick_sort(&mut arr);
    println!("{:?}", arr);
    assert_eq!(arr.to_vec(), expected);
}

#[test]
fn asyncmod_test_shell_sort() {
    let mut arr = [
        1236985745, 213, 213, -3069, 2000, 213, 569, 265, 231, 444, 578, 032, -136, 123, 589,
        987, 625, 301, 203, 10, 9999,
    ];
    let expected = sorted_copy(&arr);
    shell_sort(&mut arr);
    println!("{:?}", arr);
    assert_eq!(arr.to_vec(), expected);
}

#[test]
fn test_test_quick_sort() {
    let mut arr = [
        1236985745, 213, 213, -3069, 2000, 213, 569, 265, 231, 444, 578, 032, -136, 123, 589,
        987, 625, 301, 203, 10, 9999,
    ];
    quick_sort(&mut arr);
    println!("{:?}", arr);
    assert!(is_sorted(&arr));
}

#[test]
fn test_test_shell_sort() {
    let mut arr = [
        1236985745, 213, 213, -3069, 2000, 213, 569, 265, 231, 444, 578, 032, -136, 123, 589,
        987, 625, 301, 203, 10, 9999,
    ];
    shell_sort(&mut arr);
    println!("{:?}", arr);
    assert!(is_sorted(&arr));
}

#[test]
fn quick_sort_edge_cases() {
    let mut empty: [i32; 0] = [];
    quick_sort(&mut empty);
    let mut one = [7];
    quick_sort(&mut one);
    assert_eq!(one, [7]);
    let mut dups = [3, 3, 3, 1, 1, 2, 2, 3];
    quick_sort(&mut dups);
    assert_eq!(dups, [1, 1, 2, 2, 3, 3, 3, 3]);
    let mut desc = [5, 4, 3, 2, 1, 0, -1, i32::MIN, i32::MAX];
    quick_sort(&mut desc);
    assert_eq!(desc, [i32::MIN, -1, 0, 1, 2, 3, 4, 5, i32::MAX]);
}

#[test]
fn shell_sort_small_cases() {
    let mut arr = [1, 2, 0];
    shell_sort(&mut arr);
    assert_eq!(arr, [0, 1, 2]);
    let mut arr2 = [2, 1, 0, 3];
    shell_sort(&mut arr2);
    assert_eq!(arr2, [0, 1, 2, 3]);
    let mut empty: [i32; 0] = [];
    shell_sort(&mut empty);
    let mut one = [7];
    shell_sort(&mut one);
    assert_eq!(one, [7]);
}

#[test]
fn compute_medium_picks_the_middle_value() {
    let arr = [9, 1, 5];
    assert_eq!(compute_medium(&arr, &0, &1, &2), 2);
    let arr = [1, 9, 5];
    assert_eq!(compute_medium(&arr, &0, &1, &2), 2);
    let arr = [5, 5, 1];
    assert_eq!(arr[compute_medium(&arr, &0, &1, &2)], 5);
    let arr = [4, 4, 4];
    assert_eq!(compute_medium(&arr, &0, &1, &2), 1);
}

#[test]
fn shell_sort_sorts_and_keeps_the_elements() {
    let long: Vec<i32> = (0..500).map(|i| ((i * 7919) % 1009) as i32 - 500).collect();
    let inputs: [&[i32]; 6] = [
        &[1, 2, 0],
        &[9, -4, 7, 9, 3, 0],
        &[i32::MAX, i32::MIN, 0],
        &[5],
        &[3, 8, 1, 8, 2, 6, 4, 7, 0, 5, 9, 2, 1],
        &long,
    ];
    for input in inputs {
        let mut arr = input.to_vec();
        shell_sort(&mut arr);
        assert!(is_sorted(&arr));
        assert_eq!(arr, sorted_copy(input));
    }
}
