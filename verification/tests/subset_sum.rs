use tiny_player::subset_sum::is_sub_set_sum_recursion;

#[test]
fn is_sub_set_sum_test_sub_set_sum() {
    // 3, 34, 4, 12, 5, 2 sum 9
    // 1, 2, 3 sum 6
    // 5 ,10 ,12 ,13 ,15 ,18  sum 30
    // 4,8,5 sum 9
    let arr = vec![5, 10, 12, 13, 15, 18];
    let sum = 30;
    let mut ans_arr = vec![];
    let result =
        is_sub_set_sum_recursion(&arr, &sum, &mut ans_arr, arr.iter().sum::<i32>(), 0, 0);
    println!("result:{},chose indices{:?}", result, ans_arr);
    assert!(result);
    assert_eq!(ans_arr, vec![0, 1, 4]);
}

#[test]
fn test_test_sub_set_sum() {
    // 3, 34, 4, 12, 5, 2 sum 9
    // 1, 2, 3 sum 6
    // 5 ,10 ,12 ,13 ,15 ,18  sum 30
    // 4,8,5 sum 9
    // 267, 493, 869, 112, 367, 984, 145, 723, 555, 802, 212, 996, 703, 810, 412 sum 3680
    // 102, 205, 307, 403, 502, 608, 701, 809, 904, 1006, 1103, 1205, 1307, 1403, 1502 s 5001 false
    // 100, 99, 98, 97, 96, 95, 20, 19, 18, 17, 16, 15, 5, 4, 3, 2, 1 sum 350
    // 200, 200, 200, 200, 200, 1, 1, 1, 1, 1 sum 700 false
}

#[test]
fn subset_sum_reports_no_solution_and_keeps_answer() {
    let arr = vec![200, 200, 200, 200, 200, 1, 1, 1, 1, 1];
    let sum = 700;
    let mut ans_arr = vec![42];
    let total = arr.iter().sum::<i32>();
    assert!(!is_sub_set_sum_recursion(&arr, &sum, &mut ans_arr, total, 0, 0));
    assert_eq!(ans_arr, vec![42]);
}

#[test]
fn subset_sum_small_cases() {
    let arr = vec![3, 34, 4, 12, 5, 2];
    let mut ans = vec![];
    assert!(is_sub_set_sum_recursion(&arr, &9, &mut ans, arr.iter().sum::<i32>(), 0, 0));
    let picked: i32 = ans.iter().map(|&i| arr[i]).sum();
    assert_eq!(picked, 9);
    let arr = vec![1, 2, 3];
    let mut ans = vec![];
    assert!(is_sub_set_sum_recursion(&arr, &6, &mut ans, 6, 0, 0));
    assert_eq!(ans, vec![0, 1, 2]);
    let mut ans = vec![];
    assert!(is_sub_set_sum_recursion(&arr, &0, &mut ans, 6, 0, 0));
    assert!(ans.is_empty());
}
