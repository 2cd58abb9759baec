use eratosthenes::array_manipulations::{array_clean, array_merge};
use eratosthenes::{common, factorizations, palindrome, summations};

#[test]
fn array_clean_test() {
    assert_eq!(array_clean(&vec![1, 2, 3, 5, 8, 13]), vec![1, 2, 3, 5, 8, 13]);
    assert_eq!(array_clean(&vec![0, 0, 0, 0]), vec![0]);
    assert_eq!(array_clean(&vec![9, 11, 20, 30, 1, 23]), vec![1, 9, 11, 20, 23, 30]);
}

#[test]
fn test_clean_array() {
    assert_eq!(array_clean(&vec![1, 2, 3, 5, 8, 13]), vec![1, 2, 3, 5, 8, 13]);
}

#[test]
fn array_clean_sorts_and_dedups() {
    assert_eq!(array_clean(&vec![5, 2, 7, 2, 4, 5]), vec![2, 4, 5, 7]);
}

#[test]
fn array_merge_test() {
    assert_eq!(array_merge(&vec![1, 3, 5, 8], &vec![2, 3, 5, 7]), vec![1, 3, 5, 8, 2, 3, 5, 7]);
}

#[test]
fn common_merge_2_arrays_test() {
    assert_eq!(
        common::merge_2_arrays(&mut [1, 3, 5, 8], &mut [2, 3, 5, 7]),
        vec![1, 3, 5, 8, 2, 3, 5, 7]
    );
}

#[test]
fn common_clean_array_test() {
    assert_eq!(common::clean_array(&vec![1, 2, 3, 5, 8, 13]), vec![1, 2, 3, 5, 8, 13]);
}

#[test]
fn common_prime_factors_test() {
    assert_eq!(common::prime_factors(&28), vec![2, 7]);
    assert_eq!(common::prime_factors(&2), vec![2]);
    assert_eq!(common::prime_factors(&30), vec![2, 3, 5]);
}

#[test]
fn common_to_power_test() {
    assert_eq!(common::to_power(&2, &3), 8);
    assert_eq!(common::to_power(&10, &2), 100);
    assert_eq!(common::to_power(&4, &8), 65536);
}

#[test]
fn to_power_edges() {
    assert_eq!(common::to_power(&1, &50), 1);
    assert_eq!(common::to_power(&7, &0), 1);
}

#[test]
fn sum_test() {
    assert_eq!(common::sum(&[1, 3, 6, 11]), 21)
}

#[test]
fn common_sum_even_test() {
    assert_eq!(common::sum_even(&[1, 3, 6, 11]), 6)
}

#[test]
fn common_sum_odd_test() {
    assert_eq!(common::sum_odd(&[1, 3, 6, 11]), 15)
}

#[test]
fn summations_sum_even_test() {
    assert_eq!(summations::sum_even(&vec![1, 3, 6, 11]), 6)
}

#[test]
fn summations_sum_odd_test() {
    assert_eq!(summations::sum_odd(&vec![1, 3, 6, 11]), 15)
}

#[test]
fn sums_of_empty_arrays() {
    assert_eq!(common::sum(&[]), 0);
    assert_eq!(summations::sum_even(&vec![]), 0);
    assert_eq!(summations::sum_odd(&vec![1, 2, 3, 4, 5, 6]), 9);
}

#[test]
fn factorizations_factors_test() {
    assert_eq!(factorizations::factors(28), vec![1, 2, 4, 7, 14, 28]);
    assert_eq!(factorizations::factors(1), vec![1]);
    assert_eq!(factorizations::factors(2), vec![1, 2]);
}

#[test]
fn factors_prime_test() {
    assert_eq!(factorizations::factors_prime(28), vec![2, 7]);
    assert_eq!(factorizations::factors_prime(2), vec![2]);
    assert_eq!(factorizations::factors_prime(30), vec![2, 3, 5]);
    assert_eq!(factorizations::factors_prime(99651999), vec![3, 33217333]);
}

#[test]
fn factors_of_zero_and_twelve() {
    assert_eq!(factorizations::factors(0), vec![1, 0]);
    assert_eq!(factorizations::factors(12), vec![1, 2, 3, 4, 6, 12]);
}

#[test]
fn is_palindrome_test() {
    assert!(palindrome::is_palindrome(1001));
    assert!(palindrome::is_palindrome(20002));
    assert!(!palindrome::is_palindrome(2049523));
}

#[test]
fn palindrome_single_digits_and_zero() {
    assert!(palindrome::is_palindrome(0));
    assert!(palindrome::is_palindrome(7));
    assert!(!palindrome::is_palindrome(10));
    assert!(palindrome::is_palindrome(12321));
}

#[test]
fn euler_problem1() {
    let limit: usize = 500;

    let mut multiples_of_3: Vec<usize> = Vec::new();
    let mut current_3_multiple: usize = 3;
    loop {
        if current_3_multiple >= limit {
            break;
        };
        multiples_of_3.push(current_3_multiple);
        current_3_multiple += 3;
    }

    let mut multiples_of_5: Vec<usize> = Vec::new();
    let mut current_5_multiple: usize = 5;
    loop {
        if current_5_multiple >= limit {
            break;
        };
        multiples_of_5.push(current_5_multiple);
        current_5_multiple += 5;
    }

    let mut array: Vec<usize> = array_merge(&mut multiples_of_3, &mut multiples_of_5);
    array = array_clean(&array);
    let result: usize = array.iter().sum();
    assert_eq!(result, 57918);
}

#[test]
fn euler_problem2() {
    let fibonacci: Vec<usize> = eratosthenes::sequences::fibonacci(2_000_000);
    let result = summations::sum_even(&fibonacci);
    assert_eq!(result, 1089154);
}
