use eratosthenes::mathematics::common::{
    clean_array, factors, merge_2_arrays, prime_factors, sum_of_array_items,
    sum_of_even_array_items, to_power,
};
use eratosthenes::mathematics::fibonacci::fibonacci_series;
use eratosthenes::mathematics::palindrome::{is_palindrome_number, palindromes};
use eratosthenes::mathematics::prime_algorithms::{biggest_prime_factor, nth_prime};
use eratosthenes::mathematics::square_operations::{square_of_sum_of_numbers, sum_of_squares};
use eratosthenes::mathematics::triangular_numbers::is_triangular;
use eratosthenes::mathematics::{sequence, sequences};
use eratosthenes::{common, factorizations};

#[test]
fn common_factors_test() {
    assert_eq!(common::factors(&28), vec![1, 2, 4, 7, 14, 28]);
    assert_eq!(common::factors(&1), vec![1]);
    assert_eq!(common::factors(&2), vec![1, 2]);
    assert_eq!(factors(28, true, true), vec![1, 2, 4, 7, 14, 28]);
    assert_eq!(factors(28, false, true), vec![2, 4, 7, 14, 28]);
    assert_eq!(factors(28, true, false), vec![1, 2, 4, 7, 14]);
    assert_eq!(factors(28, false, false), vec![2, 4, 7, 14]);
}

#[test]
fn mathematics_prime_factors() {
    assert_eq!(prime_factors(28), vec![2, 7]);
    assert_eq!(prime_factors(2), vec![2]);
    assert_eq!(prime_factors(30), vec![2, 3, 5]);
}

#[test]
fn mathematics_clean_array_leaves_input() {
    let mut input = vec![1, 2, 3, 5, 8, 13];
    assert_eq!(clean_array(&mut input), vec![1, 2, 3, 5, 8, 13]);
    let mut unsorted = vec![4, 4, 1, 9, 1];
    assert_eq!(clean_array(&mut unsorted), vec![1, 4, 9]);
    assert_eq!(unsorted, vec![4, 4, 1, 9, 1]);
}

#[test]
fn mathematics_merge_2_arrays() {
    assert_eq!(merge_2_arrays(&mut [1, 3, 5, 8], &mut [2, 3, 5, 7]), vec![1, 3, 5, 8, 2, 3, 5, 7]);
}

#[test]
fn sum_of_even_array_items_test() {
    assert_eq!(sum_of_even_array_items(&mut [1, 3, 6, 11]), 6)
}

#[test]
fn sum_of_array_items_value() {
    assert_eq!(sum_of_array_items(vec![1, 3, 6, 11]), 21);
}

#[test]
fn mathematics_to_power() {
    assert_eq!(to_power(2, 3), 8);
    assert_eq!(to_power(10, 2), 100);
    assert_eq!(to_power(4, 8), 65536);
}

#[test]
fn fibonacci_series_test() {
    assert_eq!(fibonacci_series(30), vec![1, 2, 3, 5, 8, 13, 21]);
}

#[test]
fn fibonacci_series_small_bounds() {
    assert_eq!(fibonacci_series(1), vec![1, 2]);
    assert_eq!(fibonacci_series(3), vec![1, 2, 3]);
    assert_eq!(fibonacci_series(4), vec![1, 2, 3, 5]);
    assert_eq!(fibonacci_series(5), vec![1, 2, 3]);
}

#[test]
fn palindromes_test() {
    assert_eq!(palindromes(2)[0], 121);
    assert_eq!(palindromes(2)[8], 444);
    assert_eq!(palindromes(3)[0], 10_201);
    assert_eq!(palindromes(3)[1], 11_211);
}

#[test]
fn palindromes_other_digit_counts() {
    assert_eq!(palindromes(1), vec![0]);
    assert_eq!(palindromes(4), vec![0]);
}

#[test]
fn palindrome_numbers() {
    assert!(is_palindrome_number(9009));
    assert!(!is_palindrome_number(9008));
}

#[test]
fn biggest_prime_factor_test() {
    assert_eq!(biggest_prime_factor(0), 0);
    assert_eq!(biggest_prime_factor(1), 0);
    assert_eq!(biggest_prime_factor(2), 2);
    assert_eq!(biggest_prime_factor(21), 7);
    assert_eq!(biggest_prime_factor(33), 11);
}

#[test]
fn biggest_prime_factor_of_prime_power_and_13195() {
    assert_eq!(biggest_prime_factor(64), 2);
    assert_eq!(biggest_prime_factor(13195), 29);
}

#[test]
fn prime_algorithms_nth_prime_test() {
    assert_eq!(nth_prime(3), 5);
    assert_eq!(nth_prime(10), 29);
}

#[test]
fn prime_algorithms_nth_prime_zero() {
    assert_eq!(nth_prime(0), 0);
}

#[test]
fn sequence_triangular_numbers_test() {
    assert_eq!(sequence::triangular_numbers(1), vec![0]);
    assert_eq!(sequence::triangular_numbers(2), vec![0, 1]);
    assert_eq!(sequence::triangular_numbers(10), vec![0, 1, 3, 6, 10, 15, 21, 28, 36, 45]);
}

#[test]
fn sequence_nth_triangular_test() {
    assert_eq!(sequence::nth_triangular(1), 0);
    assert_eq!(sequence::nth_triangular(2), 1);
    assert_eq!(sequence::nth_triangular(3), 3);
    assert_eq!(sequence::nth_triangular(4), 6);
}

#[test]
fn sequences_triangular_numbers_test() {
    assert_eq!(sequences::triangular_numbers(1), vec![0]);
    assert_eq!(sequences::triangular_numbers(2), vec![0, 1]);
    assert_eq!(sequences::triangular_numbers(10), vec![0, 1, 3, 6, 10, 15, 21, 28, 36, 45]);
}

#[test]
fn sequences_nth_triangular_test() {
    assert_eq!(sequences::nth_triangular(1), 0);
    assert_eq!(sequences::nth_triangular(2), 1);
    assert_eq!(sequences::nth_triangular(3), 3);
    assert_eq!(sequences::nth_triangular(4), 6);
}

#[test]
fn sequences_primes_test() {
    assert_eq!(
        sequences::primes(1_050),
        vec![
            2, 3, 5, 7, 11, 13, 17, 19, 23, 29, 31, 37, 41, 43, 47, 53, 59, 61, 67, 71, 73, 79,
            83, 89, 97, 101, 103, 107, 109, 113, 127, 131, 137, 139, 149, 151, 157, 163, 167,
            173, 179, 181, 191, 193, 197, 199, 211, 223, 227, 229, 233, 239, 241, 251, 257,
            263, 269, 271, 277, 281, 283, 293, 307, 311, 313, 317, 331, 337, 347, 349, 353,
            359, 367, 373, 379, 383, 389, 397, 401, 409, 419, 421, 431, 433, 439, 443, 449,
            457, 461, 463, 467, 479, 487, 491, 499, 503, 509, 521, 523, 541, 547, 557, 563,
            569, 571, 577, 587, 593, 599, 601, 607, 613, 617, 619, 631, 641, 643, 647, 653,
            659, 661, 673, 677, 683, 691, 701, 709, 719, 727, 733, 739, 743, 751, 757, 761,
            769, 773, 787, 797, 809, 811, 821, 823, 827, 829, 839, 853, 857, 859, 863, 877,
            881, 883, 887, 907, 911, 919, 929, 937, 941, 947, 953, 967, 971, 977, 983, 991,
            997, 1009, 1013, 1019, 1021, 1031, 1033, 1039, 1049
        ]
    );
}

#[test]
fn sequences_primes_excludes_bound() {
    assert_eq!(sequences::primes(7), vec![2, 3, 5]);
    assert_eq!(sequences::primes(8), vec![2, 3, 5, 7]);
}

#[test]
fn sequences_nth_prime_test() {
    assert_eq!(sequences::nth_prime(10), 29);
    assert_eq!(sequences::nth_prime(1), 2);
    assert_eq!(sequences::nth_prime(2), 3);
}

#[test]
fn sequences_fibonacci_test() {
    assert_eq!(sequences::fibonacci(2), vec![1, 1]);
    assert_eq!(sequences::fibonacci(3), vec![1, 1, 2]);
    assert_eq!(sequences::fibonacci(100), vec![1, 1, 2, 3, 5, 8, 13, 21, 34, 55, 89]);
}

#[test]
fn sequences_nth_fibonacci_test() {
    assert_eq!(sequences::nth_fibonacci(1), 1);
    assert_eq!(sequences::nth_fibonacci(2), 1);
    assert_eq!(sequences::nth_fibonacci(3), 2);
    assert_eq!(sequences::nth_fibonacci(4), 3);
    assert_eq!(sequences::nth_fibonacci(5), 5);
    assert_eq!(sequences::nth_fibonacci(11), 89);
    assert_eq!(sequences::nth_fibonacci(12), 144);
    assert_eq!(sequences::nth_fibonacci(39), 63245986);
    assert_eq!(sequences::nth_fibonacci(40), 102334155);
    assert_eq!(sequences::nth_fibonacci(89), 1779979416004714189);
}

#[test]
fn sequences_geometric_sequence_test() {
    assert_eq!(sequences::geometric_sequence(3, 2, 1, 4), vec![3, 6, 12, 24]);
    assert_eq!(
        sequences::geometric_sequence(4, 12, 1, 8),
        vec![4, 48, 576, 6912, 82944, 995328, 11943936, 143327232]
    );
    assert_eq!(sequences::geometric_sequence(3, 5, 2, 3), vec![15, 75]);
}

#[test]
fn square_of_sum_of_numbers_test() {
    assert_eq!(square_of_sum_of_numbers(3), 36);
    assert_eq!(square_of_sum_of_numbers(10), 3025);
}

#[test]
fn sum_of_squares_test() {
    assert_eq!(sum_of_squares(10), 385);
}

#[test]
fn square_sums_of_nothing() {
    assert_eq!(sum_of_squares(0), 0);
    assert_eq!(square_of_sum_of_numbers(0), 0);
    assert_eq!(square_of_sum_of_numbers(100) - sum_of_squares(100), 25164150);
}

#[test]
fn is_triangular_test() {
    assert_eq!(is_triangular(3), true);
    assert_eq!(is_triangular(6), true);
    assert_eq!(is_triangular(10), true);
    assert_eq!(is_triangular(15), true);
    assert_eq!(is_triangular(21), true);
    assert_eq!(is_triangular(1), true);
    assert_eq!(is_triangular(2), false);
}

#[test]
fn is_triangular_zero_and_gaps() {
    assert!(!is_triangular(0));
    assert!(!is_triangular(4));
    assert!(is_triangular(5050));
    assert!(!is_triangular(5051));
}

#[test]
fn factorizations_agree_with_common() {
    assert_eq!(factorizations::factors(36), common::factors(&36));
}
