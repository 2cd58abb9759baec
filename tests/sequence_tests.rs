use eratosthenes::sequences;
use eratosthenes::sequences::triangular_numbers::{nth_triangular, triangular_numbers};

#[test]
fn mod_arithmetic_test() {
    assert_eq!(sequences::arithmetic(&2, &3, &4), [2, 5, 8, 11]);
}

#[test]
fn arithmetic_arithmetic_test() {
    assert_eq!(sequences::arithmetic::arithmetic(2, 3, 4), [2, 5, 8, 11]);
}

#[test]
fn mod_fibonacci_test() {
    assert_eq!(sequences::fibonacci(2), vec![1, 1]);
    assert_eq!(sequences::fibonacci(3), vec![1, 1, 2]);
    assert_eq!(sequences::fibonacci(100), vec![1, 1, 2, 3, 5, 8, 13, 21, 34, 55, 89]);
}

#[test]
fn fibonacci_fibonacci_test() {
    assert_eq!(sequences::fibonacci::fibonacci(2), vec![1, 1]);
    assert_eq!(sequences::fibonacci::fibonacci(3), vec![1, 1, 2]);
    assert_eq!(sequences::fibonacci::fibonacci(100), vec![1, 1, 2, 3, 5, 8, 13, 21, 34, 55, 89]);
}

#[test]
fn mod_nth_fibonacci_test() {
    assert_eq!(sequences::nth_fibonacci(1), 1);
    assert_eq!(sequences::nth_fibonacci(2), 1);
    assert_eq!(sequences::nth_fibonacci(3), 2);
    assert_eq!(sequences::nth_fibonacci(4), 3);
    assert_eq!(sequences::nth_fibonacci(5), 5);
    assert_eq!(sequences::nth_fibonacci(11), 89);
    assert_eq!(sequences::nth_fibonacci(12), 144);
    assert_eq!(sequences::nth_fibonacci(39), 63245986);
    assert_eq!(sequences::nth_fibonacci(40), 102334155);
}

#[test]
fn fibonacci_nth_fibonacci_test() {
    assert_eq!(sequences::fibonacci::nth_fibonacci(1), 1);
    assert_eq!(sequences::fibonacci::nth_fibonacci(2), 1);
    assert_eq!(sequences::fibonacci::nth_fibonacci(3), 2);
    assert_eq!(sequences::fibonacci::nth_fibonacci(4), 3);
    assert_eq!(sequences::fibonacci::nth_fibonacci(5), 5);
    assert_eq!(sequences::fibonacci::nth_fibonacci(11), 89);
    assert_eq!(sequences::fibonacci::nth_fibonacci(12), 144);
    assert_eq!(sequences::fibonacci::nth_fibonacci(39), 63245986);
    assert_eq!(sequences::fibonacci::nth_fibonacci(40), 102334155);
}

#[test]
fn mod_geometric_sequence_test() {
    assert_eq!(sequences::geometric(&3, &2, &1, &4), vec![3, 6, 12, 24]);
    assert_eq!(
        sequences::geometric(&4, &12, &1, &8),
        vec![4, 48, 576, 6912, 82944, 995328, 11943936, 143327232]
    );
    assert_eq!(sequences::geometric(&3, &5, &2, &3), vec![15, 75]);
}

#[test]
fn geometric_geometric_sequence_test() {
    assert_eq!(sequences::geometric::geometric(3, 2, 1, 4), vec![3, 6, 12, 24]);
    assert_eq!(
        sequences::geometric::geometric(4, 12, 1, 8),
        vec![4, 48, 576, 6912, 82944, 995328, 11943936, 143327232]
    );
    assert_eq!(sequences::geometric::geometric(3, 5, 2, 3), vec![15, 75]);
}

#[test]
fn faulhabers_test() {
    assert_eq!(
        sequences::faulhabers::faulhabers(&10, &3),
        vec![1, 8, 27, 64, 125, 216, 343, 512, 729, 1000]
    );
}

#[test]
fn mod_square_numbers_test() {
    assert_eq!(sequences::square_numbers(&10), vec![0, 1, 4, 9, 16, 25, 36, 49, 64, 81]);
}

#[test]
fn square_numbers_square_numbers_test() {
    assert_eq!(
        sequences::square_numbers::square_numbers(&10),
        vec![0, 1, 4, 9, 16, 25, 36, 49, 64, 81]
    );
}

#[test]
fn squares_square_numbers_test() {
    assert_eq!(sequences::squares::square_numbers(10), vec![0, 1, 4, 9, 16, 25, 36, 49, 64, 81]);
}

#[test]
fn triangular_numbers_triangular_numbers_test() {
    assert_eq!(triangular_numbers(1), vec![0]);
    assert_eq!(triangular_numbers(2), vec![0, 1]);
    assert_eq!(triangular_numbers(10), vec![0, 1, 3, 6, 10, 15, 21, 28, 36, 45]);
}

#[test]
fn triangular_numbers_nth_triangular_test() {
    assert_eq!(nth_triangular(1), 0);
    assert_eq!(nth_triangular(2), 1);
    assert_eq!(nth_triangular(3), 3);
    assert_eq!(nth_triangular(4), 6);
}

#[test]
fn empty_sequences() {
    assert_eq!(sequences::arithmetic(&7, &3, &0), Vec::<usize>::new());
    assert_eq!(sequences::square_numbers(&0), Vec::<usize>::new());
    assert_eq!(sequences::faulhabers::faulhabers(&0, &4), Vec::<usize>::new());
}

#[test]
fn fibonacci_just_above_a_term() {
    assert_eq!(sequences::fibonacci(9), vec![1, 1, 2, 3, 5, 8]);
    assert_eq!(sequences::fibonacci(8), vec![1, 1, 2, 3, 5]);
}
