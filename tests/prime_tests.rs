use eratosthenes::primes::{is_prime, nth_prime, primes, PrimeError};
use eratosthenes::sequences;

fn primes_to_1050() -> Vec<usize> {
    vec![
        2, 3, 5, 7, 11, 13, 17, 19, 23, 29, 31, 37, 41, 43, 47, 53, 59, 61, 67, 71, 73, 79,
        83, 89, 97, 101, 103, 107, 109, 113, 127, 131, 137, 139, 149, 151, 157, 163, 167,
        173, 179, 181, 191, 193, 197, 199, 211, 223, 227, 229, 233, 239, 241, 251, 257,
        263, 269, 271, 277, 281, 283, 293, 307, 311, 313, 317, 331, 337, 347, 349, 353,
        359, 367, 373, 379, 383, 389, 397, 401, 409, 419, 421, 431, 433, 439, 443, 449,
        457, 461, 463, 467, 479, 487, 491, 499, 503, 509, 521, 523, 541, 547, 557, 563,
        569, 571, 577, 587, 593, 599, 601, 607, 613, 617, 619, 631, 641, 643, 647, 653,
        659, 661, 673, 677, 683, 691, 701, 709, 719, 727, 733, 739, 743, 751, 757, 761,
        769, 773, 787, 797, 809, 811, 821, 823, 827, 829, 839, 853, 857, 859, 863, 877,
        881, 883, 887, 907, 911, 919, 929, 937, 941, 947, 953, 967, 971, 977, 983, 991,
        997, 1009, 1013, 1019, 1021, 1031, 1033, 1039, 1049
    ]
}

#[test]
fn primes_primes_test() {
    assert_eq!(primes(1_050).unwrap(), primes_to_1050());
    assert_eq!(sequences::primes::primes(1_050), primes_to_1050());
}

#[test]
fn primes_nth_prime_test() {
    assert_eq!(nth_prime(1).unwrap(), 2);
    assert_eq!(nth_prime(2).unwrap(), 3);
    assert_eq!(nth_prime(10).unwrap(), 29);
    assert_eq!(nth_prime(1000).unwrap(), 7_919);
    assert_eq!(sequences::primes::nth_prime(10), 29);
    assert_eq!(sequences::primes::nth_prime(1), 2);
    assert_eq!(sequences::primes::nth_prime(2), 3);
    assert_eq!(sequences::primes::nth_prime(1000), 7919);
}

#[test]
fn primes_is_prime_test() {
    assert!(!is_prime(1).unwrap());
    assert!(is_prime(13).unwrap());
    assert!(is_prime(2).unwrap());
    assert!(is_prime(7_741).unwrap());
    assert!(is_prime(612_271_815_315_483_857).unwrap());
    assert!(!sequences::primes::is_prime(10));
    assert!(sequences::primes::is_prime(13));
    assert!(!sequences::primes::is_prime(1));
}

#[test]
fn mod_primes_test() {
    assert_eq!(sequences::primes(1_050), primes_to_1050());
}

#[test]
fn mod_nth_prime_test() {
    assert_eq!(sequences::nth_prime(10), 29);
    assert_eq!(sequences::nth_prime(1), 2);
    assert_eq!(sequences::nth_prime(2), 3);
    assert_eq!(sequences::nth_prime(1000), 7919);
}

#[test]
fn mod_is_prime_test() {
    assert!(!sequences::is_prime(&10));
    assert!(sequences::is_prime(&13));
    assert!(!sequences::is_prime(&1));
}

#[test]
fn primes_up_to_twenty() {
    assert_eq!(primes(20).unwrap(), vec![2, 3, 5, 7, 11, 13, 17, 19]);
    assert_eq!(primes(2).unwrap(), vec![2]);
}

#[test]
fn primes_below_two_is_invalid_bound() {
    assert_eq!(primes(1), Err(PrimeError::InvalidBound));
    assert_eq!(primes(0), Err(PrimeError::InvalidBound));
}

#[test]
fn is_prime_scenarios() {
    assert_eq!(is_prime(1), Ok(false));
    assert_eq!(is_prime(0), Ok(false));
    assert_eq!(is_prime(2), Ok(true));
    assert_eq!(is_prime(97), Ok(true));
    assert_eq!(is_prime(91), Ok(false));
    assert_eq!(is_prime(25), Ok(false));
    assert_eq!(is_prime(49), Ok(false));
}

#[test]
fn nth_prime_scenarios() {
    assert_eq!(nth_prime(1), Ok(2));
    assert_eq!(nth_prime(10), Ok(29));
    assert_eq!(nth_prime(1000), Ok(7919));
    assert_eq!(nth_prime(3), Ok(5));
}

#[test]
fn nth_prime_zero_is_invalid_index() {
    assert_eq!(nth_prime(0), Err(PrimeError::InvalidIndex));
}

#[test]
fn nth_prime_huge_index_is_out_of_range() {
    assert_eq!(nth_prime(usize::MAX), Err(PrimeError::IndexOutOfRange));
}

#[test]
fn primality_matches_sieve_membership() {
    let bound = 500;
    let listed = primes(bound).unwrap();
    for number in 0..=bound {
        assert_eq!(is_prime(number).unwrap(), listed.contains(&number));
    }
}

#[test]
fn nth_prime_matches_sieve_position() {
    let listed = primes(1_000).unwrap();
    for n in 1..=listed.len() {
        assert_eq!(nth_prime(n).unwrap(), listed[n - 1]);
    }
}

#[test]
fn repeated_calls_agree() {
    assert_eq!(primes(300), primes(300));
    assert_eq!(nth_prime(77), nth_prime(77));
    assert_eq!(is_prime(561), is_prime(561));
    assert_eq!(primes(1), primes(1));
}
