use sd::primality::is_prime;
use sd::semaphore::Semaphore;
use sd::spinlock::Spinlock;
use sd::spinlock::sum_inside_thread;

#[test]
fn semaphore_counts_permits() {
    let mut semaphore = Semaphore::new(2);
    assert_eq!(semaphore.available_threads(), 2);
    semaphore.wait();
    assert_eq!(semaphore.available_threads(), 1);
    semaphore.wait();
    assert_eq!(semaphore.available_threads(), 0);
    semaphore.signal();
    assert_eq!(semaphore.available_threads(), 1);
    semaphore.signal();
    semaphore.signal();
    assert_eq!(semaphore.available_threads(), 3);
}

#[test]
fn spinlock_set_only_while_locked() {
    let mut lock = Spinlock::new(5);
    assert_eq!(lock.set(7), Err(()));
    lock.acquire();
    assert_eq!(lock.set(7), Ok(()));
    assert_eq!(*lock.get_mut(), 7);
    lock.release();
    assert_eq!(lock.set(9), Err(()));
    assert_eq!(*lock.get_mut(), 7);
}

#[test]
fn spinlock_get_mut_gives_exclusive_access() {
    let mut lock = Spinlock::new(0);
    let cell = lock.get_mut();
    *cell = 41;
    *cell += 1;
    assert_eq!(*lock.get_mut(), 42);
}

#[test]
fn sums_a_chunk_like_one_worker() {
    assert_eq!(sum_inside_thread(&[]), 0);
    assert_eq!(sum_inside_thread(&[1, -2, 3]), 2);
    assert_eq!(sum_inside_thread(&[127; 8]), 127 * 8);
    assert_eq!(sum_inside_thread(&[-128; 4]), -512);
}

#[test]
fn trial_division_verdicts() {
    assert!(is_prime(2));
    assert!(is_prime(3));
    assert!(is_prime(7));
    assert!(is_prime(13));
    assert!(!is_prime(6));
    assert!(!is_prime(9));
    assert!(!is_prime(35));
    assert!(!is_prime(49));
}

#[test]
fn trial_division_small_numbers_pass() {
    assert!(is_prime(0));
    assert!(is_prime(1));
    assert!(is_prime(4));
    assert!(is_prime(5));
    assert!(is_prime(-7));
}
