use ic_asset::semaphores::{file_load_cost, Semaphore, Semaphores, MAX_COST_SINGLE_FILE_MB};

#[test]
fn file_load_cost_is_the_size_in_megabytes_rounded_up() {
    assert_eq!(file_load_cost(1_000_001), 2);
    assert_eq!(file_load_cost(2_000_000), 2);
    assert_eq!(file_load_cost(3_000_000), 3);
    assert_eq!(file_load_cost(12_345_678), 13);
    assert_eq!(file_load_cost(44_000_001), 45);
}

#[test]
fn file_load_cost_is_at_least_one() {
    assert_eq!(file_load_cost(0), 1);
    assert_eq!(file_load_cost(1), 1);
    assert_eq!(file_load_cost(999_999), 1);
    assert_eq!(file_load_cost(1_000_000), 1);
}

#[test]
fn file_load_cost_is_at_most_forty_five() {
    assert_eq!(MAX_COST_SINGLE_FILE_MB, 45);
    assert_eq!(file_load_cost(45_000_000), 45);
    assert_eq!(file_load_cost(45_000_001), 45);
    assert_eq!(file_load_cost(46_000_000), 45);
    assert_eq!(file_load_cost(10_000_000_000), 45);
    assert_eq!(file_load_cost(u64::MAX), 45);
}

#[test]
fn semaphore_grants_up_to_its_capacity() {
    let mut semaphore = Semaphore::new(3);
    assert_eq!(semaphore.capacity(), 3);
    assert_eq!(semaphore.held(), 0);
    assert_eq!(semaphore.available(), 3);
    assert!(semaphore.try_acquire(2));
    assert_eq!(semaphore.held(), 2);
    assert!(!semaphore.try_acquire(2));
    assert_eq!(semaphore.held(), 2);
    assert!(semaphore.try_acquire(1));
    assert_eq!(semaphore.held(), 3);
    assert_eq!(semaphore.available(), 0);
    assert!(!semaphore.try_acquire(1));
    assert_eq!(semaphore.held(), 3);
}

#[test]
fn semaphore_takes_back_no_more_than_is_out() {
    let mut semaphore = Semaphore::new(5);
    assert!(semaphore.try_acquire(4));
    assert!(!semaphore.release(5));
    assert_eq!(semaphore.held(), 4);
    assert!(semaphore.release(3));
    assert_eq!(semaphore.held(), 1);
    assert!(semaphore.release(1));
    assert_eq!(semaphore.held(), 0);
    assert!(!semaphore.release(1));
}

#[test]
fn semaphore_never_holds_more_than_its_capacity() {
    let mut semaphore = Semaphore::new(7);
    let requests = [3usize, 5, 2, 9, 1, 1, 4, usize::MAX, 0, 7];
    for (turn, permits) in requests.iter().enumerate() {
        semaphore.try_acquire(*permits);
        assert!(semaphore.held() <= semaphore.capacity());
        if turn % 3 == 2 {
            semaphore.release(2);
            assert!(semaphore.held() <= semaphore.capacity());
        }
    }
}

#[test]
fn semaphore_of_no_capacity_grants_only_nothing() {
    let mut semaphore = Semaphore::new(0);
    assert!(semaphore.try_acquire(0));
    assert!(!semaphore.try_acquire(1));
    assert_eq!(semaphore.held(), 0);
}

#[test]
fn file_permits_are_granted_while_they_fit() {
    let mut semaphores = Semaphores::new(50, 4);
    let first = semaphores.try_acquire_file(30_000_000).unwrap();
    assert_eq!(first.permits(), 30);
    assert_eq!(semaphores.file.held(), 30);
    assert!(semaphores.try_acquire_file(20_000_001).is_none());
    assert_eq!(semaphores.file.held(), 30);
    let second = semaphores.try_acquire_file(20_000_000).unwrap();
    assert_eq!(second.permits(), 20);
    assert_eq!(semaphores.file.held(), 50);
    assert!(semaphores.try_acquire_file(0).is_none());
    assert!(semaphores.release_file(first));
    assert_eq!(semaphores.file.held(), 20);
    assert!(semaphores.release_file(second));
    assert_eq!(semaphores.file.held(), 0);
    assert_eq!(semaphores.create_chunk_call.held(), 0);
}

#[test]
fn a_file_alone_is_admitted_whatever_its_size() {
    let mut semaphores = Semaphores::new(MAX_COST_SINGLE_FILE_MB, 1);
    let grant = semaphores.try_acquire_file(u64::MAX).unwrap();
    assert_eq!(grant.permits(), 45);
    assert_eq!(semaphores.file.available(), 0);
}

#[test]
fn a_grant_of_another_budget_is_refused_when_too_large() {
    let mut large = Semaphores::new(50, 1);
    let mut small = Semaphores::new(50, 1);
    let grant = large.try_acquire_file(10_000_000).unwrap();
    assert!(!small.release_file(grant));
    assert_eq!(small.file.held(), 0);
    assert_eq!(large.file.held(), 10);
}
