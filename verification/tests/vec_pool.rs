use paperlog::vec_pool::VecPool;
use std::collections::HashSet;

#[test]
fn test_vec_pool_reuses_two_allocations() {
    // initial amount 2, inner capacity 16
    let mut pool: VecPool<u8> = VecPool::with_initial_amount(2, 16);

    // initially pool has two vecs
    assert_eq!(pool.pool_len(), 2);

    let mut ptrs: HashSet<usize> = HashSet::new();

    // repeatedly take and return a vec, record the pointer address
    for _ in 0..100 {
        let mut taken = pool.take_vec();
        // push some data to ensure allocation
        taken.extend(std::iter::repeat(0u8).take(8));
        let p = taken.as_ptr() as usize;
        ptrs.insert(p);
        pool.return_vec(taken);
    }

    // The pool was seeded with 2 vecs; the implementation should only ever allocate
    // at most those two buffers and reuse them. We expect at most 2 unique pointers.
    assert!(
        ptrs.len() <= 2,
        "expected at most 2 unique buffers, got {}",
        ptrs.len()
    );
    assert!(
        pool.pool_len() == 2,
        "expected pool to have 2 vecs after returns, got {}",
        pool.pool_len()
    );
}

#[test]
fn test_take_return_changes_pool_len() {
    let mut pool: VecPool<u32> = VecPool::with_initial_amount(1, 8);
    assert_eq!(pool.pool_len(), 1);

    // take a vector, then return it
    let taken = pool.take_vec();
    assert_eq!(pool.pool_len(), 0);
    pool.return_vec(taken);

    // after the return, pool should have one vec again
    assert_eq!(pool.pool_len(), 1);
}

#[test]
fn test_taken_vec_is_empty() {
    let mut pool: VecPool<u32> = VecPool::with_initial_amount(1, 8);
    let mut taken = pool.take_vec();
    assert!(taken.is_empty());
    taken.push(7);
    pool.return_vec(taken);
    // returned vectors are cleared before pooling
    let again = pool.take_vec();
    assert!(again.is_empty());
}

#[test]
fn test_take_from_empty_pool_allocates() {
    let mut pool: VecPool<u8> = VecPool::with_initial_amount(0, 4);
    assert_eq!(pool.pool_len(), 0);
    let taken = pool.take_vec();
    assert!(taken.is_empty());
    pool.return_vec(taken);
    assert_eq!(pool.pool_len(), 1);
}

#[test]
fn test_resize_all_keeps_pool() {
    let mut pool: VecPool<u8> = VecPool::with_initial_amount(3, 4);
    pool.resize_all(64);
    assert_eq!(pool.pool_len(), 3);
    let taken = pool.take_vec();
    assert!(taken.is_empty());
    assert!(taken.capacity() >= 64);
}
