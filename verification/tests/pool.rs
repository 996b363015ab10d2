use analog::pool::{BoundedWorkerPool, MAX_CONCURRENT_TASKS};

#[test]
fn five_tasks_never_hold_more_than_two_slots() {
    let mut pool = BoundedWorkerPool::new(5, 2);
    let mut running: Vec<usize> = Vec::new();
    let mut started: Vec<usize> = Vec::new();
    let mut most = 0;
    while !pool.all_joined() {
        loop {
            let (next, admitted) = pool.acquire();
            pool = next;
            match admitted {
                Some(task) => {
                    running.push(task);
                    started.push(task);
                }
                None => break,
            }
            assert_eq!(pool.running(), running.len());
            assert!(pool.running() <= 2);
            most = most.max(pool.running());
        }
        let task = running.remove(0);
        let (next, held) = pool.release(task);
        pool = next;
        assert!(held);
        assert_eq!(pool.running(), running.len());
    }
    assert_eq!(started, vec![0, 1, 2, 3, 4]);
    assert_eq!(most, 2);
    assert_eq!(pool.running(), 0);
}

#[test]
fn tasks_are_admitted_in_their_order_while_slots_are_free() {
    let pool = BoundedWorkerPool::new(3, 2);
    assert_eq!(pool.max_concurrent(), 2);
    assert_eq!(pool.running(), 0);
    let (pool, first) = pool.acquire();
    let (pool, second) = pool.acquire();
    let (pool, third) = pool.acquire();
    assert_eq!((first, second, third), (Some(0), Some(1), None));
    assert_eq!(pool.running(), 2);
    assert!(pool.holds_slot(0) && pool.holds_slot(1) && !pool.holds_slot(2));
    let (pool, held) = pool.release(1);
    assert!(held);
    let (pool, third) = pool.acquire();
    assert_eq!(third, Some(2));
    assert_eq!(pool.running(), 2);
    let (pool, none) = pool.acquire();
    assert_eq!(none, None);
    assert!(!pool.all_joined());
}

#[test]
fn a_slot_is_given_back_once() {
    let (pool, _) = BoundedWorkerPool::new(2, 1).acquire();
    let (pool, held) = pool.release(0);
    assert!(held);
    let (pool, again) = pool.release(0);
    assert!(!again);
    assert_eq!(pool.running(), 0);
    let (pool, waiting) = pool.release(1);
    assert!(!waiting);
    let (pool, unknown) = pool.release(7);
    assert!(!unknown);
    let (pool, second) = pool.acquire();
    assert_eq!(second, Some(1));
    assert_eq!(pool.running(), 1);
    let (pool, held) = pool.release(1);
    assert!(held);
    assert!(pool.all_joined());
}

#[test]
fn a_pool_without_tasks_is_joined_from_the_start() {
    let pool = BoundedWorkerPool::new(0, 3);
    assert!(pool.all_joined());
    let (pool, admitted) = pool.acquire();
    assert_eq!(admitted, None);
    assert!(pool.all_joined());
}

#[test]
fn a_pool_without_slots_admits_no_task() {
    let (pool, admitted) = BoundedWorkerPool::new(2, 0).acquire();
    assert_eq!(admitted, None);
    assert_eq!(pool.running(), 0);
    assert!(!pool.all_joined());
}

#[test]
fn five_tasks_run_at_a_time_by_default() {
    assert_eq!(MAX_CONCURRENT_TASKS, 5);
    let mut pool = BoundedWorkerPool::new(8, MAX_CONCURRENT_TASKS);
    let mut admitted = 0;
    loop {
        let (next, task) = pool.acquire();
        pool = next;
        if task.is_none() {
            break;
        }
        admitted += 1;
    }
    assert_eq!(admitted, 5);
    assert_eq!(pool.running(), 5);
}
