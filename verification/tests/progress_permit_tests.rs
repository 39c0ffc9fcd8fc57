use ecstasy::permits::ConcurrencyController;
use ecstasy::progress::ProgressTracker;

#[test]
fn progress_conserves_items() {
    let mut progress = ProgressTracker::new(10);
    progress.advance(3);
    progress.shrink_target(2);
    assert_eq!(progress.completed, 3);
    assert_eq!(progress.target, 8);
    assert_eq!(progress.initial, 10);
    let abandoned = progress.initial - progress.target;
    assert!(progress.completed + abandoned <= progress.initial);
    assert!(!progress.is_complete());
    progress.advance(5);
    assert!(progress.is_complete());
}

#[test]
fn target_only_shrinks() {
    let mut progress = ProgressTracker::new(4);
    let before = progress.target;
    progress.advance(1);
    assert_eq!(progress.target, before);
    progress.shrink_target(1);
    assert!(progress.target < before);
}

#[test]
fn permits_bound_concurrent_fetches() {
    // An instrumented fetch stub: counts how many simulated fetches were ever
    // in flight at once, against a bound of 3.
    let mut controller = ConcurrencyController::new(3);
    let mut high_water: u32 = 0;
    let mut running: Vec<u32> = Vec::new();
    for task in 0..10u32 {
        while !controller.try_acquire() {
            // Pool exhausted: the oldest running fetch finishes first.
            running.remove(0);
            controller.release();
        }
        running.push(task);
        if controller.in_flight > high_water {
            high_water = controller.in_flight;
        }
        assert!(controller.in_flight <= controller.bound);
    }
    while !running.is_empty() {
        running.remove(0);
        controller.release();
    }
    assert_eq!(high_water, 3);
    assert_eq!(controller.in_flight, 0);
}

#[test]
fn exhausted_pool_refuses_permits() {
    let mut controller = ConcurrencyController::new(2);
    assert!(controller.try_acquire());
    assert!(controller.try_acquire());
    assert!(!controller.try_acquire());
    controller.release();
    assert!(controller.try_acquire());
}
