use pict_rs::processor::{permits_for_this_machine, process_permits, Processor, Role};

#[test]
fn one_driver_and_many_waiters() {
    let mut processor = Processor::new();
    let key = b"thumb/100/file.png".to_vec();
    assert!(!processor.is_in_flight(&key));
    assert_eq!(processor.join(&key), Role::Driver);
    assert!(processor.is_in_flight(&key));
    let mut tickets = Vec::new();
    for _ in 0..5 {
        match processor.join(&key) {
            Role::Waiter(ticket) => tickets.push(ticket),
            other => panic!("{:?}", other),
        }
    }
    assert_eq!(tickets, vec![0, 1, 2, 3, 4]);
    assert_eq!(processor.complete(&key), tickets);
    assert!(!processor.is_in_flight(&key));
    assert_eq!(processor.complete(&key), Vec::<usize>::new());
}

#[test]
fn keys_fly_independently() {
    let mut processor = Processor::new();
    let a = b"a".to_vec();
    let b = b"b".to_vec();
    assert_eq!(processor.join(&a), Role::Driver);
    assert_eq!(processor.join(&b), Role::Driver);
    assert_eq!(processor.join(&a), Role::Waiter(0));
    assert_eq!(processor.join(&b), Role::Waiter(0));
    assert_eq!(processor.join(&b), Role::Waiter(1));
    assert_eq!(processor.complete(&a), vec![0]);
    assert!(processor.is_in_flight(&b));
    assert_eq!(processor.complete(&b), vec![0, 1]);
}

#[test]
fn failures_are_not_kept() {
    let mut processor = Processor::new();
    let key = b"k".to_vec();
    assert_eq!(processor.join(&key), Role::Driver);
    assert_eq!(processor.join(&key), Role::Waiter(0));
    assert_eq!(processor.complete(&key), vec![0]);
    assert_eq!(processor.join(&key), Role::Driver);
    assert_eq!(processor.join(&key), Role::Waiter(0));
}

#[test]
fn cancelled_driver_keeps_the_flight() {
    let mut processor = Processor::new();
    let key = b"k".to_vec();
    assert_eq!(processor.join(&key), Role::Driver);
    assert_eq!(processor.join(&key), Role::Waiter(0));
    assert!(processor.is_in_flight(&key));
    assert_eq!(processor.join(&key), Role::Waiter(1));
    assert_eq!(processor.complete(&key), vec![0, 1]);
}

#[test]
fn waiters_can_leave() {
    let mut processor = Processor::new();
    let key = b"k".to_vec();
    processor.join(&key);
    processor.join(&key);
    processor.join(&key);
    processor.join(&key);
    processor.leave(&key, 1);
    processor.leave(&key, 7);
    processor.leave(&b"other".to_vec(), 0);
    assert_eq!(processor.join(&key), Role::Waiter(3));
    assert_eq!(processor.complete(&key), vec![0, 2, 3]);
}

#[test]
fn permits_leave_headroom() {
    assert_eq!(process_permits(0), 1);
    assert_eq!(process_permits(1), 1);
    assert_eq!(process_permits(2), 1);
    assert_eq!(process_permits(3), 2);
    assert_eq!(process_permits(16), 15);
    assert_eq!(process_permits(usize::MAX), usize::MAX - 1);
}

#[test]
fn this_machine_has_a_permit() {
    let permits = permits_for_this_machine();
    assert!(permits >= 1);
    assert_eq!(permits, process_permits(num_cpus::get()));
}
