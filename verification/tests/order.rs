use bagger::order::{EdgeOrder, WorkingQueue};

fn key(active: bool, satisfies: u32, priority: i32) -> EdgeOrder {
    EdgeOrder { active, satisfies, priority }
}

#[test]
fn an_active_edge_comes_before_everything_else() {
    assert!(key(false, 9, 9).precedes(&key(true, 0, -5)));
    assert!(!key(true, 0, -5).precedes(&key(false, 9, 9)));
}

#[test]
fn then_the_satisfied_count_then_the_priority() {
    assert!(key(true, 1, 9).precedes(&key(true, 2, 0)));
    assert!(key(true, 2, -1).precedes(&key(true, 2, 0)));
    assert!(!key(true, 2, 0).precedes(&key(true, 2, 0)));
    assert!(key(true, 1, 9) < key(true, 2, 0));
    assert!(key(true, 2, 0) > key(false, 2, 0));
    assert_eq!(
        key(true, 2, 0).partial_cmp(&key(true, 2, 0)),
        Some(std::cmp::Ordering::Equal)
    );
}

#[test]
fn the_queue_hands_out_the_greatest_key_oldest_first() {
    let mut queue = WorkingQueue::new();
    assert_eq!(queue.pop(), None);
    queue.insert(key(true, 0, 0), 1);
    queue.insert(key(false, 1, 0), 2);
    queue.insert(key(true, 1, 0), 3);
    queue.insert(key(true, 1, 0), 4);
    queue.insert(key(true, 1, -1), 5);
    queue.extend(vec![(key(true, 1, 0), 6), (key(false, 1, 0), 7)]);
    assert_eq!(queue.len(), 7);
    let mut order = Vec::new();
    while let Some(node) = queue.pop() {
        order.push(node);
    }
    assert_eq!(order, vec![3, 4, 6, 5, 1, 2, 7]);
}
