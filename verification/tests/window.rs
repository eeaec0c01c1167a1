use sonicsplit::window::HistoryWindow;

#[test]
fn window_overwrites_oldest_when_full() {
    // Capacity 3: pushing 4 distinct vectors leaves exactly the last 3,
    // oldest evicted first, in insertion order.
    let mut h = HistoryWindow::new(3, 1);
    for v in [10, 20, 30, 40] {
        h.push(vec![v]);
    }
    assert_eq!(h.len(), 3);
    assert_eq!(h.get(0), &vec![20]);
    assert_eq!(h.get(1), &vec![30]);
    assert_eq!(h.get(2), &vec![40]);
}

#[test]
fn window_keeps_insertion_order_until_full() {
    let mut h = HistoryWindow::new(4, 2);
    h.push(vec![1, 2]);
    h.push(vec![3, 4]);
    assert_eq!(h.len(), 2);
    assert_eq!(h.capacity(), 4);
    assert_eq!(h.get(0), &vec![1, 2]);
    assert_eq!(h.get(1), &vec![3, 4]);
}

#[test]
fn window_wraps_repeatedly() {
    let mut h = HistoryWindow::new(2, 1);
    for v in 0..7 {
        h.push(vec![v]);
    }
    assert_eq!(h.len(), 2);
    assert_eq!(h.get(0), &vec![5]);
    assert_eq!(h.get(1), &vec![6]);
}

#[test]
fn zero_capacity_window_holds_nothing() {
    let mut h = HistoryWindow::new(0, 3);
    h.push(vec![1, 2, 3]);
    h.push(vec![4, 5, 6]);
    assert_eq!(h.len(), 0);
}

#[test]
fn block_larger_than_capacity_keeps_most_recent_samples() {
    // Six pushes into a window of capacity 4: only the last 4 remain.
    let mut h = HistoryWindow::new(4, 1);
    for v in [1, 2, 3, 4, 5, 6] {
        h.push(vec![v]);
    }
    assert_eq!(h.len(), 4);
    for i in 0..4 {
        assert_eq!(h.get(i), &vec![(i + 3) as i64]);
    }
}
