use feed_enricher::window::{DrainWindow, CONCURRENCY_LIMIT};

#[test]
fn ceiling_is_five() {
    assert_eq!(CONCURRENCY_LIMIT, 5);
}

#[test]
fn never_more_than_five_in_flight() {
    let ids: Vec<u64> = (0..12).collect();
    let mut w = DrainWindow::new(ids.clone());
    // Fill the window: exactly the ceiling starts, no more.
    let mut started = 0;
    while let Some(_) = w.start_next() {
        started += 1;
        assert!(w.in_flight_count() <= CONCURRENCY_LIMIT);
    }
    assert_eq!(started, CONCURRENCY_LIMIT);
    assert_eq!(w.in_flight_count(), CONCURRENCY_LIMIT);
    assert_eq!(w.pending_count(), ids.len() - CONCURRENCY_LIMIT);
}

#[test]
fn all_items_resolve_under_interleaving() {
    let ids: Vec<u64> = (100..112).collect();
    let mut w = DrainWindow::new(ids.clone());
    let mut in_flight: Vec<u64> = Vec::new();
    let mut step = 0;
    loop {
        // Interleave: sometimes complete first, sometimes start first.
        if step % 3 == 0 && !in_flight.is_empty() {
            let id = in_flight.remove(step % in_flight.len());
            assert!(w.complete(id));
        } else if let Some(id) = w.start_next() {
            in_flight.push(id);
        } else if let Some(&id) = in_flight.first() {
            in_flight.remove(0);
            assert!(w.complete(id));
        } else {
            break;
        }
        assert!(w.in_flight_count() <= CONCURRENCY_LIMIT);
        step += 1;
    }
    assert_eq!(w.pending_count(), 0);
    assert_eq!(w.in_flight_count(), 0);
    let mut resolved = w.resolved_list().clone();
    resolved.sort();
    assert_eq!(resolved, ids, "every identifier is individually resolved");
}

#[test]
fn completing_an_unknown_id_changes_nothing() {
    let mut w = DrainWindow::new(vec![1, 2]);
    assert!(!w.complete(99));
    assert_eq!(w.pending_count(), 2);
    assert_eq!(w.resolved_list().len(), 0);
}
