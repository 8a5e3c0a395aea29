use book_sync::book::{ApplyResult, BookSnapshot, DepthDiff, OrderBook, PriceLevel, Side};

fn level(price: u64, quantity: u64) -> PriceLevel {
    PriceLevel { price, quantity }
}

fn sample_snapshot() -> BookSnapshot {
    BookSnapshot {
        last_update_id: 10,
        bids: vec![level(100, 5)],
        asks: vec![level(101, 3)],
    }
}

#[test]
fn seeding_same_snapshot_twice_is_idempotent() {
    let snapshot = sample_snapshot();
    let mut first = OrderBook::new();
    first.seed(&snapshot);
    let mut second = OrderBook::new();
    second.seed(&snapshot);
    // Seeding the already-seeded book again must land on the same state.
    first.seed(&snapshot);
    assert_eq!(first.last_applied_update_id, second.last_applied_update_id);
    assert_eq!(first.side_len(Side::Bid), second.side_len(Side::Bid));
    assert_eq!(first.side_len(Side::Ask), second.side_len(Side::Ask));
    assert_eq!(first.get_quantity(Side::Bid, 100), Some(5));
    assert_eq!(second.get_quantity(Side::Bid, 100), Some(5));
    assert_eq!(first.get_quantity(Side::Ask, 101), Some(3));
    assert_eq!(second.get_quantity(Side::Ask, 101), Some(3));
}

#[test]
fn seeding_discards_previous_state() {
    let mut book = OrderBook::new();
    book.seed(&BookSnapshot {
        last_update_id: 4,
        bids: vec![level(90, 1), level(95, 2)],
        asks: vec![],
    });
    book.seed(&sample_snapshot());
    assert_eq!(book.get_quantity(Side::Bid, 90), None);
    assert_eq!(book.get_quantity(Side::Bid, 95), None);
    assert_eq!(book.get_quantity(Side::Bid, 100), Some(5));
    assert_eq!(book.last_applied_update_id, 10);
}

#[test]
fn gap_diff_is_rejected_and_book_untouched() {
    let mut book = OrderBook::new();
    book.seed(&sample_snapshot());
    let diff = DepthDiff {
        first_update_id: 13,
        final_update_id: 14,
        bids: vec![level(100, 9)],
        asks: vec![],
    };
    let result = book.apply_diff(&diff);
    assert_eq!(result, ApplyResult::Gap);
    assert_eq!(book.get_quantity(Side::Bid, 100), Some(5));
    assert_eq!(book.last_applied_update_id, 10);
}

#[test]
fn applicable_diff_advances_id_and_sets_levels() {
    let mut book = OrderBook::new();
    book.seed(&sample_snapshot());
    let diff = DepthDiff {
        first_update_id: 11,
        final_update_id: 12,
        bids: vec![level(100, 7), level(102, 4)],
        asks: vec![level(101, 0)],
    };
    let result = book.apply_diff(&diff);
    assert_eq!(result, ApplyResult::Applied);
    assert_eq!(book.last_applied_update_id, 12);
    assert_eq!(book.get_quantity(Side::Bid, 100), Some(7));
    assert_eq!(book.get_quantity(Side::Bid, 102), Some(4));
    assert_eq!(book.get_quantity(Side::Ask, 101), None);
    assert_eq!(book.side_len(Side::Ask), 0);
}

#[test]
fn overlapping_diff_is_applicable() {
    let mut book = OrderBook::new();
    book.seed(&sample_snapshot());
    // first_update_id at or below last + 1 and final beyond it: applicable.
    let diff = DepthDiff {
        first_update_id: 8,
        final_update_id: 11,
        bids: vec![level(99, 2)],
        asks: vec![],
    };
    assert_eq!(book.apply_diff(&diff), ApplyResult::Applied);
    assert_eq!(book.last_applied_update_id, 11);
    assert_eq!(book.get_quantity(Side::Bid, 99), Some(2));
}

#[test]
fn stale_diff_is_dropped() {
    let mut book = OrderBook::new();
    book.seed(&sample_snapshot());
    let diff = DepthDiff {
        first_update_id: 5,
        final_update_id: 9,
        bids: vec![level(100, 1)],
        asks: vec![],
    };
    assert_eq!(book.apply_diff(&diff), ApplyResult::Stale);
    assert_eq!(book.get_quantity(Side::Bid, 100), Some(5));
    assert_eq!(book.last_applied_update_id, 10);
}

#[test]
fn zero_quantity_removes_existing_level() {
    let mut book = OrderBook::new();
    book.seed(&sample_snapshot());
    let diff = DepthDiff {
        first_update_id: 11,
        final_update_id: 11,
        bids: vec![level(100, 0)],
        asks: vec![],
    };
    assert_eq!(book.apply_diff(&diff), ApplyResult::Applied);
    assert_eq!(book.get_quantity(Side::Bid, 100), None);
    assert_eq!(book.side_len(Side::Bid), 0);
}

#[test]
fn crossed_book_is_detected() {
    let mut book = OrderBook::new();
    assert!(!book.is_crossed());
    book.seed(&sample_snapshot());
    assert!(!book.is_crossed());
    // A bid at or above the best ask crosses the book.
    let diff = DepthDiff {
        first_update_id: 11,
        final_update_id: 11,
        bids: vec![level(101, 2)],
        asks: vec![],
    };
    assert_eq!(book.apply_diff(&diff), ApplyResult::Applied);
    assert!(book.is_crossed());
    // Removing the crossing bid uncrosses it again.
    let diff = DepthDiff {
        first_update_id: 12,
        final_update_id: 12,
        bids: vec![level(101, 0)],
        asks: vec![],
    };
    assert_eq!(book.apply_diff(&diff), ApplyResult::Applied);
    assert!(!book.is_crossed());
}

#[test]
fn no_operation_leaves_a_non_positive_quantity() {
    let mut book = OrderBook::new();
    book.seed(&BookSnapshot {
        last_update_id: 1,
        bids: vec![level(10, 1), level(11, 0), level(12, 3)],
        asks: vec![level(20, 2), level(21, 0)],
    });
    let diff = DepthDiff {
        first_update_id: 2,
        final_update_id: 2,
        bids: vec![level(10, 0), level(13, 4)],
        asks: vec![level(20, 0)],
    };
    assert_eq!(book.apply_diff(&diff), ApplyResult::Applied);
    for price in 0..30u64 {
        if let Some(quantity) = book.get_quantity(Side::Bid, price) {
            assert!(quantity > 0);
        }
        if let Some(quantity) = book.get_quantity(Side::Ask, price) {
            assert!(quantity > 0);
        }
    }
    assert_eq!(book.get_quantity(Side::Bid, 11), None);
    assert_eq!(book.get_quantity(Side::Bid, 12), Some(3));
    assert_eq!(book.get_quantity(Side::Bid, 13), Some(4));
    assert_eq!(book.get_quantity(Side::Ask, 21), None);
}
