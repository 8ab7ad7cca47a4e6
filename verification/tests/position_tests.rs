use bot::position_tracker::{ActivePosition, LastPrice, PositionTracker};
use bot::Pubkey;
use std::time::Instant;

fn unique_key(i: u32) -> Pubkey {
    let mut b = [0u8; 32];
    b[0..4].copy_from_slice(&i.to_be_bytes());
    for (k, x) in b.iter_mut().enumerate().skip(4) {
        *x = (k as u8).wrapping_mul(31).wrapping_add(i as u8) | 1;
    }
    Pubkey::new_from_array(b)
}

#[test]
fn test_active_position_remaining_amount() {
    let mut pos = ActivePosition {
        mint: unique_key(1),
        entry_timestamp: 0,
        initial_token_amount: 1_000_000,
        initial_sol_cost: 10_000_000,
        sold_token_amount: 300_000,
        total_sol_from_sales: 5_000_000,
        last_seen_price: LastPrice::Quote { price_bits: 0.00000001f64.to_bits() },
        last_update: Instant::now(),
    };
    assert_eq!(pos.remaining_token_amount(), 700_000);
    pos.sold_token_amount = 1_000_000;
    assert_eq!(pos.remaining_token_amount(), 0);
    pos.sold_token_amount = 1_500_000;
    assert_eq!(pos.remaining_token_amount(), 0);
}

#[test]
fn test_position_tracker_new() {
    let tracker = PositionTracker::new();
    assert_eq!(tracker.position_count(), 0);
}

#[test]
fn test_position_tracker_default() {
    let tracker = PositionTracker::default();
    assert_eq!(tracker.position_count(), 0);
}

#[test]
fn test_position_tracker_record_buy() {
    let mut tracker = PositionTracker::new();
    let mint = unique_key(2);
    tracker.record_buy(mint, 1_000_000, 10_000_000);
    assert_eq!(tracker.position_count(), 1);
    assert!(tracker.has_position(&mint));
    let pos = tracker.get_position(&mint).unwrap();
    assert!(pos.mint == mint);
    assert_eq!(pos.initial_token_amount, 1_000_000);
    assert_eq!(pos.initial_sol_cost, 10_000_000);
    assert_eq!(pos.sold_token_amount, 0);
    assert_eq!(pos.last_seen_price, LastPrice::Trade { sol_lamports: 10_000_000, token_amount: 1_000_000 });
}

#[test]
fn test_position_tracker_record_sell() {
    let mut tracker = PositionTracker::new();
    let mint = unique_key(3);
    tracker.record_buy(mint, 1_000_000, 10_000_000);
    let result = tracker.record_sell(&mint, 300_000, 5_000_000);
    assert!(result);
    let pos = tracker.get_position(&mint).unwrap();
    assert_eq!(pos.sold_token_amount, 300_000);
    assert_eq!(pos.total_sol_from_sales, 5_000_000);
    assert_eq!(pos.remaining_token_amount(), 700_000);
    assert_eq!(pos.last_seen_price, LastPrice::Trade { sol_lamports: 5_000_000, token_amount: 300_000 });
}

#[test]
fn test_position_tracker_full_sell() {
    let mut tracker = PositionTracker::new();
    let mint = unique_key(4);
    tracker.record_buy(mint, 1_000_000, 10_000_000);
    tracker.record_sell(&mint, 1_000_000, 20_000_000);
    assert_eq!(tracker.position_count(), 0);
    assert!(!tracker.has_position(&mint));
}

#[test]
fn test_position_tracker_sell_nonexistent() {
    let mut tracker = PositionTracker::new();
    let mint = unique_key(5);
    let result = tracker.record_sell(&mint, 100_000, 1_000_000);
    assert!(!result);
}

#[test]
fn test_position_tracker_update_price() {
    let mut tracker = PositionTracker::new();
    let mint = unique_key(6);
    tracker.record_buy(mint, 1_000_000, 10_000_000);
    let result = tracker.update_price(&mint, 0.00000002f64.to_bits());
    assert!(result);
    let pos = tracker.get_position(&mint).unwrap();
    assert_eq!(pos.last_seen_price, LastPrice::Quote { price_bits: 0.00000002f64.to_bits() });
    assert!(!tracker.update_price(&unique_key(60), 1.0f64.to_bits()));
}

#[test]
fn test_position_tracker_multiple_positions() {
    let mut tracker = PositionTracker::new();
    for i in 0..10u64 {
        let mint = unique_key(100 + i as u32);
        tracker.record_buy(mint, 1_000_000 * (i + 1), 10_000_000 * (i + 1));
    }
    assert_eq!(tracker.position_count(), 10);
    let positions = tracker.get_all_positions();
    assert_eq!(positions.len(), 10);
}

#[test]
fn test_position_tracker_remove_position() {
    let mut tracker = PositionTracker::new();
    let mint = unique_key(7);
    tracker.record_buy(mint, 1_000_000, 10_000_000);
    let removed = tracker.remove_position(&mint);
    assert!(removed.is_some());
    assert_eq!(tracker.position_count(), 0);
}

#[test]
fn test_position_tracker_clear_all() {
    let mut tracker = PositionTracker::new();
    for i in 0..5 {
        tracker.record_buy(unique_key(200 + i), 1_000_000, 10_000_000);
    }
    assert_eq!(tracker.position_count(), 5);
    tracker.clear_all();
    assert_eq!(tracker.position_count(), 0);
}

#[test]
fn buying_again_replaces_the_position() {
    let mut tracker = PositionTracker::new();
    let mint = unique_key(8);
    tracker.record_buy(mint, 10, 100);
    tracker.record_sell(&mint, 4, 50);
    tracker.record_buy(mint, 0, 0);
    let pos = tracker.get_position(&mint).unwrap();
    assert_eq!(pos.sold_token_amount, 0);
    assert_eq!(pos.last_seen_price, LastPrice::Quote { price_bits: 0 });
    assert_eq!(tracker.position_count(), 1);
}

fn runtime() -> tokio::runtime::Runtime {
    tokio::runtime::Builder::new_multi_thread().worker_threads(4).enable_all().build().unwrap()
}

#[test]
fn test_concurrent_position_updates() {
    runtime().block_on(async {
        let tracker = std::sync::Arc::new(std::sync::Mutex::new(PositionTracker::new()));
        let mut handles = vec![];
        let mints: Vec<Pubkey> = (0..10).map(unique_key).collect();
        for mint in &mints {
            tracker.lock().unwrap().record_buy(*mint, 1_000_000, 10_000_000);
        }
        for _ in 0..10 {
            let tracker_clone = std::sync::Arc::clone(&tracker);
            let mints_clone = mints.clone();
            handles.push(tokio::spawn(async move {
                for mint in mints_clone {
                    tracker_clone.lock().unwrap().update_price(&mint, 0.00000002f64.to_bits());
                    tracker_clone.lock().unwrap().record_sell(&mint, 1000, 20_000);
                }
            }));
        }
        for handle in handles {
            handle.await.unwrap();
        }
        let tracker = tracker.lock().unwrap();
        assert_eq!(tracker.position_count(), 10);
        for mint in &mints {
            let pos = tracker.get_position(mint).unwrap();
            assert_eq!(pos.sold_token_amount, 10_000);
            assert_eq!(pos.total_sol_from_sales, 200_000);
        }
    });
}

#[test]
fn test_concurrent_buy_sell_operations() {
    runtime().block_on(async {
        let tracker = std::sync::Arc::new(std::sync::Mutex::new(PositionTracker::new()));
        let mint = unique_key(77);
        tracker.lock().unwrap().record_buy(mint, 10_000_000, 100_000_000);
        let mut handles = vec![];
        for i in 0..20 {
            let tracker_clone = std::sync::Arc::clone(&tracker);
            handles.push(tokio::spawn(async move {
                if i % 2 == 0 {
                    tracker_clone.lock().unwrap().record_sell(&mint, 100_000, 1_000_000);
                } else {
                    tracker_clone.lock().unwrap().update_price(&mint, (0.00000001 * (i as f64 + 1.0)).to_bits());
                }
            }));
        }
        for handle in handles {
            handle.await.unwrap();
        }
        let tracker = tracker.lock().unwrap();
        assert!(tracker.has_position(&mint));
        let pos = tracker.get_position(&mint).unwrap();
        assert_eq!(pos.sold_token_amount, 1_000_000);
    });
}
