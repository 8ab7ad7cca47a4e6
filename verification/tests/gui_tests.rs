use bot::gui::monitoring_gui::{
    short_mint, status_label, toggled_bot_state, MonitoringGui, MAX_PRICE_HISTORY,
};
use bot::components::price_stream::PriceUpdate;
use bot::position_tracker::PositionTracker;
use bot::Pubkey;
use std::sync::atomic::{AtomicU8, Ordering};
use std::sync::Arc;
use std::time::{SystemTime, UNIX_EPOCH};

fn now_secs() -> u64 {
    SystemTime::now().duration_since(UNIX_EPOCH).unwrap().as_secs()
}

fn create_test_price_update(mint: Pubkey, price: f64) -> PriceUpdate {
    PriceUpdate {
        mint,
        price_sol_bits: price.to_bits(),
        price_usd_bits: (price * 150.0).to_bits(),
        volume_24h_bits: 100_000.0f64.to_bits(),
        timestamp: now_secs(),
        source: "test".to_string(),
    }
}

fn update(gui: &mut MonitoringGui, mint: Pubkey, price: f64) {
    gui.update_price_history(create_test_price_update(mint, price));
}

#[test]
fn test_monitoring_gui_creation() {
    let gui = MonitoringGui::new();
    assert_eq!(gui.history_count(), 0);
    assert!(gui.selected_mint().is_none());
}

#[test]
fn test_update_price_history() {
    let mut gui = MonitoringGui::new();
    let mint = Pubkey::new_from_array([7; 32]);
    update(&mut gui, mint, 0.01);
    assert!(gui.price_history_of(&mint).is_some());
    assert_eq!(gui.price_history_of(&mint).unwrap().len(), 1);
}

#[test]
fn test_price_history_ring_buffer() {
    let mut gui = MonitoringGui::new();
    let mint = Pubkey::new_from_array([8; 32]);
    for i in 0..(MAX_PRICE_HISTORY + 100) {
        update(&mut gui, mint, 0.01 * (i as f64 + 1.0));
    }
    let history = gui.price_history_of(&mint).unwrap();
    assert_eq!(history.len(), MAX_PRICE_HISTORY);
    let last_price = f64::from_bits(history.last().unwrap().price_bits);
    assert!(last_price > 10.0);
}

#[test]
fn test_bot_state_control() {
    let bot_state = Arc::new(AtomicU8::new(0));
    let _gui = MonitoringGui::new();
    bot_state.store(1, Ordering::Relaxed);
    assert_eq!(bot_state.load(Ordering::Relaxed), 1);
    bot_state.store(2, Ordering::Relaxed);
    assert_eq!(bot_state.load(Ordering::Relaxed), 2);
}

#[test]
fn test_refresh_positions_cleanup() {
    let mut tracker = PositionTracker::new();
    let mut gui = MonitoringGui::new();
    let mint1 = Pubkey::new_from_array([1; 32]);
    let mint2 = Pubkey::new_from_array([2; 32]);
    update(&mut gui, mint1, 0.01);
    update(&mut gui, mint2, 0.02);
    assert_eq!(gui.history_count(), 2);
    tracker.record_buy(mint1, 1_000_000, 10_000_000);
    gui.refresh_positions(&tracker);
    assert_eq!(gui.history_count(), 1);
    assert!(gui.price_history_of(&mint1).is_some());
    assert!(gui.price_history_of(&mint2).is_none());
}

#[test]
fn test_selected_mint_cleanup() {
    let mut tracker = PositionTracker::new();
    let mut gui = MonitoringGui::new();
    let mint = Pubkey::new_from_array([3; 32]);
    tracker.record_buy(mint, 1_000_000, 10_000_000);
    gui.select_mint(Some(mint));
    tracker.record_sell(&mint, 1_000_000, 20_000_000);
    gui.refresh_positions(&tracker);
    assert!(gui.selected_mint().is_none());
}

#[test]
fn selection_stays_while_the_position_is_open() {
    let mut tracker = PositionTracker::new();
    let mut gui = MonitoringGui::new();
    let mint = Pubkey::new_from_array([4; 32]);
    tracker.record_buy(mint, 1_000_000, 10_000_000);
    gui.select_mint(Some(mint));
    update(&mut gui, mint, 0.5);
    gui.refresh_positions(&tracker);
    assert_eq!(gui.selected_mint(), Some(mint));
    assert_eq!(gui.history_count(), 1);
}

#[test]
fn control_panel_decisions() {
    assert_eq!(toggled_bot_state(1), 0);
    assert_eq!(toggled_bot_state(0), 1);
    assert_eq!(toggled_bot_state(2), 1);
    assert_eq!(status_label(0), "🔴 STOPPED");
    assert_eq!(status_label(1), "🟢 RUNNING");
    assert_eq!(status_label(2), "🟡 PAUSED");
    assert_eq!(status_label(9), "⚪ UNKNOWN");
    assert_eq!(short_mint("4vJ9JU1bJJE96FWSJKvHsmmFADCg4gpZQff4P3bkLKi"), "4vJ9...kLKi");
    assert_eq!(short_mint("abcdefgh"), "abcd...efgh");
    assert_eq!(short_mint("short"), "short");
}

#[test]
fn test_poll_price_updates() {
    let (tx, mut rx) = tokio::sync::broadcast::channel(100);
    let mut gui = MonitoringGui::new();
    let mint1 = Pubkey::new_from_array([21; 32]);
    let mint2 = Pubkey::new_from_array([22; 32]);
    let _ = tx.send(create_test_price_update(mint1, 0.01));
    let _ = tx.send(create_test_price_update(mint2, 0.02));
    gui.poll_price_updates(&mut rx);
    assert_eq!(gui.history_count(), 2);
    assert!(gui.price_history_of(&mint1).is_some());
    assert!(gui.price_history_of(&mint2).is_some());
    gui.poll_price_updates(&mut rx);
    assert_eq!(gui.price_history_of(&mint1).unwrap().len(), 1);
}
