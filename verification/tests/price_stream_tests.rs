use bot::components::price_stream::{PriceStreamManager, PriceUpdate};
use bot::Pubkey;
use std::sync::atomic::{AtomicU32, Ordering};
use std::sync::{Arc, Mutex};
use std::time::{Duration, SystemTime, UNIX_EPOCH};

static NEXT_KEY: AtomicU32 = AtomicU32::new(1);

fn new_unique() -> Pubkey {
    let n = NEXT_KEY.fetch_add(1, Ordering::Relaxed);
    let mut bytes = [0u8; 32];
    bytes[..4].copy_from_slice(&n.to_le_bytes());
    bytes[31] = 0xAB;
    Pubkey::new_from_array(bytes)
}

fn create_test_price_update(mint: Pubkey, price: f64) -> PriceUpdate {
    PriceUpdate {
        mint,
        price_sol_bits: price.to_bits(),
        price_usd_bits: (price * 150.0).to_bits(),
        volume_24h_bits: 100_000.0f64.to_bits(),
        timestamp: SystemTime::now().duration_since(UNIX_EPOCH).unwrap().as_secs(),
        source: "test".to_string(),
    }
}

fn runtime() -> tokio::runtime::Runtime {
    tokio::runtime::Builder::new_current_thread().enable_all().build().unwrap()
}

#[test]
fn test_price_stream_manager_creation() {
    let manager = PriceStreamManager::new(100, Duration::from_millis(333));
    assert_eq!(manager.update_interval(), Duration::from_millis(333));
    assert_eq!(manager.cache_size(), 0);
    assert_eq!(manager.subscriber_count(), 0);
}

#[test]
fn test_default_creation() {
    let manager = PriceStreamManager::default();
    assert_eq!(manager.update_interval(), Duration::from_millis(333));
    assert_eq!(manager.cache_size(), 0);
}

#[test]
fn test_publish_and_cache() {
    let mut manager = PriceStreamManager::new(100, Duration::from_millis(333));
    let mint = new_unique();
    let update = create_test_price_update(mint, 0.01);
    manager.publish_price(update.clone());
    assert_eq!(manager.cache_size(), 1);
    let cached = manager.get_cached_price(&mint).unwrap();
    assert_eq!(cached.mint, mint);
    assert_eq!(f64::from_bits(cached.price_sol_bits), 0.01);
    assert_eq!(cached.source, "test");
}

#[test]
fn test_cache_update() {
    let mut manager = PriceStreamManager::new(100, Duration::from_millis(333));
    let mint = new_unique();
    manager.publish_price(create_test_price_update(mint, 0.01));
    manager.publish_price(create_test_price_update(mint, 0.02));
    assert_eq!(manager.cache_size(), 1);
    let cached = manager.get_cached_price(&mint).unwrap();
    assert_eq!(f64::from_bits(cached.price_sol_bits), 0.02);
}

#[test]
fn test_multiple_tokens() {
    let mut manager = PriceStreamManager::new(100, Duration::from_millis(333));
    for i in 0..10 {
        let mint = new_unique();
        manager.publish_price(create_test_price_update(mint, 0.01 * (i as f64 + 1.0)));
    }
    assert_eq!(manager.cache_size(), 10);
}

#[test]
fn test_clear_cache() {
    let mut manager = PriceStreamManager::new(100, Duration::from_millis(333));
    let mint = new_unique();
    manager.publish_price(create_test_price_update(mint, 0.01));
    assert_eq!(manager.cache_size(), 1);
    manager.clear_cache();
    assert_eq!(manager.cache_size(), 0);
    assert!(manager.get_cached_price(&mint).is_none());
}

#[test]
fn test_subscribe_and_receive() {
    runtime().block_on(async {
        let mut manager = PriceStreamManager::new(100, Duration::from_millis(333));
        let mut rx = manager.subscribe();
        assert_eq!(manager.subscriber_count(), 1);
        let mint = new_unique();
        manager.publish_price(create_test_price_update(mint, 0.01));
        let received = rx.recv().await.unwrap();
        assert_eq!(received.mint, mint);
        assert_eq!(f64::from_bits(received.price_sol_bits), 0.01);
    });
}

#[test]
fn test_multiple_subscribers() {
    runtime().block_on(async {
        let mut manager = PriceStreamManager::new(100, Duration::from_millis(333));
        let mut rx1 = manager.subscribe();
        let mut rx2 = manager.subscribe();
        let mut rx3 = manager.subscribe();
        assert_eq!(manager.subscriber_count(), 3);
        let mint = new_unique();
        manager.publish_price(create_test_price_update(mint, 0.01));
        assert_eq!(rx1.recv().await.unwrap().mint, mint);
        assert_eq!(rx2.recv().await.unwrap().mint, mint);
        assert_eq!(rx3.recv().await.unwrap().mint, mint);
    });
}

#[test]
fn test_concurrent_publish() {
    runtime().block_on(async {
        let manager = Arc::new(Mutex::new(PriceStreamManager::new(1000, Duration::from_millis(333))));
        let mut handles = vec![];
        for _ in 0..10 {
            let manager_clone = Arc::clone(&manager);
            handles.push(tokio::spawn(async move {
                for _ in 0..100 {
                    let mint = new_unique();
                    manager_clone.lock().unwrap().publish_price(create_test_price_update(mint, 0.01));
                }
            }));
        }
        for handle in handles {
            handle.await.unwrap();
        }
        assert_eq!(manager.lock().unwrap().cache_size(), 1000);
    });
}

#[test]
fn test_subscribe_receive_latency() {
    runtime().block_on(async {
        let mut manager = PriceStreamManager::new(1000, Duration::from_millis(333));
        let mut rx = manager.subscribe();
        let mint = new_unique();
        let start = std::time::Instant::now();
        manager.publish_price(create_test_price_update(mint, 0.01));
        let received = rx.recv().await.unwrap();
        let latency = start.elapsed();
        assert!(latency < Duration::from_millis(10), "Latency too high: {:?}", latency);
        assert_eq!(received.mint, mint);
    });
}

#[test]
fn test_no_blocking_on_slow_subscriber() {
    let mut manager = PriceStreamManager::new(10, Duration::from_millis(333));
    let _slow_rx = manager.subscribe();
    for i in 0..100 {
        let mint = new_unique();
        manager.publish_price(create_test_price_update(mint, 0.01 * i as f64));
    }
    assert_eq!(manager.cache_size(), 100);
}

#[test]
fn test_get_cached_price_nonexistent() {
    let manager = PriceStreamManager::new(100, Duration::from_millis(333));
    let mint = new_unique();
    assert!(manager.get_cached_price(&mint).is_none());
}

#[test]
fn test_dropped_subscriber() {
    runtime().block_on(async {
        let manager = PriceStreamManager::new(100, Duration::from_millis(333));
        {
            let _rx = manager.subscribe();
            assert_eq!(manager.subscriber_count(), 1);
        }
        tokio::time::sleep(Duration::from_millis(10)).await;
        assert_eq!(manager.subscriber_count(), 0);
    });
}
