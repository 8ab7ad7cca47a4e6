use bot::buy_engine::on_send_failure;
use bot::engine::{ExponentialBackoff, SendDecision};
use bot::clock::{nanos_to_micros, nanos_to_millis, nanos_to_secs, nanos_to_secs_u64};
use base64::Engine;
use bot::pubkey::ParsePubkeyError;
use bot::security::validator::{validate_transaction, VersionedTransaction};
use bot::security::validator::{validate_signature, ParseSignatureError};
use bot::account_list::AccountList;
use bot::buy_engine::{
    security_failure_counter, validate_candidate_universe, SecurityFailure,
    clamp_tip, endpoints_by_priority, median_fee, record_recent_fee, BlockhashManager, CrossChainConfig, HardwareAcceleratedValidator, JitoEndpoint,
    PredictiveAnalytics, QueueFull, QueuedTransaction, TaintTracker, TransactionQueue, UniverseMetrics, ZKProofValidator,
};
use bot::security::validator::{check_mint_rate_limit, MintRateLimiter};
use bot::sniffer::errors::SnifferError;
use bot::sniffer::extractor::{PremintCandidate, PriorityLevel};
use bot::sniffer::stream::{mock_transaction, MockStreamReceiver, RetryStep, SubscribeRetry};
use bot::stats::{p99, sample_at_rank, sort_samples};
use bot::streaming::geyser_stream::{GeyserConfig, GeyserStream};
use bot::streaming::websocket_stream::{ProgramUpdate, SignatureUpdate, UiAccountData, UiAccountEncoding};
use bot::Pubkey;
use std::sync::atomic::AtomicBool;
use std::sync::Arc;
use std::time::Duration;

fn queued(id: u8, created_at_us: u128) -> QueuedTransaction<u8> {
    QueuedTransaction {
        tx: id,
        candidate: PremintCandidate::new(
            Pubkey::new_from_array([id; 32]),
            AccountList::new(),
            0,
            id as u64,
            PriorityLevel::Low,
        ),
        created_at_us,
        blockhash_fetch_us: Some(created_at_us),
        attempts: 0,
        correlation_id: format!("c{}", id),
    }
}

#[test]
fn transaction_queue_is_bounded_and_fifo() {
    let mut q = TransactionQueue::new(2);
    assert!(q.push(queued(1, 0)).is_ok());
    assert!(q.push(queued(2, 0)).is_ok());
    assert_eq!(q.push(queued(3, 0)), Err(QueueFull));
    assert_eq!(q.len(), 2);
    assert_eq!(q.pop().map(|t| t.tx), Some(1));
    assert_eq!(q.pop().map(|t| t.tx), Some(2));
    assert!(q.pop().is_none());
}

#[test]
fn stale_transactions_are_cleared_in_order() {
    let mut q = TransactionQueue::new(10);
    for (id, t) in [(1u8, 0u128), (2, 5_000_000), (3, 1_000), (4, 9_000_000)] {
        q.push(queued(id, t)).unwrap();
    }
    let removed = q.clear_stale(10_000_000, 6_000_000);
    assert_eq!(removed, 2);
    assert_eq!(q.pop().map(|t| t.tx), Some(2));
    assert_eq!(q.pop().map(|t| t.tx), Some(4));
}

fn ep(region: &str, priority: u8) -> JitoEndpoint {
    JitoEndpoint { region: region.to_string(), url: format!("https://{}", region), priority }
}

#[test]
fn jito_endpoints_are_tried_by_priority() {
    let eps = vec![ep("Tokyo", 3), ep("NY", 1), ep("Amsterdam", 2), ep("Frankfurt", 1)];
    let order: Vec<String> = endpoints_by_priority(&eps).into_iter().map(|e| e.region).collect();
    assert_eq!(order, vec!["NY", "Frankfurt", "Amsterdam", "Tokyo"]);
}

#[test]
fn dynamic_tip_parts() {
    assert_eq!(median_fee(&[]), None);
    assert_eq!(median_fee(&[30, 10, 20]), Some(20));
    assert_eq!(median_fee(&[40, 10, 30, 20]), Some(30));
    assert_eq!(clamp_tip(5, 10_000, 1_000_000), 10_000);
    assert_eq!(clamp_tip(50_000, 10_000, 1_000_000), 50_000);
    assert_eq!(clamp_tip(5_000_000, 10_000, 1_000_000), 1_000_000);
}

#[test]
fn order_statistics() {
    assert_eq!(sort_samples(&[5, 3, 9, 3, 1]), vec![1, 3, 3, 5, 9]);
    assert_eq!(sample_at_rank(&[5, 3, 9], 0), Some(3));
    assert_eq!(sample_at_rank(&[5, 3, 9], 7), Some(9));
    assert_eq!(sample_at_rank(&[], 0), None);
    let v: Vec<u64> = (1..=200).rev().collect();
    assert_eq!(p99(&v), Some(199));
    assert_eq!(p99(&[42]), Some(42));
    assert_eq!(p99(&[]), None);
}

#[test]
fn mint_requests_are_limited_per_window() {
    let mut l = MintRateLimiter::new();
    let mint = Pubkey::new_from_array([7; 32]);
    assert!(l.check_at(&mint, 0, 60_000_000, 2));
    assert!(l.check_at(&mint, 1_000_000, 60_000_000, 2));
    assert!(!l.check_at(&mint, 2_000_000, 60_000_000, 2));
    assert!(l.check_at(&mint, 61_000_000, 60_000_000, 2));
    let other = Pubkey::new_from_array([8; 32]);
    assert!(check_mint_rate_limit(&mut l, &other, 60, 1));
    assert!(!check_mint_rate_limit(&mut l, &other, 60, 1));
}

#[test]
fn validators_accept_and_cache() {
    let mut hw = HardwareAcceleratedValidator::new(16);
    assert_eq!(hw.verify_signatures_batch(&["a".to_string(), "b".to_string(), "a".to_string()]), vec![true, true, true]);
    hw.clear_cache();
    let mut zk = ZKProofValidator::new();
    assert!(zk.validate_candidate_zk("mint1", &[]));
    assert!(zk.validate_candidate_zk("mint1", &[1, 2]));
}

#[test]
fn untrusted_sources_are_recorded() {
    let mut t = TaintTracker::new(vec!["candidate_stream".to_string()]);
    assert!(t.track_input("candidate_stream", "x"));
    assert!(!t.is_tainted("candidate_stream"));
    assert!(!t.track_input("rogue", "a"));
    assert!(!t.track_input("rogue", "b"));
    assert!(t.is_tainted("rogue"));
    assert_eq!(t.get_tainted_inputs("rogue"), Some(vec!["a".to_string(), "b".to_string()]));
    assert_eq!(t.get_tainted_inputs("nobody"), None);
}

#[test]
fn surge_averages_need_ten_volumes() {
    let mut a = PredictiveAnalytics::new(Duration::from_secs(3600));
    for v in 1..=9u64 {
        a.record_volume(v);
    }
    assert_eq!(a.surge_averages(), None);
    a.record_volume(10);
    // recent: 6..=10 -> 8, older: 1..=5 -> 3
    assert_eq!(a.surge_averages(), Some((8, 3)));
    a.set_confidence(42);
    assert_eq!(a.get_confidence(), 42);
    let mut z = PredictiveAnalytics::new(Duration::from_secs(3600));
    for v in [0u64, 0, 0, 0, 0, 5, 5, 5, 5, 5] {
        z.record_volume(v);
    }
    assert_eq!(z.surge_averages(), None);
}

#[test]
fn cross_chain_defaults() {
    let c = CrossChainConfig::default();
    assert!(!c.wormhole_enabled);
    assert_eq!(c.supported_chains.len(), 2);
    assert_eq!(c.supported_chains[1].chain_id, 56);
    assert!(c.bridge_contracts.is_empty());
}

#[test]
fn enabling_chains_turns_on_the_bridge_and_the_first_matching_chain() {
    let mut c = CrossChainConfig::default();
    c.supported_chains.push(bot::buy_engine::ChainConfig {
        chain_id: 56,
        name: "BSC-backup".to_string(),
        rpc_url: "https://example.invalid/".to_string(),
        enabled: false,
    });
    c.enable_cross_chain(vec![56, 999]);
    assert!(c.wormhole_enabled);
    assert!(!c.supported_chains[0].enabled);
    assert!(c.supported_chains[1].enabled);
    // only the first chain with an id is enabled
    assert!(!c.supported_chains[2].enabled);
    assert_eq!(c.supported_chains[1].name, "BSC");
}

#[test]
fn cross_chain_status_lists_each_key_once() {
    let mut c = CrossChainConfig::default();
    let s = c.get_cross_chain_status();
    assert_eq!(
        s,
        vec![
            ("wormhole_enabled".to_string(), false),
            ("chain_Ethereum".to_string(), false),
            ("chain_BSC".to_string(), false),
        ]
    );
    c.supported_chains.push(bot::buy_engine::ChainConfig {
        chain_id: 7,
        name: "Ethereum".to_string(),
        rpc_url: String::new(),
        enabled: true,
    });
    c.enable_cross_chain(vec![1]);
    let s = c.get_cross_chain_status();
    // the key set last wins
    assert_eq!(
        s,
        vec![
            ("wormhole_enabled".to_string(), true),
            ("chain_Ethereum".to_string(), true),
            ("chain_BSC".to_string(), false),
        ]
    );
}

#[test]
fn security_validation_passes_trusted_candidates_only() {
    let mint = Pubkey::new_from_array([1; 32]);
    let mut taint = TaintTracker::new(vec!["candidate_stream".to_string()]);
    let mut zk = ZKProofValidator::new();
    let mut hw = HardwareAcceleratedValidator::new(8);
    assert_eq!(validate_candidate_universe(&mut taint, &mut zk, &mut hw, &mint), Ok(()));
    assert!(!taint.is_tainted("candidate_stream"));

    let mut strict = TaintTracker::new(vec![]);
    assert_eq!(
        validate_candidate_universe(&mut strict, &mut zk, &mut hw, &mint),
        Err(SecurityFailure::TaintedInput)
    );
    assert_eq!(
        strict.get_tainted_inputs("candidate_stream"),
        Some(vec!["4vJ9JU1bJJE96FWSJKvHsmmFADCg4gpZQff4P3bkLKi".to_string()])
    );
    assert_eq!(security_failure_counter(SecurityFailure::TaintedInput), "security_tainted_input");
    assert_eq!(security_failure_counter(SecurityFailure::ZkProofFailed), "security_zk_failed");
    assert_eq!(security_failure_counter(SecurityFailure::SignatureFailed), "security_sig_failed");
}

#[test]
fn stand_in_stream_yields_until_stopped() {
    let running = Arc::new(AtomicBool::new(true));
    let mut r = MockStreamReceiver::new(running.clone());
    let tx = r.recv().unwrap();
    assert_eq!(tx.len(), 256);
    assert_eq!(tx, mock_transaction());
    running.store(false, std::sync::atomic::Ordering::Relaxed);
    assert!(r.recv().is_none());
}

#[test]
fn subscription_retries_then_gives_up() {
    let mut s = SubscribeRetry::new(3, 100, 5000);
    assert!(matches!(s.next_step(true), RetryStep::Attempt));
    assert!(matches!(s.next_step(false), RetryStep::GiveUp(SnifferError::ShutdownRequested)));
    assert!(s.can_fail());
    let d = s.on_failure().unwrap();
    assert!(d.as_millis() >= 80 && d.as_millis() < 120);
    assert!(s.on_failure().is_some());
    assert!(s.on_failure().is_none());
    assert!(matches!(s.next_step(true), RetryStep::GiveUp(SnifferError::RetryLimitExceeded(3))));
    assert!(!s.can_fail());
}

#[test]
fn stream_types() {
    let g = GeyserStream::new(GeyserConfig { endpoint: "http://geyser".to_string(), x_token: None });
    assert_eq!(g.endpoint(), "http://geyser");
    let u = SignatureUpdate::from_response(7, "sig".to_string());
    assert_eq!(u.signature, "sig");
    assert_eq!(u.slot, 7);
    assert!(u.err.is_none());
}

#[test]
fn blockhash_freshness() {
    let mut m = BlockhashManager::new(60_000);
    assert!(m.get_fresh_blockhash().is_none());
    assert!(!m.is_fresh());
    assert!(m.get_age_ms().is_none());
    m.update_blockhash([9; 32], 1234);
    assert_eq!(m.get_fresh_blockhash(), Some([9; 32]));
    assert!(m.is_fresh());
    assert!(m.get_age_ms().unwrap() < 60_000);
    let mut stale = BlockhashManager::new(0);
    stale.update_blockhash([1; 32], 1);
    assert!(stale.get_fresh_blockhash().is_none());
}

#[test]
fn prometheus_export_of_engine_metrics() {
    let mut m = UniverseMetrics::new();
    assert_eq!(
        m.export_prometheus_metrics(),
        "buy_engine_simulation_failures 0\nbuy_engine_simulation_critical_failures 0\nbuy_engine_inflight_queue_depth 0\nbuy_engine_mempool_rejections 0\n"
    );
    for x in 1..=10u64 {
        m.record_latency("sniff_to_buy", x * 10);
    }
    m.record_rpc_error("RateLimit");
    m.record_rpc_error("RateLimit");
    m.record_simulation_failure(true);
    m.increment_inflight();
    m.record_mempool_rejection();
    let text = m.export_prometheus_metrics();
    assert_eq!(
        text,
        "buy_engine_sniff_to_buy_p50_us 60\nbuy_engine_sniff_to_buy_p90_us 100\nbuy_engine_sniff_to_buy_p99_us 100\nbuy_engine_rpc_errors{class=\"RateLimit\"} 2\nbuy_engine_simulation_failures 1\nbuy_engine_simulation_critical_failures 1\nbuy_engine_inflight_queue_depth 1\nbuy_engine_mempool_rejections 1\n"
    );
}

#[test]
fn test_mock_stream_receiver() {
    let running = Arc::new(AtomicBool::new(true));
    let mut receiver = MockStreamReceiver::new(running.clone());
    let bytes = receiver.recv();
    assert!(bytes.is_some());
    assert_eq!(bytes.unwrap().len(), 256);
    running.store(false, std::sync::atomic::Ordering::Relaxed);
    let bytes = receiver.recv();
    assert!(bytes.is_none());
}

#[test]
fn recent_fees_keep_the_last_hundred() {
    let mut fees = bot::engine::SampleHistory::<u64>::new(100);
    for f in 0..150u64 {
        record_recent_fee(&mut fees, f);
    }
    let v = fees.to_vec();
    assert_eq!(v.len(), 100);
    assert_eq!(v[0], 50);
    assert_eq!(v[99], 149);
    assert_eq!(median_fee(&v), Some(100));
}

#[test]
fn placeholder_taint_tracking_accepts_anything() {
    let t = bot::security::TaintTracker::new();
    t.track("anywhere", &[1, 2, 3]);
}

#[test]
fn signatures_parse_from_base58() {
    let bytes: Vec<u8> = (0u8..64).collect();
    let text = bs58::encode(&bytes).into_string();
    assert_eq!(validate_signature(&text), Ok(bytes));
    assert_eq!(validate_signature(&"1".repeat(64)), Ok(vec![0u8; 64]));
    assert_eq!(validate_signature(&"2".repeat(89)), Err(ParseSignatureError::WrongSize));
    assert_eq!(validate_signature("abc"), Err(ParseSignatureError::WrongSize));
    assert_eq!(validate_signature("0OIl"), Err(ParseSignatureError::Invalid));
    assert_eq!(validate_signature("é"), Err(ParseSignatureError::Invalid));
    assert_eq!(validate_signature(""), Err(ParseSignatureError::WrongSize));
    assert_eq!(
        ParseSignatureError::WrongSize.message(),
        "Invalid signature: string decoded to wrong size for signature"
    );
    assert_eq!(ParseSignatureError::Invalid.message(), "Invalid signature: failed to decode string to signature");
}

#[test]
fn transactions_need_a_signature() {
    let unsigned = VersionedTransaction { signatures: vec![] };
    assert_eq!(validate_transaction(&unsigned), Err("Transaction has no signatures".to_string()));
    let signed = VersionedTransaction { signatures: vec![vec![1u8; 64]] };
    assert_eq!(validate_transaction(&signed), Ok(()));
}

#[test]
fn keys_parse_from_base58() {
    let bytes = [9u8; 32];
    let text = bs58::encode(bytes).into_string();
    assert_eq!(Pubkey::from_str(&text).map(|k| k.to_bytes()), Ok(bytes));
    assert_eq!(
        Pubkey::from_str("11111111111111111111111111111111").map(|k| k.to_bytes()),
        Ok([0u8; 32])
    );
    assert_eq!(Pubkey::from_str(&"2".repeat(45)).map(|k| k.to_bytes()), Err(ParsePubkeyError::WrongSize));
    assert_eq!(Pubkey::from_str("abc").map(|k| k.to_bytes()), Err(ParsePubkeyError::WrongSize));
    assert_eq!(Pubkey::from_str("0abc").map(|k| k.to_bytes()), Err(ParsePubkeyError::Invalid));
}

#[test]
fn program_updates_decode_their_account() {
    let key = [5u8; 32];
    let key_text = bs58::encode(key).into_string();
    let data = base64::engine::general_purpose::STANDARD.encode([1u8, 2, 3, 250]);
    let u = ProgramUpdate::from_response(&key_text, UiAccountData::Binary(data.clone(), UiAccountEncoding::Base64), 42);
    assert_eq!(u.pubkey.to_bytes(), key);
    assert_eq!(u.account_data, vec![1u8, 2, 3, 250]);
    assert_eq!(u.slot, 42);
    let legacy = ProgramUpdate::from_response(&key_text, UiAccountData::LegacyBinary(data), 1);
    assert_eq!(legacy.account_data, vec![1u8, 2, 3, 250]);
    let json = ProgramUpdate::from_response("not a key!", UiAccountData::Json, 3);
    assert_eq!(json.pubkey.to_bytes(), [0u8; 32]);
    assert!(json.account_data.is_empty());
    let bad = ProgramUpdate::from_response(&key_text, UiAccountData::Binary("@@@".to_string(), UiAccountEncoding::Base58), 4);
    assert!(bad.account_data.is_empty());
}

#[test]
fn blockhash_freshness_by_age() {
    let mut m = BlockhashManager::new(30_000);
    assert_eq!(m.fresh_at(0), None);
    assert!(!m.is_fresh_at(0));
    m.update_blockhash([4u8; 32], 10);
    assert_eq!(m.fresh_at(29_999), Some([4u8; 32]));
    assert!(m.is_fresh_at(29_999));
    assert_eq!(m.fresh_at(30_000), None);
    assert!(!m.is_fresh_at(30_000));
}

#[test]
fn stale_volumes_are_forgotten_by_age() {
    let mut a = PredictiveAnalytics::new(Duration::from_secs(3600));
    let now = std::time::Instant::now();
    a.record_volume_at(&vec![], 100, 1, now);
    a.record_volume_at(&vec![50], 100, 2, now);
    a.record_volume_at(&vec![150, 90], 100, 3, now);
    assert_eq!(bot::buy_engine::count_stale(&vec![150, 120, 90, 200], 100), 2);
    assert_eq!(bot::buy_engine::count_stale(&vec![10, 200], 100), 0);
    a.record_volume_at(&vec![200, 200], 100, 4, now);
    for v in 5..=13 {
        a.record_volume_at(&vec![0; (v - 4) as usize], 100, v, now);
    }
    // 4..=13 remain: ten volumes, averages of 9..=13 and 4..=8
    assert_eq!(a.surge_averages(), Some((11, 6)));
}

#[test]
fn a_failed_send_leaves_the_depth_and_counts_its_class() {
    let mut m = UniverseMetrics::new();
    m.increment_inflight();
    m.record_simulation_failure(false);
    let depth = m.get_inflight_depth();
    m.increment_inflight();
    m.record_rpc_error("Permanent");
    m.decrement_inflight();
    assert_eq!(m.get_inflight_depth(), depth);
    assert_eq!(UniverseMetrics::count(&m.rpc_error_counts, "Permanent"), 1);
    assert_eq!(m.simulate_failures, 1);
    assert_eq!(m.mempool_rejections, 0);
    m.record_mempool_rejection();
    assert_eq!(m.simulate_failures, 1);
    assert!(m.export_prometheus_metrics().contains("buy_engine_rpc_errors{class=\"Permanent\"} 1\n"));
}

#[test]
fn an_unretryable_send_failure_ends_the_send_and_its_flight() {
    let backoff = ExponentialBackoff::new(100, 10_000, 5);
    let mut m = UniverseMetrics::new();
    m.increment_inflight();
    let depth = m.get_inflight_depth();
    m.increment_inflight();
    let d = on_send_failure(&mut m, &backoff, 0, "Invalid transaction: malformed", 0, 3);
    assert_eq!(d, SendDecision::GiveUp);
    assert_eq!(m.get_inflight_depth(), depth);
    assert_eq!(UniverseMetrics::count(&m.rpc_error_counts, "Permanent"), 1);

    m.increment_inflight();
    let d = on_send_failure(&mut m, &backoff, 1, "connection refused", 2, 3);
    assert_eq!(d, SendDecision::Rotate(0));
    assert_eq!(m.get_inflight_depth(), depth + 1);
    assert_eq!(UniverseMetrics::count(&m.rpc_error_counts, "NetworkError"), 1);

    let d = on_send_failure(&mut m, &backoff, 2, "Blockhash not found", 0, 3);
    assert_eq!(d, SendDecision::BlockhashExpired);
    assert_eq!(m.get_inflight_depth(), depth);
    let d = on_send_failure(&mut m, &backoff, 5, "rate limit", 0, 3);
    assert_eq!(d, SendDecision::GiveUp);
}

#[test]
fn nanoseconds_convert_to_coarser_units() {
    assert_eq!(nanos_to_micros(1_999), 1);
    assert_eq!(nanos_to_millis(2_500_000), 2);
    assert_eq!(nanos_to_secs(3_999_999_999), 3);
    assert_eq!(nanos_to_secs_u64(u128::MAX), u64::MAX);
}
