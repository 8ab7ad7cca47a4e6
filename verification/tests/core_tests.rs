use bot::config::{
    default_jito_tip, default_max_retries, default_max_slippage, default_metrics_port, default_min_liquidity,
    default_nonce_count, default_nonce_pool_size, default_nonce_refresh_interval, default_rate_limit,
    default_rpc_timeout, default_stream_buffer_size, default_true, MonitoringConfig, NonceConfig, RpcConfig,
    SnifferConfig, WalletConfig,
};
use bot::metrics::{counter_for_name, histogram_for_name, CounterKind, LatencyHistogram, Timer};
use bot::observability::{CorrelationId, TraceContext};
use bot::security::validator::{
    check_duplicate_signature, is_system_address, validate_candidate, validate_mint, Candidate, SeenSignatures,
};
use bot::structured_logging::{LogLevel, PipelineContext, StructuredLogger};
use bot::Pubkey;

fn looks_like_uuid_v4(s: &str) -> bool {
    let b = s.as_bytes();
    b.len() == 36
        && b.iter().enumerate().all(|(i, c)| {
            if [8, 13, 18, 23].contains(&i) {
                *c == b'-'
            } else {
                c.is_ascii_digit() || (b'a'..=b'f').contains(c)
            }
        })
        && b[14] == b'4'
        && matches!(b[19], b'8' | b'9' | b'a' | b'b')
}

#[test]
fn config_defaults() {
    assert_eq!(default_rpc_timeout(), 30);
    assert_eq!(default_max_retries(), 3);
    assert_eq!(default_rate_limit(), 100);
    assert_eq!(default_max_slippage(), 500);
    assert_eq!(default_min_liquidity(), 1_000_000_000);
    assert_eq!(default_jito_tip(), 10_000);
    assert_eq!(default_nonce_pool_size(), 10);
    assert_eq!(default_nonce_refresh_interval(), 60);
    assert_eq!(default_stream_buffer_size(), 4096);
    assert_eq!(default_metrics_port(), 9090);
    assert!(default_true());
    assert_eq!(default_nonce_count(), 1);
    let rpc = RpcConfig::default_mainnet();
    assert_eq!(rpc.endpoints, vec!["https://api.mainnet-beta.solana.com".to_string()]);
    assert_eq!(WalletConfig::default_keypair().keypair_path, "~/.config/solana/id.json");
    assert_eq!(NonceConfig::default().pool_size, 10);
    assert_eq!(SnifferConfig::default_local().geyser_endpoint, "http://localhost:10000");
    assert_eq!(MonitoringConfig::default().metrics_port, 9090);
}

#[test]
fn correlation_ids() {
    let id = CorrelationId::new();
    assert!(looks_like_uuid_v4(id.as_str()));
    assert_ne!(CorrelationId::new(), id);
    assert_eq!(CorrelationId::from_string("abc".to_string()).as_str(), "abc");
    assert_eq!(CorrelationId::from("xyz".to_string()).as_str(), "xyz");
    assert_eq!(id.clone(), id);
}

#[test]
fn trace_contexts_chain_spans() {
    let root = TraceContext::new("buy");
    assert!(looks_like_uuid_v4(root.trace_id()));
    assert!(looks_like_uuid_v4(root.span_id()));
    assert!(root.parent_span_id.is_none());
    assert_eq!(root.operation, "buy");
    let child = root.child_span("sign");
    assert_eq!(child.trace_id(), root.trace_id());
    assert_ne!(child.span_id(), root.span_id());
    assert_eq!(child.parent_span_id.as_deref(), Some(root.span_id()));
    assert_eq!(child.correlation_id(), root.correlation_id());
    assert_eq!(TraceContext::default().operation, "default");
}

#[test]
fn pipeline_contexts_share_the_request() {
    let ctx = PipelineContext::new("pipeline");
    assert_eq!(ctx.correlation_id, ctx.request_id);
    let child = ctx.child("stage");
    assert_eq!(child.request_id, ctx.request_id);
    assert_eq!(child.parent_span_id.as_deref(), Some(ctx.span_id.as_str()));
    let rec = child.logger.warn("careful");
    assert_eq!(rec.context_id, ctx.request_id);
}

#[test]
fn log_records_carry_their_fields() {
    let logger = StructuredLogger::new("ctx-1".to_string());
    let r = logger.log_buy_attempt("MINT", 3);
    assert_eq!(r.level, LogLevel::Info);
    assert_eq!(r.message, "Attempting buy transaction");
    assert_eq!(r.context_id, "ctx-1");
    let fields: Vec<(&str, &str)> = r.fields.iter().map(|f| (f.key, f.value.as_str())).collect();
    assert_eq!(fields, vec![("mint", "MINT"), ("tx_count", "3")]);
    let r = logger.log_nonce_operation("lease", Some(42), false);
    let fields: Vec<(&str, &str)> = r.fields.iter().map(|f| (f.key, f.value.as_str())).collect();
    assert_eq!(fields, vec![("operation", "lease"), ("index", "Some(42)"), ("success", "false")]);
    let r = logger.log_nonce_operation("lease", None, true);
    assert_eq!(r.fields[1].value, "None");
    assert_eq!(logger.log_buy_failure("M", "boom", 1500).fields[2].value, "1500");
    assert_eq!(logger.log_buy_success("M", "SIG", 7).level, LogLevel::Info);
    assert_eq!(logger.log_candidate_processed("M", "pump.fun", true).fields[2].value, "true");
    assert_eq!(logger.error("bad").level, LogLevel::Error);
    let r = logger.log_sell_operation("M", &0.25f64.to_string(), &0.75f64.to_string());
    assert_eq!(r.message, "Sell operation");
    let fields: Vec<(&str, &str)> = r.fields.iter().map(|f| (f.key, f.value.as_str())).collect();
    assert_eq!(fields, vec![("mint", "M"), ("sell_percent", "0.25"), ("new_holdings_percent", "0.75")]);
}

#[test]
fn metric_names_map_to_metrics() {
    assert_eq!(counter_for_name("buy_attempts_total"), Some(CounterKind::TradesTotal));
    assert_eq!(counter_for_name("buy_attempts_filtered"), Some(CounterKind::CandidatesFiltered));
    assert_eq!(counter_for_name("nonce_enforce_paths"), Some(CounterKind::NonceEnforcePaths));
    assert_eq!(counter_for_name("unknown"), None);
    assert_eq!(histogram_for_name("buy_latency_seconds"), Some(LatencyHistogram::TradeLatency));
    assert_eq!(histogram_for_name("rpc_latency_seconds"), Some(LatencyHistogram::RpcLatency));
    assert_eq!(histogram_for_name("nope"), None);
}

#[test]
fn timers_record_only_into_known_histograms() {
    assert!(Timer::new().finish().is_none());
    assert!(Timer::with_name("nope").finish().is_none());
    let r = Timer::with_name("build_latency_seconds").finish();
    assert!(matches!(r, Some((LatencyHistogram::BuildLatency, _))));
}

#[test]
fn system_addresses_are_not_mints() {
    let system = Pubkey::new_from_array([0u8; 32]);
    assert!(is_system_address(&system));
    let token = Pubkey::new_from_array(bs58_32("TokenkegQfeZyiNwAJbNbGKPFXCWuBvf9Ss623VQ5DA"));
    assert!(is_system_address(&token));
    let ata = Pubkey::new_from_array(bs58_32("ATokenGPvbdGVxr1b2hvZbsiqW7xWH25efTNsLJA8knL"));
    assert!(is_system_address(&ata));
    let mint = Pubkey::new_from_array([7u8; 32]);
    assert!(validate_mint(&mint));
    let r = validate_candidate(&Candidate { mint: token, program: system });
    assert!(!r.is_valid());
    assert_eq!(r.issues, vec!["Invalid mint address".to_string()]);
    assert!(validate_candidate(&Candidate { mint, program: system }).is_valid());
}

fn bs58_32(s: &str) -> [u8; 32] {
    let v = bs58::decode(s).into_vec().unwrap();
    let mut a = [0u8; 32];
    a.copy_from_slice(&v);
    a
}

#[test]
fn duplicate_signatures_are_refused() {
    let mut seen = SeenSignatures::new();
    assert!(check_duplicate_signature(&mut seen, "sig1"));
    assert!(!check_duplicate_signature(&mut seen, "sig1"));
    assert!(check_duplicate_signature(&mut seen, "sig2"));
    assert_eq!(seen.len(), 2);
    assert!(seen.contains("sig2"));
}

#[test]
fn signature_memory_is_emptied_past_ten_thousand() {
    let mut seen = SeenSignatures::new();
    for i in 0..10_000 {
        assert!(check_duplicate_signature(&mut seen, &format!("s{}", i)));
    }
    assert_eq!(seen.len(), 10_000);
    assert!(check_duplicate_signature(&mut seen, "one more"));
    assert_eq!(seen.len(), 0);
    assert!(check_duplicate_signature(&mut seen, "s0"));
}

#[test]
fn correlation_ids_display_their_text() {
    assert_eq!(CorrelationId::from_string("abc".to_string()).to_string(), "abc");
}
