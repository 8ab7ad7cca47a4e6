use bot::sniffer::security::{verify_request, VerificationRequest};
use bot::account_list::AccountList;
use bot::sniffer::dataflow::{SnifferEvent, ValidatedCandidate};
use bot::sniffer::errors::{AccountExtractError, ExponentialBackoff, MintExtractError};
use bot::sniffer::extractor::{ExtractError, PremintCandidate, PriorityLevel};
use bot::sniffer::pipeline::{process_transaction, EventCollector, TxOutcome};
use bot::sniffer::prefilter::{
    contains_account_fast, contains_program_id_fast, instr_count_check, is_vote_tx, small_signature_match, PUMP_FUN_PROGRAM_ID, SPL_TOKEN_PROGRAM_ID,
};
use bot::sniffer::security::{
    check_tx_size, is_suspicious_pubkey, is_valid_candidate, is_valid_pubkey, quick_sanity_check,
    verify_candidate_deep,
};
use bot::sniffer::supervisor::SnifferState;
use bot::sniffer::telemetry::{HandoffDiagnostics, SnifferMetrics};
use bot::Pubkey;
use std::time::Instant;

/// A key shaped like a freshly made unique test key: a big-endian counter
/// in the first four bytes, pseudorandom bytes after it.
fn unique_key(i: u32) -> Pubkey {
    let mut b = [0u8; 32];
    b[0..4].copy_from_slice(&i.to_be_bytes());
    for (k, x) in b.iter_mut().enumerate().skip(4) {
        *x = (k as u8).wrapping_mul(37).wrapping_add(i as u8) | 1;
    }
    Pubkey::new_from_array(b)
}

fn one_account() -> AccountList {
    let mut a = AccountList::new();
    a.push(unique_key(900));
    a
}

#[test]
fn test_sniffer_event_trace_id() {
    let event = SnifferEvent::BytesReceived { trace_id: 123, timestamp: Instant::now(), size: 256 };
    assert_eq!(event.trace_id(), 123);
    assert_eq!(event.event_type(), "bytes_received");
}

#[test]
fn test_validated_candidate() {
    let candidate = PremintCandidate::new(unique_key(1), AccountList::new(), 1.0f64.to_bits(), 1, PriorityLevel::High);
    let validated = ValidatedCandidate::new(candidate.clone(), 100);
    assert_eq!(validated.validation_latency_us, 100);
    let inner = validated.into_inner();
    assert_eq!(inner.trace_id, candidate.trace_id);
}

#[test]
fn test_is_vote_tx() {
    let vote_tx = vec![0x00; 100];
    assert!(is_vote_tx(&vote_tx));
    let normal_tx = vec![0x01; 200];
    assert!(!is_vote_tx(&normal_tx));
}

#[test]
fn test_instr_count_check() {
    let tx = vec![0; 150];
    assert!(instr_count_check(&tx, 100, 200));
    assert!(!instr_count_check(&tx, 200, 300));
}

#[test]
fn test_small_signature_match() {
    let tx = vec![0x01, 0x02, 0x03, 0x04, 0x05];
    let pattern = vec![0x03, 0x04];
    assert!(small_signature_match(&tx, &pattern));
    let no_match = vec![0x06, 0x07];
    assert!(!small_signature_match(&tx, &no_match));
}

#[test]
fn test_check_tx_size() {
    assert!(!check_tx_size(&[0; 32]));
    assert!(check_tx_size(&[0; 256]));
    assert!(!check_tx_size(&[0; 2000]));
}

#[test]
fn test_is_valid_pubkey() {
    let default_pubkey = Pubkey::default();
    assert!(!is_valid_pubkey(&default_pubkey));
    let valid_pubkey = unique_key(7);
    assert!(is_valid_pubkey(&valid_pubkey));
}

#[test]
fn test_is_suspicious_pubkey() {
    let zero_pubkey = Pubkey::default();
    assert!(is_suspicious_pubkey(&zero_pubkey));
    let ff_pubkey = Pubkey::new_from_array([0xFF; 32]);
    assert!(is_suspicious_pubkey(&ff_pubkey));
    let mut bytes = [0u8; 32];
    bytes[0] = 0xAA;
    bytes[1] = 0xAA;
    bytes[2] = 0xAA;
    bytes[3] = 0xAA;
    let pattern_pubkey = Pubkey::new_from_array(bytes);
    assert!(is_suspicious_pubkey(&pattern_pubkey));
    let valid_pubkey = unique_key(8);
    assert!(!is_suspicious_pubkey(&valid_pubkey));
}

#[test]
fn test_is_valid_candidate() {
    let valid_mint = unique_key(9);
    let valid_candidate = PremintCandidate::new(valid_mint, one_account(), 1.5f64.to_bits(), 123, PriorityLevel::High);
    assert!(is_valid_candidate(&valid_candidate));
    let invalid_candidate =
        PremintCandidate::new(Pubkey::default(), one_account(), 1.5f64.to_bits(), 123, PriorityLevel::High);
    assert!(!is_valid_candidate(&invalid_candidate));
    let no_accounts_candidate =
        PremintCandidate::new(valid_mint, AccountList::new(), 1.5f64.to_bits(), 123, PriorityLevel::High);
    assert!(!is_valid_candidate(&no_accounts_candidate));
    let invalid_price_candidate =
        PremintCandidate::new(valid_mint, one_account(), f64::NAN.to_bits(), 123, PriorityLevel::High);
    assert!(!is_valid_candidate(&invalid_price_candidate));
}

#[test]
fn test_quick_sanity_check() {
    assert!(quick_sanity_check(&[0x01; 256]));
    assert!(!quick_sanity_check(&[0x00; 256]));
    assert!(!quick_sanity_check(&[0xFF; 256]));
    assert!(!quick_sanity_check(&[0x01; 32]));
}

#[test]
fn test_sniffer_state_conversion() {
    assert_eq!(SnifferState::from(0), SnifferState::Stopped);
    assert_eq!(SnifferState::from(2), SnifferState::Running);
    assert_eq!(SnifferState::from(3), SnifferState::Paused);
    assert_eq!(SnifferState::from(5), SnifferState::Error);
}

#[test]
fn test_candidate_creation() {
    let mint = unique_key(10);
    let mut accounts = AccountList::new();
    accounts.push(unique_key(11));
    accounts.push(unique_key(12));
    let candidate = PremintCandidate::new(mint, accounts, 1.5f64.to_bits(), 123, PriorityLevel::High);
    assert!(candidate.mint == mint);
    assert_eq!(candidate.accounts.len(), 2);
    assert_eq!(f64::from_bits(candidate.price_hint_bits), 1.5);
    assert_eq!(candidate.trace_id, 123);
    assert!(candidate.is_high_priority());
}

#[test]
fn test_priority_level() {
    let mint = unique_key(13);
    let high = PremintCandidate::new(mint, AccountList::new(), 1.0f64.to_bits(), 1, PriorityLevel::High);
    assert!(high.is_high_priority());
    let low = PremintCandidate::new(mint, AccountList::new(), 1.0f64.to_bits(), 2, PriorityLevel::Low);
    assert!(!low.is_high_priority());
}

#[test]
fn test_exponential_backoff() {
    let mut backoff = ExponentialBackoff::new(100, 5000);
    let delay1 = backoff.next_backoff();
    assert!(delay1.as_millis() >= 80 && delay1.as_millis() <= 120);
    let delay2 = backoff.next_backoff();
    assert!(delay2.as_millis() >= 160 && delay2.as_millis() <= 240);
    backoff.reset();
    let delay3 = backoff.next_backoff();
    assert!(delay3.as_millis() >= 80 && delay3.as_millis() <= 120);
}

#[test]
fn test_backoff_max_limit() {
    let mut backoff = ExponentialBackoff::new(1000, 5000);
    for _ in 0..10 {
        let delay = backoff.next_backoff();
        assert!(delay.as_millis() <= 6000);
    }
}

#[test]
fn jitter_stays_within_a_fifth_of_the_backoff() {
    assert_eq!(ExponentialBackoff::jitter(100, 0), 80);
    assert_eq!(ExponentialBackoff::jitter(100, 39), 119);
    assert_eq!(ExponentialBackoff::jitter(100, -1), 119);
    assert_eq!(ExponentialBackoff::jitter(100, 40), 80);
}

#[test]
fn test_metrics_creation() {
    let metrics = SnifferMetrics::new();
    assert_eq!(metrics.tx_seen, 0);
    assert_eq!(metrics.candidates_sent, 0);
}

#[test]
fn test_metrics_increment() {
    let mut metrics = SnifferMetrics::new();
    metrics.tx_seen += 1;
    metrics.candidates_sent += 5;
    assert_eq!(metrics.tx_seen, 1);
    assert_eq!(metrics.candidates_sent, 5);
}

#[test]
fn health_needs_running_flag_and_few_reconnects() {
    let mut metrics = SnifferMetrics::new();
    assert!(metrics.healthy(true, true));
    assert!(!metrics.healthy(false, true));
    assert!(!metrics.healthy(true, false));
    metrics.reconnect_count = 9;
    assert!(metrics.healthy(true, true));
    metrics.reconnect_count = 10;
    assert!(!metrics.healthy(true, true));
}

#[test]
fn test_snapshot() {
    let mut metrics = SnifferMetrics::new();
    metrics.tx_seen += 100;
    metrics.candidates_sent += 10;
    let snapshot = metrics.snapshot();
    assert!(snapshot.contains("\"tx_seen\":100"));
    assert!(snapshot.contains("\"candidates_sent\":10"));
}

#[test]
fn snapshot_is_the_whole_json_object() {
    let metrics = SnifferMetrics::new();
    assert_eq!(
        metrics.snapshot(),
        "{\"tx_seen\":0,\"tx_filtered\":0,\"candidates_sent\":0,\"dropped_full_buffer\":0,\"security_drop_count\":0,\"backpressure_events\":0,\"reconnect_count\":0,\"high_priority_sent\":0,\"low_priority_sent\":0,\"high_priority_dropped\":0,\"mint_extract_errors\":0,\"account_extract_errors\":0,\"stream_buffer_depth\":0}"
    );
}

#[test]
fn latency_samples_wrap_into_slots_after_a_thousand() {
    let mut metrics = SnifferMetrics::new();
    for i in 0..1000u64 {
        metrics.record_latency(i);
    }
    assert_eq!(metrics.latency_samples().len(), 1000);
    metrics.record_latency(2005);
    let s = metrics.latency_samples();
    assert_eq!(s.len(), 1000);
    assert_eq!(s[5], 2005);
    metrics.reset();
    assert!(metrics.latency_samples().is_empty());
}

#[test]
fn queue_waits_fall_into_their_buckets() {
    let mut d = HandoffDiagnostics::new();
    d.record_queue_wait(5);
    d.record_queue_wait(50);
    d.record_queue_wait(500);
    d.record_queue_wait(5000);
    d.record_queue_wait(9);
    assert_eq!(d.get_histogram(), [2, 1, 1, 1]);
    d.record_drop(true);
    d.record_drop(false);
    d.record_drop(false);
    assert_eq!(d.dropped_high_priority, 1);
    assert_eq!(d.dropped_low_priority, 2);
    d.reset();
    assert_eq!(d.get_histogram(), [0, 0, 0, 0]);
}

fn tx_with_mint(mint: &Pubkey, account: &Pubkey) -> Vec<u8> {
    let mut tx = vec![0x01u8; 256];
    tx[64..96].copy_from_slice(&mint.to_bytes());
    tx[96..128].copy_from_slice(&account.to_bytes());
    tx[160..192].copy_from_slice(&SPL_TOKEN_PROGRAM_ID);
    tx[200..232].copy_from_slice(&PUMP_FUN_PROGRAM_ID);
    tx
}

#[test]
fn hot_path_rejects_insane_bytes_first() {
    let r = process_transaction(&[0u8; 256], 1, 1.0f64.to_bits(), false, true);
    assert!(matches!(r, TxOutcome::SanityRejected));
    let r = process_transaction(&[1u8; 10], 1, 1.0f64.to_bits(), false, true);
    assert!(matches!(r, TxOutcome::SanityRejected));
}

#[test]
fn hot_path_filters_transactions_without_interesting_programs() {
    let r = process_transaction(&[1u8; 256], 1, 1.0f64.to_bits(), false, true);
    assert!(matches!(r, TxOutcome::Filtered));
}

#[test]
fn hot_path_accepts_a_real_candidate() {
    let mint = unique_key(21);
    let account = unique_key(22);
    let tx = tx_with_mint(&mint, &account);
    let r = process_transaction(&tx, 42, 256.0f64.to_bits(), true, true);
    match r {
        TxOutcome::Accepted(c) => {
            assert!(c.mint == mint);
            assert_eq!(c.trace_id, 42);
            assert!(c.is_high_priority());
            assert!(c.accounts.get(0) == account);
        }
        _ => panic!("expected an accepted candidate"),
    }
}

#[test]
fn hot_path_rejects_a_suspicious_mint() {
    let mint = Pubkey::new_from_array([0xAB; 32]);
    let tx = tx_with_mint(&mint, &unique_key(23));
    let r = process_transaction(&tx, 1, 1.0f64.to_bits(), false, true);
    assert!(matches!(r, TxOutcome::ValidationRejected));
}

#[test]
fn hot_path_reports_a_zero_mint_as_extraction_failure() {
    let tx = tx_with_mint(&Pubkey::default(), &unique_key(24));
    let r = process_transaction(&tx, 1, 1.0f64.to_bits(), false, true);
    match r {
        TxOutcome::ExtractionFailed(e) => {
            assert!(e.is_mint_error());
            assert_eq!(e.message(), "Mint extraction error: Invalid mint pubkey");
        }
        _ => panic!("expected an extraction failure"),
    }
    let mut m = SnifferMetrics::new();
    m.record_outcome(&process_transaction(&tx, 1, 1.0f64.to_bits(), false, true));
    assert_eq!(m.mint_extract_errors, 1);
}

#[test]
fn extract_error_messages_name_their_part() {
    assert_eq!(
        ExtractError::AccountExtract(AccountExtractError::InvalidAccount).message(),
        "Account extraction error: Invalid account pubkey"
    );
    assert_eq!(ExtractError::MintExtract(MintExtractError::TooSmall).message(), "Mint extraction error: Transaction too small");
}

#[test]
fn event_log_drops_its_oldest_event_when_full() {
    let mut c = EventCollector::new(2);
    for t in 0..3u64 {
        c.collect(SnifferEvent::BytesReceived { trace_id: t, timestamp: Instant::now(), size: 1 });
    }
    assert_eq!(c.len(), 2);
    let recent = c.get_recent(5);
    assert_eq!(recent.iter().map(|e| e.trace_id()).collect::<Vec<_>>(), vec![1, 2]);
    let last = c.get_recent(1);
    assert_eq!(last[0].trace_id(), 2);
    c.clear();
    assert_eq!(c.len(), 0);
}

#[test]
fn program_and_account_search_looks_in_the_key_regions() {
    let mut tx = vec![1u8; 256];
    assert!(!contains_program_id_fast(&tx, &PUMP_FUN_PROGRAM_ID));
    tx[100..132].copy_from_slice(&PUMP_FUN_PROGRAM_ID);
    assert!(contains_program_id_fast(&tx, &PUMP_FUN_PROGRAM_ID));
    let account = [7u8; 32];
    assert!(!contains_account_fast(&tx, &account));
    let mut long = vec![1u8; 700];
    long[600..632].copy_from_slice(&account);
    assert!(contains_account_fast(&long, &account));
    assert!(!contains_account_fast(&[7u8; 31], &account));
}

#[test]
fn deep_verification_reports_the_failing_check() {
    let candidate = PremintCandidate::new(unique_key(9), one_account(), 1.5f64.to_bits(), 123, PriorityLevel::High);
    assert_eq!(verify_candidate_deep(&candidate, &[0x01; 256]), Ok(()));
    assert_eq!(
        verify_candidate_deep(&candidate, &[0x00; 256]),
        Err("Transaction failed sanity check".to_string())
    );
    let bad = PremintCandidate::new(Pubkey::default(), one_account(), 1.5f64.to_bits(), 123, PriorityLevel::High);
    assert_eq!(
        verify_candidate_deep(&bad, &[0x00; 256]),
        Err("Candidate failed inline validation".to_string())
    );
}

#[test]
fn test_latency_recording() {
    let mut metrics = SnifferMetrics::new();
    metrics.record_latency(100);
    metrics.record_latency(200);
    metrics.record_latency(300);
    let samples = metrics.latency_samples();
    let rank = (samples.len() as f64 * 0.5) as usize;
    let p50 = bot::stats::sample_at_rank(&samples, rank);
    assert!(p50.is_some());
    assert_eq!(p50.unwrap(), 200);
}

#[test]
fn verification_requests_get_their_verdict() {
    let candidate = PremintCandidate::new(unique_key(9), one_account(), 1.5f64.to_bits(), 123, PriorityLevel::High);
    let ok = verify_request(VerificationRequest { candidate: candidate.clone(), tx_bytes: vec![0x01; 256] });
    assert!(ok.is_valid);
    assert_eq!(ok.reason, None);
    assert_eq!(ok.candidate.trace_id, 123);
    let bad = verify_request(VerificationRequest { candidate, tx_bytes: vec![0x00; 256] });
    assert!(!bad.is_valid);
    assert_eq!(bad.reason, Some("Transaction failed sanity check".to_string()));
}

#[test]
fn ids_are_found_anywhere_in_the_buffer() {
    let id = [7u8; 32];
    let mut tx = vec![0u8; 100];
    tx[40..72].copy_from_slice(&id);
    assert!(contains_program_id_fast(&tx, &id));
    let mut long = vec![0u8; 600];
    long[500..532].copy_from_slice(&id);
    assert!(contains_account_fast(&long, &id));
    let mut short = vec![0u8; 40];
    short[8..40].copy_from_slice(&id);
    assert!(contains_account_fast(&short, &id));
}
