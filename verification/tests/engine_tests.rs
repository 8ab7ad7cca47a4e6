use bot::engine::{next_iteration, IterationAction};
use bot::circuit_breaker::{rate_window_step, RateWindow};
use bot::buy_engine::{
    AIBackoffStrategy, BackoffState, BuyConfig, BuyConfigError, RpcErrorClass, SimulationPolicy,
    SimulationResult, UniverseMetrics,
};
use bot::circuit_breaker::UniverseCircuitBreaker;
use bot::engine::{
    blockhash_too_old, candidate_verdict, control_decision, control_state_name, is_candidate_interesting, send_decision,
    sniff_gate, verdict_counter, BotControl, CandidateChecks, CandidateVerdict, ControlDecision,
    sell_refusal_message, ExponentialBackoff, Mode, SampleHistory, SellRefusal, SendDecision, SniffGate,
    TradingState,
};
use bot::Pubkey;
use bot::rate_limit::TokenBucketRateLimiter;
use bot::sniffer::supervisor::{Lifecycle, SnifferState, SupervisorCommand, WorkerExit};
use std::time::Duration;

#[test]
fn default_buy_config_is_valid() {
    assert_eq!(BuyConfig::default().validate(), Ok(()));
}

#[test]
fn buy_config_reports_the_first_failing_check() {
    let mut c = BuyConfig::default();
    c.slippage_bps = 10_001;
    assert_eq!(c.validate(), Err(BuyConfigError::SlippageTooHigh(10_001)));
    let mut c = BuyConfig::default();
    c.slippage_bps = 600;
    assert_eq!(c.validate(), Err(BuyConfigError::SlippageAboveMax(600, 500)));
    let mut c = BuyConfig::default();
    c.max_compute_units = 0;
    assert_eq!(c.validate(), Err(BuyConfigError::ComputeUnitsOutOfRange(0)));
    let mut c = BuyConfig::default();
    c.max_slippage_bps = 20_000;
    assert_eq!(c.validate(), Err(BuyConfigError::MaxSlippageTooHigh(20_000)));
    let mut c = BuyConfig::default();
    c.taker_fee_bps = 10_001;
    assert_eq!(c.validate(), Err(BuyConfigError::TakerFeeTooHigh(10_001)));
    let mut c = BuyConfig::default();
    c.enabled = false;
    assert_eq!(c.validate(), Err(BuyConfigError::Disabled));
    assert!(!c.is_buy_enabled());
    let mut c = BuyConfig::default();
    c.kill_switch = true;
    assert_eq!(c.validate(), Err(BuyConfigError::KillSwitchActive));
}

#[test]
fn rpc_errors_are_classified_case_insensitively() {
    assert_eq!(RpcErrorClass::classify("429 Too Many Requests"), RpcErrorClass::RateLimit);
    assert_eq!(RpcErrorClass::classify("Blockhash not found"), RpcErrorClass::BadBlockhash);
    assert_eq!(RpcErrorClass::classify("Account in use"), RpcErrorClass::AccountInUse);
    assert_eq!(RpcErrorClass::classify("Insufficient lamports"), RpcErrorClass::InsufficientFunds);
    assert_eq!(RpcErrorClass::classify("Connection reset"), RpcErrorClass::NetworkError);
    assert_eq!(RpcErrorClass::classify("Invalid param"), RpcErrorClass::Permanent);
    assert_eq!(RpcErrorClass::classify("something odd"), RpcErrorClass::Transient);
    assert!(RpcErrorClass::NetworkError.is_retryable());
    assert!(!RpcErrorClass::Permanent.is_retryable());
    assert_eq!(RpcErrorClass::AccountInUse.name(), "AccountInUse");
}

#[test]
fn simulation_policy_decides_critical_failures() {
    let critical = SimulationResult::CriticalFailure("boom".to_string());
    assert!(!critical.should_proceed(SimulationPolicy::BlockOnCritical));
    assert!(!critical.should_proceed(SimulationPolicy::WarnOnAdvisory));
    assert!(critical.should_proceed(SimulationPolicy::AlwaysAllow));
    assert!(SimulationResult::AdvisoryFailure("meh".to_string()).should_proceed(SimulationPolicy::BlockOnCritical));
    assert!(SimulationResult::Success.should_proceed(SimulationPolicy::BlockOnCritical));
}

#[test]
fn backoff_delay_doubles_and_is_capped() {
    let b = ExponentialBackoff::default();
    assert_eq!(b.clamped_delay_ms(0), 100);
    assert_eq!(b.clamped_delay_ms(3), 800);
    assert_eq!(b.clamped_delay_ms(4), 1600);
    assert_eq!(b.clamped_delay_ms(5), 10_000);
    let small = ExponentialBackoff::new(3000, 5000, 10);
    assert_eq!(small.clamped_delay_ms(1), 5000);
    assert!(b.should_retry(0, "timeout"));
    assert!(!b.should_retry(5, "timeout"));
    assert!(!b.should_retry(0, "invalid"));
}

#[test]
fn send_loop_decisions() {
    let b = ExponentialBackoff::default();
    assert_eq!(send_decision(&b, 0, RpcErrorClass::RateLimit, 0, 3), SendDecision::BackOff);
    assert_eq!(send_decision(&b, 0, RpcErrorClass::BadBlockhash, 0, 3), SendDecision::BlockhashExpired);
    assert_eq!(send_decision(&b, 0, RpcErrorClass::NetworkError, 2, 3), SendDecision::Rotate(0));
    assert_eq!(send_decision(&b, 0, RpcErrorClass::NetworkError, 2, 0), SendDecision::Rotate(2));
    assert_eq!(send_decision(&b, 0, RpcErrorClass::Transient, 0, 3), SendDecision::RetryLater);
    assert_eq!(send_decision(&b, 5, RpcErrorClass::Transient, 0, 3), SendDecision::GiveUp);
    assert_eq!(send_decision(&b, 0, RpcErrorClass::Permanent, 0, 3), SendDecision::GiveUp);
    assert!(blockhash_too_old(Some(2001)));
    assert!(!blockhash_too_old(Some(2000)));
    assert!(!blockhash_too_old(None));
}

#[test]
fn engine_loop_decisions() {
    assert_eq!(control_decision(0), ControlDecision::Exit);
    assert_eq!(control_decision(2), ControlDecision::Pause);
    assert_eq!(control_decision(1), ControlDecision::Proceed);
    assert_eq!(control_decision(9), ControlDecision::Proceed);
    assert_eq!(sniff_gate(false, true), SniffGate::Passive);
    assert_eq!(sniff_gate(true, false), SniffGate::PortfolioFull);
    assert_eq!(sniff_gate(true, true), SniffGate::Sniff);
    assert!(is_candidate_interesting("pump.fun"));
    assert!(is_candidate_interesting("letsbonk"));
    assert!(!is_candidate_interesting("raydium"));
    let all_ok = CandidateChecks {
        mint_rate_ok: true,
        program_rate_ok: true,
        security_ok: true,
        validator_rate_ok: true,
        interesting: true,
    };
    assert_eq!(candidate_verdict(all_ok), CandidateVerdict::Attempt);
    assert_eq!(verdict_counter(CandidateVerdict::Attempt), "buy_attempts_total");
    let v = candidate_verdict(CandidateChecks { mint_rate_ok: false, interesting: false, ..all_ok });
    assert_eq!(v, CandidateVerdict::MintRateLimited);
    let v = candidate_verdict(CandidateChecks { interesting: false, ..all_ok });
    assert_eq!(v, CandidateVerdict::Filtered);
    assert_eq!(verdict_counter(v), "buy_attempts_filtered");
}

#[test]
fn bot_control_stops_for_good() {
    let mut c = BotControl::new();
    assert_eq!(c.get_control_state(), 1);
    assert!(c.set_control_state(2));
    assert_eq!(c.get_control_state(), 2);
    c.shutdown();
    assert_eq!(c.get_control_state(), 0);
}

#[test]
fn sample_history_keeps_the_newest() {
    let mut h = SampleHistory::new(3);
    for x in 1..=5u64 {
        h.record(x);
    }
    assert_eq!(h.len(), 3);
    assert_eq!(h.to_vec(), vec![3, 4, 5]);
}

#[test]
fn universe_metrics_record_and_rank_latencies() {
    let mut m = UniverseMetrics::new();
    m.record_latency("sniff_to_buy", 7);
    m.record_latency("other", 9);
    assert_eq!(m.sniff_to_buy_latency.to_vec(), vec![7]);
    assert_eq!(m.build_to_land_latency.len(), 0);
    for x in (1..=100u64).rev() {
        m.record_latency("build_to_land", x);
    }
    assert_eq!(m.get_p99_latency("build_to_land"), Some(100));
    assert_eq!(m.latency_at_rank("build_to_land", 49), Some(50));
    assert_eq!(m.latency_at_rank("build_to_land", 500), Some(100));
    assert_eq!(m.get_p99_latency("unknown"), None);
    assert_eq!(UniverseMetrics::new().get_p99_latency("sniff_to_buy"), None);
}

#[test]
fn universe_metrics_counters() {
    let mut m = UniverseMetrics::new();
    m.record_program_result("pump.fun", true);
    m.record_program_result("pump.fun", true);
    m.record_program_result("pump.fun", false);
    assert_eq!(UniverseMetrics::count(&m.program_success_counts, "pump.fun"), 2);
    assert_eq!(UniverseMetrics::count(&m.program_failure_counts, "pump.fun"), 1);
    assert_eq!(UniverseMetrics::count(&m.program_failure_counts, "other"), 0);
    m.record_rpc_error("RateLimit");
    assert_eq!(UniverseMetrics::count(&m.rpc_error_counts, "RateLimit"), 1);
    m.record_simulation_failure(true);
    m.record_simulation_failure(false);
    assert_eq!((m.simulate_failures, m.simulate_critical_failures), (2, 1));
    m.increment_inflight();
    m.increment_inflight();
    m.decrement_inflight();
    assert_eq!(m.get_inflight_depth(), 1);
    m.record_mempool_rejection();
    assert_eq!(m.mempool_rejections, 1);
    m.record_retry_count(3);
    m.record_blockhash_age(1500);
    assert_eq!(m.retries_per_tx.to_vec(), vec![3]);
    assert_eq!(m.blockhash_age_at_signing.to_vec(), vec![1500u128]);
}

#[test]
fn token_bucket_refills_at_its_rate() {
    let mut b = TokenBucketRateLimiter::new(10, 2);
    assert!(b.acquire_now(10));
    assert!(!b.acquire_now(1));
    b.refill_after(1500, std::time::Instant::now());
    assert!(b.acquire_now(3));
    assert!(!b.acquire_now(1));
    b.refill_after(100_000, std::time::Instant::now());
    assert!(b.acquire_now(10));
}

#[test]
fn circuit_breaker_opens_at_threshold_and_closes_on_success() {
    let mut cb = UniverseCircuitBreaker::new(2, Duration::from_secs(60));
    assert!(cb.is_closed());
    cb.record_failure();
    assert!(cb.is_closed());
    cb.record_failure();
    assert!(!cb.is_closed());
    assert!(!cb.should_allow());
    cb.record_success();
    assert!(cb.should_allow());
}

#[test]
fn mint_rate_limit_counts_within_a_window() {
    let mut cb = UniverseCircuitBreaker::new(5, Duration::from_secs(60));
    assert!(cb.check_mint_rate_limit("m", 60, 2));
    assert!(cb.check_mint_rate_limit("m", 60, 2));
    assert!(!cb.check_mint_rate_limit("m", 60, 2));
    assert!(cb.check_mint_rate_limit("n", 60, 2));
    assert_eq!(cb.tracked_mints(), 2);
    assert!(cb.check_program_rate_limit("p", 60, 1));
    assert!(!cb.check_program_rate_limit("p", 60, 1));
}

#[test]
fn supervisor_lifecycle() {
    let mut l = Lifecycle::new();
    assert_eq!(l.state(), SnifferState::Stopped);
    assert_eq!(l.start(), Ok(SupervisorCommand::Start));
    assert_eq!(l.state(), SnifferState::Running);
    assert_eq!(l.start(), Err(SnifferState::Running));
    assert_eq!(l.pause(), SupervisorCommand::Pause);
    assert_eq!(l.resume(), SupervisorCommand::Resume);
    assert_eq!(l.begin_stop(), Some(SupervisorCommand::Stop));
    assert_eq!(l.state(), SnifferState::Stopping);
    l.worker_exited(WorkerExit::Panicked, true);
    assert_eq!(l.state(), SnifferState::Error);
    l.finish_stop();
    assert_eq!(l.state(), SnifferState::Stopped);
    assert_eq!(l.begin_stop(), None);
    assert!(l.monitoring_done());
    for _ in 0..6 {
        l.worker_failed(true);
    }
    assert_eq!(l.error_count(), 6);
    assert!(l.monitoring_done());
    assert_eq!(SnifferState::Paused.code(), 3);
}

#[test]
fn learned_backoff_explores_then_prefers_the_best_delay() {
    let mut s = AIBackoffStrategy::new(100, 10_000);
    assert_eq!(s.calculate_optimal_delay(0), 100);
    assert_eq!(s.calculate_optimal_delay(3), 800);
    assert_eq!(s.calculate_optimal_delay(20), 10_000);
    s.record_outcome(200, false);
    s.record_outcome(400, true);
    s.record_outcome(400, true);
    s.record_outcome(200, true);
    // 400 ms: 2/2 beats 200 ms: 1/2
    assert_eq!(s.calculate_optimal_delay(1), 400);
    // never below the base times the failure count
    assert_eq!(s.calculate_optimal_delay(7), 700);
    // delays above the maximum are not taken
    let mut t = AIBackoffStrategy::new(100, 300);
    t.record_outcome(400, true);
    assert_eq!(t.calculate_optimal_delay(2), 300);
}

#[test]
fn learned_backoff_forgets_rarely_tried_delays_past_a_hundred() {
    let mut s = AIBackoffStrategy::new(100, 1_000_000);
    for _ in 0..6 {
        s.record_outcome(5, true);
    }
    for d in 10..110u64 {
        s.record_outcome(d, false);
    }
    // 101 delays known: only the one tried six times stays
    assert_eq!(s.calculate_optimal_delay(0), 5);
}

#[test]
fn engine_backoff_state() {
    let mut b = BackoffState::new();
    assert_eq!(b.should_backoff(), None);
    b.record_failure();
    // the learned strategy explores 100 * 2^1, above the exponential 100
    assert_eq!(b.should_backoff(), Some(200));
    b.record_failure();
    b.record_failure();
    assert_eq!(b.get_failure_count(), 3);
    assert_eq!(b.should_backoff(), Some(800));
    for _ in 0..10 {
        b.record_failure();
    }
    assert_eq!(b.should_backoff(), Some(10_000));
    b.record_success();
    assert_eq!(b.should_backoff(), None);
    b.record_backoff_outcome(2500, true);
    b.record_failure();
    assert_eq!(b.should_backoff(), Some(2500));
}

#[test]
fn buy_enters_passive_and_full_sell_returns_to_sniffing() {
    let mint = Pubkey::new_from_array([42; 32]);
    let mut st = TradingState::new(Mode::Sniffing);
    assert_eq!(st.check_sell(), Err(SellRefusal::NotPassive));
    st.set_pending_buy(true);
    assert_eq!(st.check_sell(), Err(SellRefusal::BuyInProgress));
    st.on_buy_success(mint);
    st.set_pending_buy(false);
    assert_eq!(st.mode(), Mode::PassiveToken(mint));
    assert_eq!(st.check_sell(), Ok(mint));
    assert_eq!(st.on_sell_done(&mint, false), Ok(()));
    assert_eq!(st.mode(), Mode::PassiveToken(mint));
    assert_eq!(st.on_sell_done(&mint, true), Ok(()));
    assert_eq!(st.mode(), Mode::Sniffing);
    assert_eq!(st.position_count(), 0);
    assert_eq!(st.on_sell_done(&mint, true), Err(SellRefusal::PositionNotFound));
}

#[test]
fn second_position_keeps_the_first_token_mode() {
    let a = Pubkey::new_from_array([1; 32]);
    let b = Pubkey::new_from_array([2; 32]);
    let mut st = TradingState::new(Mode::Sniffing);
    st.on_buy_success(a);
    st.on_buy_success(b);
    st.on_buy_success(b);
    assert_eq!(st.position_count(), 2);
    assert_eq!(st.mode(), Mode::PassiveToken(a));
    st.on_sell_done(&a, true).unwrap();
    assert_eq!(st.mode(), Mode::PassiveToken(a));
    assert!(st.has_position(&b));
    st.on_sell_done(&b, true).unwrap();
    assert_eq!(st.mode(), Mode::Sniffing);
}

#[test]
fn test_supervisor_state_transitions() {
    let mut supervisor = Lifecycle::new();
    assert_eq!(supervisor.state(), SnifferState::Stopped);
    supervisor.start().unwrap();
    assert_eq!(supervisor.state(), SnifferState::Running);
    supervisor.pause();
    assert_eq!(supervisor.state(), SnifferState::Paused);
    supervisor.resume();
    assert_eq!(supervisor.state(), SnifferState::Running);
    // stopping: the stop command, then every worker joined, then stopped
    assert_eq!(supervisor.begin_stop(), Some(SupervisorCommand::Stop));
    supervisor.finish_stop();
    assert_eq!(supervisor.state(), SnifferState::Stopped);
}

#[test]
fn test_backoff_behavior() {
    let mut backoff_state = BackoffState::new();
    assert_eq!(backoff_state.get_failure_count(), 0);
    backoff_state.record_failure();
    assert_eq!(backoff_state.get_failure_count(), 1);
    let backoff_duration = backoff_state.should_backoff();
    assert!(backoff_duration.is_some());
    assert!(backoff_duration.unwrap() >= 100);
    backoff_state.record_success();
    assert_eq!(backoff_state.get_failure_count(), 0);
    let no_backoff = backoff_state.should_backoff();
    assert!(no_backoff.is_none());
}

#[test]
fn test_atomic_buy_protection() {
    let mut state = TradingState::new(Mode::Sniffing);
    assert!(!state.is_buy_pending());
    let success = state.try_begin_buy();
    assert!(success, "First pending_buy flag should be settable");
    let result2 = state.try_begin_buy();
    assert!(!result2, "Second pending_buy flag should fail");
    state.set_pending_buy(false);
    let success3 = state.try_begin_buy();
    assert!(success3, "After clearing, pending_buy flag should be settable again");
}

#[test]
fn test_sell_buy_race_protection() {
    let mint = Pubkey::new_from_array([9; 32]);
    let mut state = TradingState::new(Mode::PassiveToken(mint));
    state.set_pending_buy(true);
    let result = state.check_sell();
    assert!(result.is_err());
    assert!(sell_refusal_message(result.unwrap_err(), &mint).contains("buy operation in progress"));
}

#[test]
fn sell_refusals_name_their_reason() {
    let mint = Pubkey::new_from_array([1; 32]);
    assert_eq!(sell_refusal_message(SellRefusal::NotPassive, &mint), "not in PassiveToken mode");
    assert_eq!(
        sell_refusal_message(SellRefusal::PositionNotFound, &mint),
        "Position not found for mint 4vJ9JU1bJJE96FWSJKvHsmmFADCg4gpZQff4P3bkLKi"
    );
}

#[test]
fn control_states_have_names() {
    assert_eq!(control_state_name(0), "Stopped");
    assert_eq!(control_state_name(1), "Running");
    assert_eq!(control_state_name(2), "Paused");
    assert_eq!(control_state_name(3), "Unknown");
}

#[test]
fn supervisor_health_follows_the_state() {
    let mut l = Lifecycle::new();
    assert!(!l.is_healthy());
    l.start().unwrap();
    assert!(l.is_healthy());
    l.pause();
    assert!(l.is_healthy());
    l.begin_stop();
    assert!(!l.is_healthy());
}

#[test]
fn token_bucket_against_the_clock() {
    let mut b = TokenBucketRateLimiter::new(5, 1);
    assert_eq!(b.available_tokens(), 5);
    assert!(b.try_acquire(5));
    assert!(!b.try_acquire(5));
    assert!(b.available_tokens() <= 1);
}

#[test]
fn open_breakers_recover_after_the_timeout() {
    let mut cb = UniverseCircuitBreaker::new(1, Duration::from_secs(60));
    cb.record_failure();
    assert!(!cb.is_closed());
    assert!(!cb.recovery_step(59_000_000_000, 60_000_000_000));
    assert!(!cb.is_closed());
    assert!(cb.recovery_step(60_000_000_000, 60_000_000_000));
    assert!(cb.is_closed());
    assert!(cb.recovery_step(0, 60_000_000_000));
}

#[test]
fn rate_windows_count_and_expire() {
    let now = std::time::Instant::now();
    let (w, ok) = rate_window_step(None, 0, now, 60, 2);
    assert!(ok);
    assert_eq!(w.count, 1);
    let (w, ok) = rate_window_step(Some(w), 10, now, 60, 2);
    assert!(ok);
    assert_eq!(w.count, 2);
    let (w, ok) = rate_window_step(Some(w), 60, now, 60, 2);
    assert!(!ok);
    assert_eq!(w.count, 3);
    let (w, ok) = rate_window_step(Some(RateWindow { count: 9, started: now }), 61, now, 60, 2);
    assert!(ok);
    assert_eq!(w.count, 1);
}

#[test]
fn engine_iterations_check_in_order() {
    assert_eq!(next_iteration(0, false, true, true, Some(7)), IterationAction::Exit);
    assert_eq!(next_iteration(2, true, true, true, None), IterationAction::Sleep(100));
    assert_eq!(next_iteration(1, false, true, true, None), IterationAction::Sleep(5000));
    assert_eq!(next_iteration(1, true, false, false, Some(7)), IterationAction::AwaitPassive(500));
    assert_eq!(next_iteration(9, true, true, false, Some(7)), IterationAction::Sleep(100));
    assert_eq!(next_iteration(1, true, true, true, Some(700)), IterationAction::Sleep(700));
    assert_eq!(next_iteration(1, true, true, true, None), IterationAction::AwaitCandidate(1000));
}

#[test]
fn configuration_errors_have_their_texts() {
    assert_eq!(BuyConfigError::SlippageTooHigh(10_001).message(), "slippage_bps 10001 exceeds maximum 10000");
    assert_eq!(BuyConfigError::SlippageAboveMax(600, 500).message(), "slippage_bps 600 exceeds max_slippage_bps 500");
    assert_eq!(
        BuyConfigError::ComputeUnitsOutOfRange(0).message(),
        "max_compute_units 0 out of valid range (1-1400000)"
    );
    assert_eq!(BuyConfigError::Disabled.message(), "BuyConfig is disabled");
    assert_eq!(BuyConfigError::KillSwitchActive.message(), "Kill switch is active");
}
