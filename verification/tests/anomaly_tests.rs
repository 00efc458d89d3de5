use market_surveillance::anomaly::{AnomalyDetectionConfig, AnomalyDetectionContractState, check_http_status};

fn s(t: &str) -> String {
    t.to_string()
}

fn service() -> AnomalyDetectionContractState {
    AnomalyDetectionContractState::new(AnomalyDetectionConfig {
        dashboard_contract_id: s(""),
        alpha_vantage_key: s("demo"),
        taapi_secret: s("secret"),
    })
    .unwrap()
}

#[test]
fn starts_with_ten_sample_queries() {
    let ctx = service().get_context();
    assert_eq!(ctx.recent_queries.len(), 10);
    assert_eq!(ctx.last_entity_id, "TRADER-001");
    assert_eq!(ctx.last_symbol, "RELIANCE");
    assert_eq!(ctx.recent_queries[0].method_name, "detect_spoofing");
    assert_eq!(ctx.recent_queries[0].timestamp, 1736700000);
    assert_eq!(ctx.recent_queries[9].symbol, "INFY");
    assert_eq!(ctx.recent_queries[9].timestamp, 1736709000);
}

#[test]
fn empty_reference_resolves_to_last_names() {
    let svc = service();
    assert_eq!(svc.resolve_entity(""), "TRADER-001");
    assert_eq!(svc.resolve_symbol(""), "RELIANCE");
}

#[test]
fn partial_entity_matches_last_entity_ignoring_case() {
    assert_eq!(service().resolve_entity("trader"), "TRADER-001");
}

#[test]
fn partial_entity_matches_newest_cached_entity() {
    assert_eq!(service().resolve_entity("BROKER"), "BROKER-XYZ");
}

#[test]
fn partial_entity_matches_through_prompt() {
    // Only the prompt of the third sample mentions BROKER-ABC; its entity is TRADER-001.
    assert_eq!(service().resolve_entity("abc"), "TRADER-001");
}

#[test]
fn unknown_reference_is_kept() {
    let svc = service();
    assert_eq!(svc.resolve_entity("Nobody"), "Nobody");
    assert_eq!(svc.resolve_symbol("ZZZ"), "ZZZ");
}

#[test]
fn partial_symbol_examples() {
    let svc = service();
    assert_eq!(svc.resolve_symbol("RELI"), "RELIANCE");
    assert_eq!(svc.resolve_symbol("bank"), "HDFCBANK");
    assert_eq!(svc.resolve_symbol("inf"), "INFY");
}

#[test]
fn cross_resolution_takes_both_names_from_one_query() {
    let svc = service();
    assert_eq!(svc.resolve_from_cache("", "INF"), (s("TRADER-001"), s("INFY")));
    assert_eq!(svc.resolve_from_cache("XYZ", ""), (s("BROKER-XYZ"), s("WIPRO")));
}

#[test]
fn cross_resolution_fills_missing_entity_by_single_resolution() {
    // The Bharti Airtel query names no entity, so the entity reference resolves alone.
    assert_eq!(service().resolve_from_cache("Airtel", ""), (s("Airtel"), s("BHARTIARTL")));
}

#[test]
fn cross_resolution_without_match_resolves_each() {
    assert_eq!(service().resolve_from_cache("NEWTRADER", "NEWSYM"), (s("NEWTRADER"), s("NEWSYM")));
}

#[test]
fn wash_trade_when_both_parties_resolve_alike() {
    let r = service().detect_wash_trading(s("TRADER-001"), s("trader-001"), s("INFY"), 0).unwrap();
    assert_eq!(r.entity_id, "TRADER-001");
    assert_eq!(r.counterparty_id, "TRADER-001");
    assert!(r.is_wash_trade);
    assert!(r.volume_match && r.price_match);
    assert_eq!(r.time_gap_seconds, 0);
}

#[test]
fn no_wash_trade_between_different_parties() {
    let r = service().detect_wash_trading(s("TRADER-003"), s("BROKER-XYZ"), s(""), 5).unwrap();
    assert_eq!(r.entity_id, "TRADER-003");
    assert_eq!(r.counterparty_id, "BROKER-XYZ");
    assert!(!r.is_wash_trade);
}

#[test]
fn front_running_just_before_client_trade() {
    let r = service().detect_front_running(s("BROKER"), s("WIP"), 100, 99).unwrap();
    assert_eq!(r.entity_id, "BROKER-XYZ");
    assert_eq!(r.symbol, "WIPRO");
    assert_eq!(r.anomaly_type, "FRONT_RUNNING");
    assert_eq!(r.confidence_score, 90);
    assert_eq!(r.details, "Trade gap: 1s");
    assert_eq!(r.timestamp, 99);
    assert_eq!(r.supporting_evidence, "Prop desk trade executed immediately prior to large client order");
}

#[test]
fn front_running_after_client_trade_is_not_suspicious() {
    let r = service().detect_front_running(s("X"), s("Y"), 100, 105).unwrap();
    assert_eq!(r.confidence_score, 10);
    assert_eq!(r.details, "Trade gap: 5s");
    let r = service().detect_front_running(s("X"), s("Y"), 100, 98).unwrap();
    assert_eq!(r.confidence_score, 10);
    assert_eq!(r.details, "Trade gap: 2s");
}

#[test]
fn spoofing_check_records_a_new_query() {
    let mut svc = service();
    let (entity, symbol) = svc.prepare_spoofing(&s("ORD-9"), &s("NEWTRADER"), &s("NEWSYM"));
    assert_eq!((entity.as_str(), symbol.as_str()), ("NEWTRADER", "NEWSYM"));
    let ctx = svc.get_context();
    assert_eq!(ctx.recent_queries.len(), 10);
    assert_eq!(ctx.recent_queries[0].method_name, "detect_pump_dump");
    let last = &ctx.recent_queries[9];
    assert_eq!(last.method_name, "detect_spoofing");
    assert_eq!(last.entity_id, "NEWTRADER");
    assert_eq!(last.symbol, "NEWSYM");
    assert_eq!(last.timestamp, 11);
    assert_eq!(last.natural_language_prompt, "Check spoofing for order ORD-9 by NEWTRADER on NEWSYM");
    assert_eq!(ctx.last_entity_id, "NEWTRADER");
    assert_eq!(ctx.last_symbol, "NEWSYM");
}

#[test]
fn known_pair_is_not_recorded_again() {
    let mut svc = service();
    let symbol = svc.prepare_pump_dump(&s("INF"), 30);
    assert_eq!(symbol, "INFY");
    let ctx = svc.get_context();
    assert_eq!(ctx.recent_queries.len(), 10);
    assert_eq!(ctx.recent_queries[0].method_name, "detect_spoofing");
    assert_eq!(ctx.last_entity_id, "TRADER-001");
    assert_eq!(ctx.last_symbol, "INFY");
}

#[test]
fn recording_twice_equals_recording_once() {
    let mut once = service();
    once.update_cache("m", "E1", "S1", "p");
    let mut twice = service();
    twice.update_cache("m", "E1", "S1", "p");
    twice.update_cache("m", "E1", "S1", "p");
    assert_eq!(once.get_context(), twice.get_context());
}

#[test]
fn cache_stays_at_ten_queries() {
    let mut svc = service();
    for k in 0..15u32 {
        let e = format!("E{}", k);
        svc.update_cache("m", &e, "S", "p");
        assert!(svc.get_context().recent_queries.len() <= 10);
    }
    let ctx = svc.get_context();
    assert_eq!(ctx.recent_queries.len(), 10);
    assert_eq!(ctx.recent_queries[9].entity_id, "E14");
    assert_eq!(ctx.recent_queries[9].timestamp, 11);
}

#[test]
fn volume_and_rsi_checks_record_their_prompts() {
    let mut svc = service();
    let symbol = svc.prepare_volume_anomaly(&s("NEWSYM"), &s("5m"));
    assert_eq!(symbol, "NEWSYM");
    let ctx = svc.get_context();
    assert_eq!(ctx.recent_queries[9].natural_language_prompt, "Check volume anomaly on NEWSYM with 5m interval");
    assert_eq!(ctx.recent_queries[9].entity_id, "");
    let symbol = svc.prepare_rsi_check(&s("OTHER"));
    assert_eq!(symbol, "OTHER");
    assert_eq!(svc.get_context().recent_queries[9].natural_language_prompt, "Check RSI levels for OTHER");
    let mut svc = service();
    svc.prepare_pump_dump(&s("NEWSYM"), 45);
    assert_eq!(
        svc.get_context().recent_queries[9].natural_language_prompt,
        "Check pump and dump on NEWSYM in last 45 minutes"
    );
}

#[test]
fn spoofing_verdicts() {
    let r = AnomalyDetectionContractState::spoofing_indicator(s("O1"), &s("large order"), &s("50000"));
    assert!(r.is_spoof);
    assert_eq!(r.order_size_vs_market, "15% of daily vol");
    assert_eq!(r.cancellation_rate, "High");
    assert_eq!(r.price_impact, "Potential manipulation detected");
    let r = AnomalyDetectionContractState::spoofing_indicator(s("O2"), &s("qty: 50000"), &s("not a number"));
    assert!(r.is_spoof);
    let r = AnomalyDetectionContractState::spoofing_indicator(s("O3"), &s("large"), &s("200000"));
    assert!(!r.is_spoof);
    let r = AnomalyDetectionContractState::spoofing_indicator(s("O4"), &s("small"), &s("5"));
    assert!(!r.is_spoof);
    assert_eq!(r.order_size_vs_market, "1% of daily vol");
}

#[test]
fn volume_spike_results() {
    let r = AnomalyDetectionContractState::volume_anomaly_result(s("TCS"), &s("2000000"));
    assert_eq!(r.confidence_score, 80);
    assert_eq!(r.details, "Current Volume: 2000000");
    assert_eq!(r.entity_id, "MARKET");
    assert_eq!(r.anomaly_type, "VOLUME_SPIKE");
    let r = AnomalyDetectionContractState::volume_anomaly_result(s("TCS"), &s("+1000000"));
    assert_eq!(r.confidence_score, 20);
    assert_eq!(r.details, "Current Volume: 1000000");
    let r = AnomalyDetectionContractState::volume_anomaly_result(s("TCS"), &s(" 7"));
    assert_eq!(r.details, "Current Volume: 0");
    let r = AnomalyDetectionContractState::volume_anomaly_result(s("TCS"), &s("99999999999999999999"));
    assert_eq!(r.details, "Current Volume: 0");
}

#[test]
fn pump_dump_indicator_scores() {
    let r = AnomalyDetectionContractState::pump_dump_indicator(s("INFY"), true, s("12.5%"));
    assert_eq!(r.social_sentiment_score, 85);
    assert_eq!(r.volume_surge, "High");
    let r = AnomalyDetectionContractState::pump_dump_indicator(s("INFY"), false, s("1%"));
    assert_eq!(r.social_sentiment_score, 40);
    assert!(!r.is_pump_dump);
}

#[test]
fn entity_scan_is_empty() {
    assert!(service().scan_entity_anomalies(s("TRADER")).unwrap().is_empty());
}

#[test]
fn http_status_check() {
    assert_eq!(check_http_status(200, s("ok")), Ok(s("ok")));
    assert_eq!(check_http_status(299, s("ok")), Ok(s("ok")));
    assert_eq!(check_http_status(404, s("nope")), Err(s("HTTP 404: nope")));
    assert_eq!(check_http_status(199, s("x")), Err(s("HTTP 199: x")));
}
