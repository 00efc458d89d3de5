use market_surveillance::upsi::{
    TradingWindowStatus, UPSIAccessLog, UPSIDatabaseConfig, UPSIDatabaseContractState, UPSIRecord, REFERENCE_NOW,
};

fn ut(t: &str) -> String {
    t.to_string()
}

fn upsi_service() -> UPSIDatabaseContractState {
    UPSIDatabaseContractState::new(UPSIDatabaseConfig {
        dashboard_contract_id: ut(""),
        supabase_url: ut("https://db.example"),
        supabase_anon_key: ut("anon"),
    })
    .unwrap()
}

fn record(id: &str, company: &str) -> UPSIRecord {
    UPSIRecord {
        upsi_id: ut(id),
        company_symbol: ut(company),
        upsi_type: ut("RESULTS"),
        description: ut(""),
        nature: ut(""),
        created_date: 0,
        public_date: 0,
        is_public: false,
    }
}

fn access(id: &str, upsi: &str) -> UPSIAccessLog {
    UPSIAccessLog {
        access_id: ut(id),
        upsi_id: ut(upsi),
        accessor_entity_id: ut("P1"),
        accessor_name: ut("Person"),
        accessor_designation: ut("CFO"),
        access_timestamp: 5,
        access_reason: ut(""),
        access_mode: ut("VIEW"),
    }
}

fn window(status: &str, start: u64, opening: u64) -> TradingWindowStatus {
    TradingWindowStatus {
        company_symbol: ut("TCS"),
        window_status: ut(status),
        closure_reason: ut("results"),
        closure_start: start,
        expected_opening: opening,
    }
}

#[test]
fn rest_url_and_header() {
    let svc = upsi_service();
    assert_eq!(svc.rest_url(&ut("trading_windows")), "https://db.example/rest/v1/trading_windows");
    assert_eq!(svc.bearer_header(), "Bearer anon");
}

#[test]
fn upsi_queries() {
    assert_eq!(UPSIDatabaseContractState::upsi_endpoint(&ut("U1")), "upsi_records?upsi_id=eq.U1&select=*");
    assert_eq!(
        UPSIDatabaseContractState::active_upsi_endpoint(&ut("TCS")),
        "upsi_records?company_symbol=eq.TCS&is_public=eq.false&select=*"
    );
    assert_eq!(
        UPSIDatabaseContractState::access_log_endpoint(&ut("U1"), 1, 2),
        "upsi_access_log?upsi_id=eq.U1&access_timestamp=gte.1&access_timestamp=lte.2&select=*"
    );
    assert_eq!(
        UPSIDatabaseContractState::access_before_endpoint(&ut("P1"), 99),
        "upsi_access_log?accessor_entity_id=eq.P1&access_timestamp=lt.99&select=*"
    );
    assert_eq!(
        UPSIDatabaseContractState::trading_window_endpoint(&ut("TCS")),
        "trading_windows?company_symbol=eq.TCS&select=*"
    );
    assert_eq!(UPSIDatabaseContractState::accessors_endpoint(&ut("U1")), "upsi_access_log?upsi_id=eq.U1&select=*");
}

#[test]
fn lookback_from_reference_time() {
    assert_eq!(UPSIDatabaseContractState::lookback_start(0), REFERENCE_NOW);
    assert_eq!(UPSIDatabaseContractState::lookback_start(30), 1735689600 - 30 * 86400);
    assert_eq!(UPSIDatabaseContractState::lookback_start(100000), 0);
    assert_eq!(
        UPSIDatabaseContractState::access_by_person_endpoint(&ut("P1"), 1),
        "upsi_access_log?accessor_entity_id=eq.P1&access_timestamp=gte.1735603200&select=*"
    );
}

#[test]
fn first_record_or_error() {
    let r = UPSIDatabaseContractState::first_record(vec![record("U1", "TCS"), record("U2", "INFY")], &ut("U1")).unwrap();
    assert_eq!(r.upsi_id, "U1");
    assert_eq!(
        UPSIDatabaseContractState::first_record(Vec::new(), &ut("U9")).unwrap_err(),
        "UPSI record U9 not found"
    );
}

#[test]
fn first_window_or_error() {
    let w = UPSIDatabaseContractState::first_window(vec![window("OPEN", 0, 0)], &ut("TCS")).unwrap();
    assert_eq!(w.window_status, "OPEN");
    assert_eq!(
        UPSIDatabaseContractState::first_window(Vec::new(), &ut("TCS")).unwrap_err(),
        "Trading window info for TCS not found"
    );
}

#[test]
fn logs_kept_for_the_company() {
    let logs = vec![access("L1", "U1"), access("L2", "U2"), access("L3", "U3")];
    let records = vec![Ok(record("U1", "TCS")), Ok(record("U2", "INFY")), Err(ut("missing"))];
    let kept = UPSIDatabaseContractState::logs_for_company(&logs, &records, &ut("TCS"));
    let ids: Vec<&str> = kept.iter().map(|l| l.access_id.as_str()).collect();
    assert_eq!(ids, vec!["L1"]);
}

#[test]
fn window_violations() {
    let closed = Ok(window("CLOSED", 100, 200));
    assert_eq!(UPSIDatabaseContractState::window_violation(&closed, 100), Ok(true));
    assert_eq!(UPSIDatabaseContractState::window_violation(&closed, 199), Ok(true));
    assert_eq!(UPSIDatabaseContractState::window_violation(&closed, 200), Ok(false));
    assert_eq!(UPSIDatabaseContractState::window_violation(&closed, 99), Ok(false));
    let open = Ok(window("OPEN", 100, 200));
    assert_eq!(UPSIDatabaseContractState::window_violation(&open, 150), Ok(false));
    assert_eq!(UPSIDatabaseContractState::window_violation(&Err(ut("x")), 150), Ok(false));
}
