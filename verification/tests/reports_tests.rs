use market_surveillance::reports::{
    RegulatoryReportsConfig, RegulatoryReportsContractState, StatsSource, SurveillanceStats,
};

fn rt(t: &str) -> String {
    t.to_string()
}

fn reports(dashboard: &str) -> RegulatoryReportsContractState {
    RegulatoryReportsContractState::new(RegulatoryReportsConfig {
        report_storage_path: rt("/reports"),
        sebi_api_endpoint: rt("https://sebi.example"),
        dashboard_contract_id: rt(dashboard),
        case_management_contract_id: rt(""),
    })
    .unwrap()
}

#[test]
fn str_report_fields() {
    let r = reports("d")
        .generate_str(rt("CASE-1"), rt("E7"), rt("SPOOFING"), rt("details"), rt("1000"), rt("reason"))
        .unwrap();
    assert_eq!(r.str_id, "STR-CASE-1-E7");
    assert_eq!(r.report_date, "2026-01-10");
    assert_eq!(r.suspicious_entity_id, "E7");
    assert_eq!(r.suspicious_entity_name, "Entity E7");
    assert_eq!(r.suspicious_activity_type, "SPOOFING");
    assert_eq!(r.total_value, "1000");
    assert_eq!(r.investigation_summary, "Investigation based on case CASE-1");
    assert_eq!(r.recommendation, "Submit to FIU for further action");
    assert_eq!(r.generated_at, 0);
}

#[test]
fn stats_from_configured_dashboard() {
    match reports("dash-42").stats_source() {
        StatsSource::Dashboard { contract_id, method, args } => {
            assert_eq!(contract_id, "dash-42");
            assert_eq!(method, "get_stats");
            assert_eq!(args, "{\"period\":\"day\"}");
        }
        other => panic!("unexpected {:?}", other),
    }
}

#[test]
fn stats_fallback_for_placeholder() {
    match reports("<PASTE_DASHBOARD_ID>").stats_source() {
        StatsSource::Fallback(s) => {
            assert_eq!(s, SurveillanceStats { total_alerts: 15, critical_alerts: 2, open_cases: 5, resolved_cases: 3 });
        }
        other => panic!("unexpected {:?}", other),
    }
}

#[test]
fn surveillance_report_from_stats() {
    let stats = SurveillanceStats { total_alerts: 15, critical_alerts: 2, open_cases: 5, resolved_cases: 3 };
    let m = RegulatoryReportsContractState::surveillance_report_from(
        rt("2026-01-01"),
        rt("2026-01-31"),
        rt("MONTHLY"),
        Ok(stats),
    )
    .unwrap();
    assert_eq!(m.report_id, "MSR-MONTHLY-2026-01-01");
    assert_eq!(m.report_period, "2026-01-01 to 2026-01-31");
    assert_eq!(m.total_alerts, 15);
    assert_eq!(m.critical_alerts, 2);
    assert_eq!(m.investigations_opened, 5);
    assert_eq!(m.investigations_closed, 3);
    assert_eq!(m.manipulation_cases, 3);
    assert_eq!(m.insider_trading_cases, 2);
    assert_eq!(m.enforcement_actions, 1);
    assert_eq!(m.summary, "MONTHLY surveillance report generated with live data from dashboard");
}

#[test]
fn surveillance_report_error_is_wrapped() {
    let e = RegulatoryReportsContractState::surveillance_report_from(rt("a"), rt("b"), rt("DAILY"), Err(rt("timeout")))
        .unwrap_err();
    assert_eq!(e, "Failed to fetch dashboard stats: timeout");
}

#[test]
fn scorecard_figures() {
    let c = reports("d").generate_compliance_scorecard(rt("BROKER-1"), rt("Q1"), 2026).unwrap();
    assert_eq!(c.entity_name, "Entity BROKER-1");
    assert_eq!(c.reporting_period, "Q1 2026");
    assert_eq!(c.overall_score, 85);
    assert_eq!(c.kyc_compliance, 90);
    assert_eq!(c.aml_compliance, 82);
    assert_eq!(c.surveillance_compliance, 88);
    assert_eq!(c.reporting_compliance, 80);
    assert_eq!(c.violations_count, 2);
}

#[test]
fn gsm_and_esm_paths() {
    let svc = reports("d");
    let g = svc.generate_gsm_report(rt("2026-01-10")).unwrap();
    assert_eq!(g.report_id, "GSM-2026-01-10");
    assert_eq!(g.report_type, "GSM");
    assert_eq!(g.file_path, "/reports/gsm_2026-01-10.pdf");
    assert!(g.success);
    assert_eq!(g.error, "");
    let e = svc.generate_esm_report(rt("2026-01-10")).unwrap();
    assert_eq!(e.report_id, "ESM-2026-01-10");
    assert_eq!(e.file_path, "/reports/esm_2026-01-10.pdf");
}

#[test]
fn pending_strs_are_empty() {
    assert!(reports("d").get_pending_strs(10).unwrap().is_empty());
}

#[test]
fn submission_record() {
    let s = reports("d").submit_str(rt("STR-1")).unwrap();
    assert_eq!(s.report_id, "STR-1");
    assert_eq!(s.report_type, "STR_SUBMISSION");
    assert_eq!(s.file_path, "");
    assert!(s.success);
}

#[test]
fn investigation_report_paths() {
    let svc = reports("d");
    let with = svc.generate_investigation_report(rt("CASE-9"), true).unwrap();
    assert_eq!(with.report_id, "INV-CASE-9");
    assert_eq!(with.report_type, "INVESTIGATION");
    assert_eq!(with.file_path, "/reports/investigation_CASE-9_with_evidence.pdf");
    let without = svc.generate_investigation_report(rt("CASE-9"), false).unwrap();
    assert_eq!(without.file_path, "/reports/investigation_CASE-9.pdf");
}
