use market_surveillance::dashboard::{Alert, CaseRecord, RiskEntity, SurveillanceDashboardContractState};

fn st(t: &str) -> String {
    t.to_string()
}

fn make_alert(id: &str, severity: &str, entity: &str) -> Alert {
    Alert {
        id: st(id),
        alert_type: st("SPOOFING"),
        severity: st(severity),
        risk_score: 80,
        entity_id: st(entity),
        symbol: st("RELIANCE"),
        description: st("test"),
        workflow_id: st(""),
        timestamp: 0,
    }
}

fn make_case(id: &str, status: &str) -> CaseRecord {
    CaseRecord {
        case_id: st(id),
        case_type: st("SPOOFING"),
        status: st(status),
        priority: st("HIGH"),
        subject_entity: st("TRADER-001"),
        symbol: st("RELIANCE"),
        risk_score: 50,
        assigned_to: st(""),
        created_at: 1,
        updated_at: 1,
        summary: st("summary"),
    }
}

fn make_entity(id: &str, score: u32) -> RiskEntity {
    RiskEntity { entity_id: st(id), entity_name: st(id), risk_score: score, alert_count: 1, last_alert_at: 0 }
}

fn empty_dashboard() -> SurveillanceDashboardContractState {
    SurveillanceDashboardContractState::new().unwrap()
}

#[test]
fn new_dashboard_is_empty() {
    let d = empty_dashboard();
    let stats = d.get_stats().unwrap();
    assert_eq!(stats.total_alerts_today, 0);
    assert_eq!(stats.total_workflows_today, 0);
    assert_eq!(stats.open_cases, 0);
    assert_eq!(stats.high_risk_entities, 0);
    assert_eq!(stats.compliance_score, 100);
    assert!(d.get_live_alerts(st("ALL"), 10).unwrap().is_empty());
}

#[test]
fn push_alert_returns_id_and_counts() {
    let mut d = empty_dashboard();
    assert_eq!(d.push_alert(make_alert("A1", "HIGH", "T1")).unwrap(), "A1");
    assert_eq!(d.push_alert(make_alert("A2", "LOW", "T2")).unwrap(), "A2");
    let stats = d.get_stats().unwrap();
    assert_eq!(stats.total_alerts_today, 2);
    assert_eq!(stats.compliance_score, 98);
}

#[test]
fn live_alerts_newest_first_with_filter_and_limit() {
    let mut d = empty_dashboard();
    d.push_alert(make_alert("A1", "HIGH", "T1")).unwrap();
    d.push_alert(make_alert("A2", "LOW", "T1")).unwrap();
    d.push_alert(make_alert("A3", "HIGH", "T2")).unwrap();
    d.push_alert(make_alert("A4", "HIGH", "T1")).unwrap();
    let all = d.get_live_alerts(st("ALL"), 10).unwrap();
    let ids: Vec<&str> = all.iter().map(|a| a.id.as_str()).collect();
    assert_eq!(ids, vec!["A4", "A3", "A2", "A1"]);
    let high = d.get_live_alerts(st("HIGH"), 2).unwrap();
    let ids: Vec<&str> = high.iter().map(|a| a.id.as_str()).collect();
    assert_eq!(ids, vec!["A4", "A3"]);
    assert!(d.get_live_alerts(st("ALL"), 0).unwrap().is_empty());
    assert!(d.get_live_alerts(st("MEDIUM"), 5).unwrap().is_empty());
}

#[test]
fn compliance_score_reaches_zero() {
    let mut d = empty_dashboard();
    for i in 0..101 {
        d.push_alert(make_alert(&format!("A{}", i), "LOW", "T")).unwrap();
    }
    assert_eq!(d.get_stats().unwrap().compliance_score, 0);
    assert_eq!(d.get_stats().unwrap().total_alerts_today, 101);
}

#[test]
fn compliance_score_at_exactly_one_hundred_alerts() {
    let mut d = empty_dashboard();
    for i in 0..100 {
        d.push_alert(make_alert(&format!("A{}", i), "LOW", "T")).unwrap();
    }
    assert_eq!(d.get_stats().unwrap().compliance_score, 0);
}

#[test]
fn workflow_start_and_progress() {
    let mut d = empty_dashboard();
    assert_eq!(d.log_workflow_start(st("W1"), st("SPOOFING"), st("alert"), 5).unwrap(), "W1");
    d.log_workflow_start(st("W2"), st("WASH"), st("manual"), 3).unwrap();
    let history = d.get_workflow_history(st("ALL"), 10).unwrap();
    assert_eq!(history.len(), 2);
    assert_eq!(history[0].id, "W2");
    assert_eq!(history[1].status, "RUNNING");
    assert_eq!(history[1].steps_completed, 0);
    assert_eq!(history[1].result_summary, "");
    assert_eq!(d.update_workflow_progress(st("W1"), 5, st("COMPLETED"), st("done")).unwrap(), "W1");
    let spoofing = d.get_workflow_history(st("SPOOFING"), 10).unwrap();
    assert_eq!(spoofing.len(), 1);
    assert_eq!(spoofing[0].steps_completed, 5);
    assert_eq!(spoofing[0].status, "COMPLETED");
    assert_eq!(spoofing[0].result_summary, "done");
    assert_eq!(spoofing[0].total_steps, 5);
    assert_eq!(d.get_stats().unwrap().total_workflows_today, 2);
}

#[test]
fn progress_on_unknown_workflow_fails() {
    let mut d = empty_dashboard();
    assert_eq!(
        d.update_workflow_progress(st("W9"), 1, st("RUNNING"), st("")).unwrap_err(),
        "Workflow W9 not found"
    );
}

#[test]
fn upsert_case_replaces_and_appends() {
    let mut d = empty_dashboard();
    assert_eq!(d.upsert_case(make_case("C1", "OPEN")).unwrap(), "C1");
    d.upsert_case(make_case("C2", "CLOSED")).unwrap();
    d.upsert_case(make_case("C1", "INVESTIGATING")).unwrap();
    let all = d.get_cases_by_status(st("ALL"), 10).unwrap();
    assert_eq!(all.len(), 2);
    assert_eq!(all[0].case_id, "C1");
    assert_eq!(all[0].status, "INVESTIGATING");
    assert_eq!(all[1].case_id, "C2");
    assert_eq!(d.get_case_details(st("C1")).unwrap().status, "INVESTIGATING");
    assert_eq!(d.get_stats().unwrap().open_cases, 1);
}

#[test]
fn case_lookup_after_upsert_gives_the_record() {
    let mut d = empty_dashboard();
    let c = make_case("C7", "OPEN");
    d.upsert_case(c.clone()).unwrap();
    assert_eq!(d.get_case_details(st("C7")).unwrap(), c);
}

#[test]
fn missing_case_details_fail() {
    let d = empty_dashboard();
    assert_eq!(d.get_case_details(st("C404")).unwrap_err(), "Case C404 not found");
}

#[test]
fn cases_by_status_oldest_first_with_limit() {
    let mut d = empty_dashboard();
    d.upsert_case(make_case("C1", "OPEN")).unwrap();
    d.upsert_case(make_case("C2", "CLOSED")).unwrap();
    d.upsert_case(make_case("C3", "OPEN")).unwrap();
    d.upsert_case(make_case("C4", "OPEN")).unwrap();
    let open = d.get_cases_by_status(st("OPEN"), 2).unwrap();
    let ids: Vec<&str> = open.iter().map(|c| c.case_id.as_str()).collect();
    assert_eq!(ids, vec!["C1", "C3"]);
    assert_eq!(d.get_stats().unwrap().open_cases, 3);
}

#[test]
fn risk_entities_upsert_and_threshold() {
    let mut d = empty_dashboard();
    assert_eq!(d.register_risk_entity(make_entity("E1", 90)).unwrap(), "E1");
    d.register_risk_entity(make_entity("E2", 70)).unwrap();
    d.register_risk_entity(make_entity("E3", 71)).unwrap();
    d.register_risk_entity(make_entity("E1", 40)).unwrap();
    assert_eq!(d.get_stats().unwrap().high_risk_entities, 1);
    let over = d.get_high_risk_entities(70, 10).unwrap();
    let ids: Vec<&str> = over.iter().map(|e| e.entity_id.as_str()).collect();
    assert_eq!(ids, vec!["E2", "E3"]);
    let first = d.get_high_risk_entities(0, 1).unwrap();
    assert_eq!(first.len(), 1);
    assert_eq!(first[0].entity_id, "E1");
    assert_eq!(first[0].risk_score, 40);
}

#[test]
fn entity_alerts_newest_first_with_limit() {
    let mut d = empty_dashboard();
    d.push_alert(make_alert("A1", "HIGH", "T1")).unwrap();
    d.push_alert(make_alert("A2", "LOW", "T2")).unwrap();
    d.push_alert(make_alert("A3", "LOW", "T1")).unwrap();
    d.push_alert(make_alert("A4", "LOW", "T1")).unwrap();
    let one = d.get_entity_alerts(st("T1"), 1).unwrap();
    let ids: Vec<&str> = one.iter().map(|a| a.id.as_str()).collect();
    assert_eq!(ids, vec!["A4"]);
    let all = d.get_entity_alerts(st("T1"), 5).unwrap();
    let ids: Vec<&str> = all.iter().map(|a| a.id.as_str()).collect();
    assert_eq!(ids, vec!["A4", "A3", "A1"]);
    assert!(d.get_entity_alerts(st("T1"), 0).unwrap().is_empty());
}

#[test]
fn counters_and_sizes() {
    let mut d = empty_dashboard();
    d.push_alert(make_alert("A1", "HIGH", "T1")).unwrap();
    d.log_workflow_start(st("W1"), st("SCAN"), st("t"), 1).unwrap();
    d.upsert_case(make_case("C1", "OPEN")).unwrap();
    d.upsert_case(make_case("C1", "CLOSED")).unwrap();
    d.register_risk_entity(make_entity("E1", 10)).unwrap();
    d.register_risk_entity(make_entity("E2", 10)).unwrap();
    assert_eq!(d.alert_count_today(), 1);
    assert_eq!(d.workflow_count_today(), 1);
    assert_eq!(d.case_count(), 1);
    assert_eq!(d.risk_entity_count(), 2);
}

#[test]
fn stats_after_interleaved_alerts_and_workflows() {
    let mut d = empty_dashboard();
    d.push_alert(make_alert("A1", "HIGH", "T1")).unwrap();
    d.log_workflow_start(st("W1"), st("SCAN"), st("t"), 1).unwrap();
    d.push_alert(make_alert("A2", "LOW", "T1")).unwrap();
    d.push_alert(make_alert("A3", "LOW", "T2")).unwrap();
    d.log_workflow_start(st("W2"), st("SCAN"), st("t"), 1).unwrap();
    let stats = d.get_stats().unwrap();
    assert_eq!(stats.total_alerts_today, 3);
    assert_eq!(stats.total_workflows_today, 2);
    assert_eq!(stats.open_cases, 0);
    assert_eq!(stats.high_risk_entities, 0);
    assert_eq!(stats.compliance_score, 97);
}
