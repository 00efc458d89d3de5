use market_surveillance::cases::{
    case_stats_text, cases_of_entity, priority_rank_of, select_open_cases, sort_events_by_time, valid_status,
    Case, CaseEvent, CaseManagementConfig, CaseManagementContractState,
};

fn cs(t: &str) -> String {
    t.to_string()
}

fn case_service(dashboard: &str) -> CaseManagementContractState {
    CaseManagementContractState::new(CaseManagementConfig { dashboard_contract_id: cs(dashboard) }).unwrap()
}

fn sample_case(id: &str, status: &str, priority: &str, subject: &str) -> Case {
    Case {
        case_id: cs(id),
        case_type: cs("SPOOFING"),
        status: cs(status),
        priority: cs(priority),
        subject_entity: cs(subject),
        symbol: cs("RELIANCE"),
        risk_score: 60,
        assigned_to: cs(""),
        created_at: 0,
        updated_at: 0,
        summary: cs("s"),
    }
}

fn event(kind: &str, at: u64) -> CaseEvent {
    CaseEvent { event_type: cs(kind), description: cs(""), timestamp: at, actor: cs("system") }
}

#[test]
fn first_case_id_is_zero_padded() {
    assert_eq!(case_service("").generate_case_id(), "CASE-000001");
}

#[test]
fn create_case_returns_id_and_push_when_dashboard_set() {
    let mut svc = case_service("dash-1");
    let (id, push) = svc.create_case(cs("SPOOFING"), cs("TRADER-001"), cs("RELIANCE"), 85, cs("HIGH"), cs("layering"));
    assert_eq!(id.unwrap(), "CASE-000001");
    let push = push.unwrap();
    assert_eq!(push.contract_id, "dash-1");
    assert_eq!(push.record.case_id, "CASE-000001");
    assert_eq!(push.record.status, "OPEN");
    assert_eq!(push.record.priority, "HIGH");
    assert_eq!(push.record.subject_entity, "TRADER-001");
    assert_eq!(push.record.risk_score, 85);
    assert_eq!(push.record.assigned_to, "");
    assert_eq!(push.record.summary, "layering");
}

#[test]
fn create_case_without_dashboard_pushes_nothing() {
    let mut svc = case_service("");
    let (id, push) = svc.create_case(cs("PUMP_DUMP"), cs("E"), cs("S"), 1, cs("LOW"), cs(""));
    assert_eq!(id.unwrap(), "CASE-000001");
    assert!(push.is_none());
}

#[test]
fn invalid_status_is_rejected() {
    let mut svc = case_service("d");
    let (r, push) = svc.update_case_status(cs("CASE-000001"), cs("DONE"), cs(""));
    assert_eq!(
        r.unwrap_err(),
        "Invalid status: DONE. Must be one of: [\"OPEN\", \"INVESTIGATING\", \"ESCALATED\", \"CLOSED\"]"
    );
    assert!(push.is_none());
}

#[test]
fn status_update_on_unknown_case_fails() {
    let mut svc = case_service("d");
    let (r, push) = svc.update_case_status(cs("CASE-000009"), cs("CLOSED"), cs("note"));
    assert_eq!(r.unwrap_err(), "Case CASE-000009 not found");
    assert!(push.is_none());
}

#[test]
fn assign_unknown_case_fails() {
    let mut svc = case_service("d");
    let (r, push) = svc.assign_case(cs("CASE-1"), cs("alice"));
    assert_eq!(r.unwrap_err(), "Case CASE-1 not found");
    assert!(push.is_none());
}

#[test]
fn get_unknown_case_fails() {
    assert_eq!(case_service("").get_case(cs("X")).unwrap_err(), "Case X not found");
}

#[test]
fn evidence_and_note_ids_count_up() {
    let mut svc = case_service("");
    assert_eq!(svc.add_evidence(cs("CASE-000001"), cs("TRADE"), cs("d"), cs("s")).unwrap(), "EV-CASE-000001-1");
    assert_eq!(svc.add_evidence(cs("CASE-000001"), cs("TRADE"), cs("d"), cs("s")).unwrap(), "EV-CASE-000001-2");
    assert_eq!(svc.evidence_total(), 2);
    assert_eq!(svc.add_note(cs("CASE-000001"), cs("bob"), cs("c")).unwrap(), "NOTE-CASE-000001-1");
    assert_eq!(svc.add_note(cs("CASE-000002"), cs("bob"), cs("c")).unwrap(), "NOTE-CASE-000002-2");
    assert_eq!(svc.note_total(), 2);
}

#[test]
fn created_cases_get_fresh_ids_and_are_found() {
    let mut svc = case_service("");
    let (first, _) = svc.create_case(cs("SPOOFING"), cs("ACC-1"), cs("INFY"), 80, cs("HIGH"), cs("sum"));
    let (second, _) = svc.create_case(cs("SPOOFING"), cs("ACC-1"), cs("INFY"), 80, cs("HIGH"), cs("sum"));
    assert_eq!(first.clone().unwrap(), "CASE-000001");
    assert_eq!(second.unwrap(), "CASE-000002");
    assert_eq!(svc.case_counter(), 2);
    assert_eq!(svc.case_total(), 2);
    let c = svc.get_case(first.unwrap()).unwrap();
    assert_eq!(c.case_id, "CASE-000001");
    assert_eq!(c.case_type, "SPOOFING");
    assert_eq!(c.status, "OPEN");
    assert_eq!(c.priority, "HIGH");
    assert_eq!(c.subject_entity, "ACC-1");
    assert_eq!(c.symbol, "INFY");
    assert_eq!(c.risk_score, 80);
    assert_eq!(c.assigned_to, "");
    assert_eq!(c.summary, "sum");
    assert_eq!(c.created_at, c.updated_at);
    assert_eq!(svc.get_entity_cases(cs("ACC-1")).unwrap().len(), 2);
    assert_eq!(
        svc.get_case_stats().unwrap(),
        "{\"total\":2, \"open\":2, \"investigating\":0, \"escalated\":0, \"closed\":0, \"critical\":0}"
    );
}

#[test]
fn status_moves_forward_and_is_stored() {
    let mut svc = case_service("dash");
    svc.create_case(cs("WASH_TRADING"), cs("E"), cs("TCS"), 50, cs("CRITICAL"), cs("s"));
    let (r, push) = svc.update_case_status(cs("CASE-000001"), cs("ESCALATED"), cs("note"));
    assert_eq!(r.unwrap().status, "ESCALATED");
    assert_eq!(push.unwrap().record.status, "ESCALATED");
    assert_eq!(svc.get_case(cs("CASE-000001")).unwrap().status, "ESCALATED");
    let (same, _) = svc.update_case_status(cs("CASE-000001"), cs("ESCALATED"), cs("again"));
    assert!(same.is_ok());
    let (closed, _) = svc.update_case_status(cs("CASE-000001"), cs("CLOSED"), cs("done"));
    assert_eq!(closed.unwrap().status, "CLOSED");
    assert!(svc.list_open_cases(cs("ALL"), 10).unwrap().is_empty());
}

#[test]
fn status_cannot_move_back() {
    let mut svc = case_service("dash");
    svc.create_case(cs("PUMP_DUMP"), cs("E"), cs("TCS"), 50, cs("LOW"), cs("s"));
    svc.update_case_status(cs("CASE-000001"), cs("CLOSED"), cs("done"));
    let (r, push) = svc.update_case_status(cs("CASE-000001"), cs("OPEN"), cs("reopen"));
    assert_eq!(
        r.unwrap_err(),
        "Invalid status transition: CLOSED -> OPEN. Cases move forward only: OPEN -> INVESTIGATING -> ESCALATED -> CLOSED"
    );
    assert!(push.is_none());
    assert_eq!(svc.get_case(cs("CASE-000001")).unwrap().status, "CLOSED");
}

#[test]
fn assignment_is_stored() {
    let mut svc = case_service("");
    svc.create_case(cs("SPOOFING"), cs("E"), cs("TCS"), 50, cs("HIGH"), cs("s"));
    let (r, push) = svc.assign_case(cs("CASE-000001"), cs("alice"));
    assert_eq!(r.unwrap().assigned_to, "alice");
    assert!(push.is_none());
    assert_eq!(svc.get_case(cs("CASE-000001")).unwrap().assigned_to, "alice");
}

#[test]
fn empty_service_lists_and_stats() {
    let svc = case_service("");
    assert!(svc.list_open_cases(cs("ALL"), 10).unwrap().is_empty());
    assert!(svc.get_entity_cases(cs("E")).unwrap().is_empty());
    let tl = svc.get_case_timeline(cs("CASE-000001")).unwrap();
    assert_eq!(tl.case_id, "CASE-000001");
    assert!(tl.events.is_empty());
    assert_eq!(
        svc.get_case_stats().unwrap(),
        "{\"total\":0, \"open\":0, \"investigating\":0, \"escalated\":0, \"closed\":0, \"critical\":0}"
    );
}

#[test]
fn status_validation() {
    for ok in ["OPEN", "INVESTIGATING", "ESCALATED", "CLOSED"] {
        assert!(valid_status(&cs(ok)));
    }
    assert!(!valid_status(&cs("open")));
    assert!(!valid_status(&cs("")));
}

#[test]
fn priority_ranks() {
    assert_eq!(priority_rank_of(&cs("CRITICAL")), 0);
    assert_eq!(priority_rank_of(&cs("HIGH")), 1);
    assert_eq!(priority_rank_of(&cs("MEDIUM")), 2);
    assert_eq!(priority_rank_of(&cs("LOW")), 3);
    assert_eq!(priority_rank_of(&cs("anything")), 3);
}

#[test]
fn open_cases_sorted_by_priority_stably() {
    let cases = vec![
        sample_case("C1", "OPEN", "LOW", "E"),
        sample_case("C2", "CLOSED", "CRITICAL", "E"),
        sample_case("C3", "OPEN", "HIGH", "E"),
        sample_case("C4", "INVESTIGATING", "CRITICAL", "E"),
        sample_case("C5", "OPEN", "HIGH", "E"),
        sample_case("C6", "ESCALATED", "MEDIUM", "E"),
    ];
    let got = select_open_cases(&cases, &cs("ALL"), 10);
    let ids: Vec<&str> = got.iter().map(|c| c.case_id.as_str()).collect();
    assert_eq!(ids, vec!["C4", "C3", "C5", "C6", "C1"]);
}

#[test]
fn open_cases_limit_applies_before_sorting() {
    let cases = vec![
        sample_case("C1", "OPEN", "LOW", "E"),
        sample_case("C2", "OPEN", "MEDIUM", "E"),
        sample_case("C3", "OPEN", "CRITICAL", "E"),
    ];
    let got = select_open_cases(&cases, &cs("ALL"), 2);
    let ids: Vec<&str> = got.iter().map(|c| c.case_id.as_str()).collect();
    assert_eq!(ids, vec!["C2", "C1"]);
    let high = select_open_cases(&cases, &cs("CRITICAL"), 5);
    assert_eq!(high.len(), 1);
    assert_eq!(high[0].case_id, "C3");
    assert!(select_open_cases(&cases, &cs("ALL"), 0).is_empty());
}

#[test]
fn events_sorted_by_time_stably() {
    let events = vec![event("b", 5), event("a", 1), event("c", 5), event("d", 3)];
    let sorted = sort_events_by_time(&events);
    let kinds: Vec<&str> = sorted.iter().map(|e| e.event_type.as_str()).collect();
    assert_eq!(kinds, vec!["a", "d", "b", "c"]);
    assert!(sort_events_by_time(&Vec::new()).is_empty());
}

#[test]
fn cases_filtered_by_subject() {
    let cases = vec![
        sample_case("C1", "OPEN", "LOW", "E1"),
        sample_case("C2", "OPEN", "LOW", "E2"),
        sample_case("C3", "CLOSED", "LOW", "E1"),
    ];
    let got = cases_of_entity(&cases, &cs("E1"));
    let ids: Vec<&str> = got.iter().map(|c| c.case_id.as_str()).collect();
    assert_eq!(ids, vec!["C1", "C3"]);
}

#[test]
fn stats_text_counts_each_status() {
    let cases = vec![
        sample_case("C1", "OPEN", "CRITICAL", "E"),
        sample_case("C2", "OPEN", "LOW", "E"),
        sample_case("C3", "INVESTIGATING", "CRITICAL", "E"),
        sample_case("C4", "ESCALATED", "HIGH", "E"),
        sample_case("C5", "CLOSED", "LOW", "E"),
        sample_case("C6", "ARCHIVED", "LOW", "E"),
    ];
    assert_eq!(
        case_stats_text(&cases),
        "{\"total\":6, \"open\":2, \"investigating\":1, \"escalated\":1, \"closed\":1, \"critical\":2}"
    );
}
