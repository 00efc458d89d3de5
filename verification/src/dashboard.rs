//! The surveillance dashboard: the central store that other services push
//! alerts, workflow runs, cases and risky entities into, and the queries that
//! the user interface reads them back with.
use vstd::prelude::*;
use crate::text::{push_text, text, text_is};
use crate::listing::{count_matching, first_with, lemma_first_with_bounds, lemma_first_with_is, lemma_first_with_none, newest_matching, oldest_matching, upserted};

verus! {

// ===== Data =====

#[derive(Debug, Clone, PartialEq, Eq)]
pub struct Alert {
    pub id: String,
    pub alert_type: String,
    pub severity: String,
    pub risk_score: u32,
    pub entity_id: String,
    pub symbol: String,
    pub description: String,
    pub workflow_id: String,
    pub timestamp: u64,
}

#[derive(Debug, Clone, PartialEq, Eq)]
pub struct WorkflowExecution {
    pub id: String,
    pub workflow_type: String,
    pub trigger: String,
    pub steps_completed: u32,
    pub total_steps: u32,
    pub status: String,
    pub started_at: u64,
    pub completed_at: u64,
    pub result_summary: String,
}

#[derive(Debug, Clone, PartialEq, Eq)]
pub struct CaseRecord {
    pub case_id: String,
    pub case_type: String,
    pub status: String,
    pub priority: String,
    pub subject_entity: String,
    pub symbol: String,
    pub risk_score: u32,
    pub assigned_to: String,
    pub created_at: u64,
    pub updated_at: u64,
    pub summary: String,
}

#[derive(Debug, Clone, PartialEq, Eq)]
pub struct SurveillanceStats {
    pub total_alerts_today: u32,
    pub total_workflows_today: u32,
    pub open_cases: u32,
    pub high_risk_entities: u32,
    pub compliance_score: u32,
}

#[derive(Debug, Clone, PartialEq, Eq)]
pub struct RiskEntity {
    pub entity_id: String,
    pub entity_name: String,
    pub risk_score: u32,
    pub alert_count: u32,
    pub last_alert_at: u64,
}

/// The dashboard's store: every list in order of arrival, and the counts of
/// alerts and workflow runs received.
#[derive(Debug)]
pub struct SurveillanceDashboardContractState {
    alerts: Vec<Alert>,
    workflows: Vec<WorkflowExecution>,
    cases: Vec<CaseRecord>,
    risk_entities: Vec<RiskEntity>,
    alert_count_today: u32,
    workflow_count_today: u32,
}

// ===== Specifications =====

/// A filter text admits a value: it is `ALL` or equal to it.
pub open spec fn admits(filter: Seq<char>, value: Seq<char>) -> bool {
    filter == "ALL"@ || value == filter
}

pub open spec fn case_key() -> spec_fn(CaseRecord) -> Seq<char> {
    |c: CaseRecord| c.case_id@
}

pub open spec fn entity_key() -> spec_fn(RiskEntity) -> Seq<char> {
    |e: RiskEntity| e.entity_id@
}

pub open spec fn workflow_key() -> spec_fn(WorkflowExecution) -> Seq<char> {
    |w: WorkflowExecution| w.id@
}

pub open spec fn severity_is(filter: Seq<char>) -> spec_fn(Alert) -> bool {
    |a: Alert| admits(filter, a.severity@)
}

pub open spec fn alert_entity_is(entity: Seq<char>) -> spec_fn(Alert) -> bool {
    |a: Alert| a.entity_id@ == entity
}

pub open spec fn workflow_type_is(filter: Seq<char>) -> spec_fn(WorkflowExecution) -> bool {
    |w: WorkflowExecution| admits(filter, w.workflow_type@)
}

pub open spec fn case_status_is(filter: Seq<char>) -> spec_fn(CaseRecord) -> bool {
    |c: CaseRecord| admits(filter, c.status@)
}

pub open spec fn risk_at_least(min: u32) -> spec_fn(RiskEntity) -> bool {
    |e: RiskEntity| e.risk_score >= min
}

/// A case counts as open while it is `OPEN` or `INVESTIGATING`.
pub open spec fn case_is_open() -> spec_fn(CaseRecord) -> bool {
    |c: CaseRecord| c.status@ == "OPEN"@ || c.status@ == "INVESTIGATING"@
}

/// An entity counts as high risk above a score of 70.
pub open spec fn entity_is_high_risk() -> spec_fn(RiskEntity) -> bool {
    |e: RiskEntity| e.risk_score > 70
}

/// The compliance score: 100 less the alerts received, and 0 past 100 alerts.
pub open spec fn compliance_for(alerts: u32) -> u32 {
    if alerts > 100 { 0 } else { (100 - alerts) as u32 }
}

/// `w` after a progress report: steps, status and summary replaced.
pub open spec fn progressed(
    w: WorkflowExecution,
    steps: u32,
    status: Seq<char>,
    summary: Seq<char>,
    n: WorkflowExecution,
) -> bool {
    &&& n.id == w.id
    &&& n.workflow_type == w.workflow_type
    &&& n.trigger == w.trigger
    &&& n.total_steps == w.total_steps
    &&& n.started_at == w.started_at
    &&& n.completed_at == w.completed_at
    &&& n.steps_completed == steps
    &&& n.status@ == status
    &&& n.result_summary@ == summary
}

// ===== Exact copies =====

impl Alert {
    pub fn duplicate(&self) -> (r: Alert)
        ensures
            r == *self,
    {
        Alert {
            id: self.id.clone(),
            alert_type: self.alert_type.clone(),
            severity: self.severity.clone(),
            risk_score: self.risk_score,
            entity_id: self.entity_id.clone(),
            symbol: self.symbol.clone(),
            description: self.description.clone(),
            workflow_id: self.workflow_id.clone(),
            timestamp: self.timestamp,
        }
    }
}

impl WorkflowExecution {
    pub fn duplicate(&self) -> (r: WorkflowExecution)
        ensures
            r == *self,
    {
        WorkflowExecution {
            id: self.id.clone(),
            workflow_type: self.workflow_type.clone(),
            trigger: self.trigger.clone(),
            steps_completed: self.steps_completed,
            total_steps: self.total_steps,
            status: self.status.clone(),
            started_at: self.started_at,
            completed_at: self.completed_at,
            result_summary: self.result_summary.clone(),
        }
    }
}

impl CaseRecord {
    pub fn duplicate(&self) -> (r: CaseRecord)
        ensures
            r == *self,
    {
        CaseRecord {
            case_id: self.case_id.clone(),
            case_type: self.case_type.clone(),
            status: self.status.clone(),
            priority: self.priority.clone(),
            subject_entity: self.subject_entity.clone(),
            symbol: self.symbol.clone(),
            risk_score: self.risk_score,
            assigned_to: self.assigned_to.clone(),
            created_at: self.created_at,
            updated_at: self.updated_at,
            summary: self.summary.clone(),
        }
    }
}

impl RiskEntity {
    pub fn duplicate(&self) -> (r: RiskEntity)
        ensures
            r == *self,
    {
        RiskEntity {
            entity_id: self.entity_id.clone(),
            entity_name: self.entity_name.clone(),
            risk_score: self.risk_score,
            alert_count: self.alert_count,
            last_alert_at: self.last_alert_at,
        }
    }
}

fn admits_exec(filter: &String, value: &String) -> (b: bool)
    ensures
        b == admits(filter@, value@),
{
    text_is(filter, "ALL") || *value == *filter
}

fn not_found(what: &str, id: &String) -> (e: String)
    ensures
        e@ == what@ + id@ + " not found"@,
{
    let mut e = text(what);
    push_text(&mut e, id);
    e.append(" not found");
    e
}

fn find_workflow(ws: &Vec<WorkflowExecution>, id: &String) -> (r: Option<usize>)
    ensures
        r matches Some(i) ==> first_with(ws@, workflow_key(), id@) == Some(i as int) && i < ws@.len()
            && ws@[i as int].id@ == id@,
        r is None ==> first_with(ws@, workflow_key(), id@) is None,
{
    let mut i: usize = 0;
    while i < ws.len()
        invariant
            i <= ws.len(),
            forall|j: int| 0 <= j < i ==> (#[trigger] ws@[j]).id@ != id@,
        decreases ws.len() - i,
    {
        if ws[i].id == *id {
            proof { lemma_first_with_is(ws@, workflow_key(), id@, i as int); }
            return Some(i);
        }
        i = i + 1;
    }
    proof { lemma_first_with_none(ws@, workflow_key(), id@); }
    None
}

fn find_case(cs: &Vec<CaseRecord>, id: &String) -> (r: Option<usize>)
    ensures
        r matches Some(i) ==> first_with(cs@, case_key(), id@) == Some(i as int) && i < cs@.len()
            && cs@[i as int].case_id@ == id@,
        r is None ==> first_with(cs@, case_key(), id@) is None,
{
    let mut i: usize = 0;
    while i < cs.len()
        invariant
            i <= cs.len(),
            forall|j: int| 0 <= j < i ==> (#[trigger] cs@[j]).case_id@ != id@,
        decreases cs.len() - i,
    {
        if cs[i].case_id == *id {
            proof { lemma_first_with_is(cs@, case_key(), id@, i as int); }
            return Some(i);
        }
        i = i + 1;
    }
    proof { lemma_first_with_none(cs@, case_key(), id@); }
    None
}

fn find_entity(es: &Vec<RiskEntity>, id: &String) -> (r: Option<usize>)
    ensures
        r matches Some(i) ==> first_with(es@, entity_key(), id@) == Some(i as int) && i < es@.len()
            && es@[i as int].entity_id@ == id@,
        r is None ==> first_with(es@, entity_key(), id@) is None,
{
    let mut i: usize = 0;
    while i < es.len()
        invariant
            i <= es.len(),
            forall|j: int| 0 <= j < i ==> (#[trigger] es@[j]).entity_id@ != id@,
        decreases es.len() - i,
    {
        if es[i].entity_id == *id {
            proof { lemma_first_with_is(es@, entity_key(), id@, i as int); }
            return Some(i);
        }
        i = i + 1;
    }
    proof { lemma_first_with_none(es@, entity_key(), id@); }
    None
}

impl SurveillanceDashboardContractState {
    pub closed spec fn alerts(self) -> Seq<Alert> {
        self.alerts@
    }

    pub closed spec fn workflows(self) -> Seq<WorkflowExecution> {
        self.workflows@
    }

    pub closed spec fn cases(self) -> Seq<CaseRecord> {
        self.cases@
    }

    pub closed spec fn risk_entities(self) -> Seq<RiskEntity> {
        self.risk_entities@
    }

    pub closed spec fn alert_count(self) -> u32 {
        self.alert_count_today
    }

    pub closed spec fn workflow_count(self) -> u32 {
        self.workflow_count_today
    }

    /// The number of alerts received.
    pub fn alert_count_today(&self) -> (r: u32)
        ensures
            r == self.alert_count(),
    {
        self.alert_count_today
    }

    /// The number of workflow runs started.
    pub fn workflow_count_today(&self) -> (r: u32)
        ensures
            r == self.workflow_count(),
    {
        self.workflow_count_today
    }

    /// The number of case records held.
    pub fn case_count(&self) -> (r: usize)
        ensures
            r == self.cases().len(),
    {
        self.cases.len()
    }

    /// The number of risky entities held.
    pub fn risk_entity_count(&self) -> (r: usize)
        ensures
            r == self.risk_entities().len(),
    {
        self.risk_entities.len()
    }

    /// An empty dashboard.
    pub fn new() -> (r: Result<SurveillanceDashboardContractState, String>)
        ensures
            r is Ok,
            r->Ok_0.alerts().len() == 0,
            r->Ok_0.workflows().len() == 0,
            r->Ok_0.cases().len() == 0,
            r->Ok_0.risk_entities().len() == 0,
            r->Ok_0.alert_count() == 0,
            r->Ok_0.workflow_count() == 0,
    {
        Ok(SurveillanceDashboardContractState {
            alerts: Vec::new(),
            workflows: Vec::new(),
            cases: Vec::new(),
            risk_entities: Vec::new(),
            alert_count_today: 0,
            workflow_count_today: 0,
        })
    }

    /// Stores an alert and counts it; returns its id.
    pub fn push_alert(&mut self, alert: Alert) -> (r: Result<String, String>)
        requires
            old(self).alert_count() < u32::MAX,
        ensures
            r is Ok,
            r->Ok_0@ == alert.id@,
            final(self).alerts() == old(self).alerts().push(alert),
            final(self).alert_count() == old(self).alert_count() + 1,
            final(self).workflows() == old(self).workflows(),
            final(self).cases() == old(self).cases(),
            final(self).risk_entities() == old(self).risk_entities(),
            final(self).workflow_count() == old(self).workflow_count(),
    {
        let alert_id = alert.id.clone();
        self.alerts.push(alert);
        self.alert_count_today = self.alert_count_today + 1;
        Ok(alert_id)
    }

    /// Records the start of a workflow run: running, no steps done, no summary.
    pub fn log_workflow_start(&mut self, workflow_id: String, workflow_type: String, trigger: String, total_steps: u32)
        -> (r: Result<String, String>)
        requires
            old(self).workflow_count() < u32::MAX,
        ensures
            r is Ok,
            r->Ok_0@ == workflow_id@,
            final(self).workflows().len() == old(self).workflows().len() + 1,
            final(self).workflows().drop_last() == old(self).workflows(),
            final(self).workflows().last().id@ == workflow_id@,
            final(self).workflows().last().workflow_type@ == workflow_type@,
            final(self).workflows().last().trigger@ == trigger@,
            final(self).workflows().last().steps_completed == 0,
            final(self).workflows().last().total_steps == total_steps,
            final(self).workflows().last().status@ == "RUNNING"@,
            final(self).workflows().last().started_at == 0,
            final(self).workflows().last().completed_at == 0,
            final(self).workflows().last().result_summary@ == ""@,
            final(self).workflow_count() == old(self).workflow_count() + 1,
            final(self).alerts() == old(self).alerts(),
            final(self).cases() == old(self).cases(),
            final(self).risk_entities() == old(self).risk_entities(),
            final(self).alert_count() == old(self).alert_count(),
    {
        let execution = WorkflowExecution {
            id: workflow_id.clone(),
            workflow_type,
            trigger,
            steps_completed: 0,
            total_steps,
            status: text("RUNNING"),
            started_at: 0,
            completed_at: 0,
            result_summary: text(""),
        };
        self.workflows.push(execution);
        self.workflow_count_today = self.workflow_count_today + 1;
        assert(self.workflows@.drop_last() =~= old(self).workflows@);
        Ok(workflow_id)
    }

    /// Reports progress on the first workflow run with the id; an error when
    /// there is none.
    pub fn update_workflow_progress(&mut self, workflow_id: String, steps_completed: u32, status: String, result_summary: String)
        -> (r: Result<String, String>)
        ensures
            match first_with(old(self).workflows(), workflow_key(), workflow_id@) {
                Some(i) => {
                    &&& r is Ok
                    &&& r->Ok_0@ == workflow_id@
                    &&& final(self).workflows().len() == old(self).workflows().len()
                    &&& forall|j: int| 0 <= j < old(self).workflows().len() && j != i
                        ==> #[trigger] final(self).workflows()[j] == old(self).workflows()[j]
                    &&& progressed(old(self).workflows()[i], steps_completed, status@, result_summary@,
                        final(self).workflows()[i])
                },
                None => {
                    &&& r is Err
                    &&& r->Err_0@ == "Workflow "@ + workflow_id@ + " not found"@
                    &&& final(self).workflows() == old(self).workflows()
                },
            },
            final(self).alerts() == old(self).alerts(),
            final(self).cases() == old(self).cases(),
            final(self).risk_entities() == old(self).risk_entities(),
            final(self).alert_count() == old(self).alert_count(),
            final(self).workflow_count() == old(self).workflow_count(),
    {
        proof { lemma_first_with_bounds(self.workflows@, workflow_key(), workflow_id@); }
        match find_workflow(&self.workflows, &workflow_id) {
            Some(i) => {
                let mut wf = self.workflows[i].duplicate();
                wf.steps_completed = steps_completed;
                wf.status = status.clone();
                wf.result_summary = result_summary.clone();
                self.workflows.set(i, wf);
                Ok(workflow_id)
            },
            None => Err(not_found("Workflow ", &workflow_id)),
        }
    }

    /// Stores a case record: it replaces the first record with its case id, or
    /// is appended; returns the case id.
    pub fn upsert_case(&mut self, case_record: CaseRecord) -> (r: Result<String, String>)
        ensures
            r is Ok,
            r->Ok_0@ == case_record.case_id@,
            final(self).cases() == upserted(old(self).cases(), case_key(), case_record),
            final(self).alerts() == old(self).alerts(),
            final(self).workflows() == old(self).workflows(),
            final(self).risk_entities() == old(self).risk_entities(),
            final(self).alert_count() == old(self).alert_count(),
            final(self).workflow_count() == old(self).workflow_count(),
    {
        let case_id = case_record.case_id.clone();
        match find_case(&self.cases, &case_id) {
            Some(i) => {
                self.cases.set(i, case_record);
            },
            None => {
                self.cases.push(case_record);
            },
        }
        Ok(case_id)
    }

    /// Stores a risky entity: it replaces the first entity with its id, or is
    /// appended; returns the entity id.
    pub fn register_risk_entity(&mut self, entity: RiskEntity) -> (r: Result<String, String>)
        ensures
            r is Ok,
            r->Ok_0@ == entity.entity_id@,
            final(self).risk_entities() == upserted(old(self).risk_entities(), entity_key(), entity),
            final(self).alerts() == old(self).alerts(),
            final(self).workflows() == old(self).workflows(),
            final(self).cases() == old(self).cases(),
            final(self).alert_count() == old(self).alert_count(),
            final(self).workflow_count() == old(self).workflow_count(),
    {
        let entity_id = entity.entity_id.clone();
        match find_entity(&self.risk_entities, &entity_id) {
            Some(i) => {
                self.risk_entities.set(i, entity);
            },
            None => {
                self.risk_entities.push(entity);
            },
        }
        Ok(entity_id)
    }

    /// Up to `limit` alerts of the given severity (or of any, for `ALL`),
    /// newest first.
    pub fn get_live_alerts(&self, severity_filter: String, limit: u32) -> (r: Result<Vec<Alert>, String>)
        ensures
            r is Ok,
            r->Ok_0@ == newest_matching(self.alerts(), severity_is(severity_filter@), limit as nat),
    {
        let ghost keep = severity_is(severity_filter@);
        let ghost s = self.alerts@;
        let mut result: Vec<Alert> = Vec::new();
        let mut count: u32 = 0;
        let mut i: usize = self.alerts.len();
        assert(s.take(i as int) =~= s);
        while i > 0
            invariant
                s == self.alerts@,
                i <= s.len(),
                count <= limit,
                result@.len() == count,
                keep == severity_is(severity_filter@),
                result@ + newest_matching(s.take(i as int), keep, (limit - count) as nat)
                    == newest_matching(s, keep, limit as nat),
            ensures
                i <= s.len(),
                count <= limit,
                i == 0 || count == limit,
                result@ + newest_matching(s.take(i as int), keep, (limit - count) as nat)
                    == newest_matching(s, keep, limit as nat),
            decreases i,
        {
            if count >= limit {
                break;
            }
            let ghost pre = s.take(i as int);
            assert(pre.drop_last() =~= s.take(i - 1));
            assert(pre.last() == s[i - 1]);
            let alert = &self.alerts[i - 1];
            if admits_exec(&severity_filter, &alert.severity) {
                result.push(alert.duplicate());
                count = count + 1;
                assert(result@ + newest_matching(s.take(i - 1), keep, (limit - count) as nat)
                    =~= newest_matching(s, keep, limit as nat));
            }
            i = i - 1;
        }
        proof {
            if i == 0 {
                assert(s.take(0) =~= Seq::<Alert>::empty());
            }
        }
        assert(result@ =~= newest_matching(s, keep, limit as nat));
        Ok(result)
    }

    /// Up to `limit` workflow runs of the given type (or of any, for `ALL`),
    /// newest first.
    pub fn get_workflow_history(&self, workflow_type: String, limit: u32) -> (r: Result<Vec<WorkflowExecution>, String>)
        ensures
            r is Ok,
            r->Ok_0@ == newest_matching(self.workflows(), workflow_type_is(workflow_type@), limit as nat),
    {
        let ghost keep = workflow_type_is(workflow_type@);
        let ghost s = self.workflows@;
        let mut result: Vec<WorkflowExecution> = Vec::new();
        let mut count: u32 = 0;
        let mut i: usize = self.workflows.len();
        assert(s.take(i as int) =~= s);
        while i > 0
            invariant
                s == self.workflows@,
                i <= s.len(),
                count <= limit,
                result@.len() == count,
                keep == workflow_type_is(workflow_type@),
                result@ + newest_matching(s.take(i as int), keep, (limit - count) as nat)
                    == newest_matching(s, keep, limit as nat),
            ensures
                i <= s.len(),
                count <= limit,
                i == 0 || count == limit,
                result@ + newest_matching(s.take(i as int), keep, (limit - count) as nat)
                    == newest_matching(s, keep, limit as nat),
            decreases i,
        {
            if count >= limit {
                break;
            }
            let ghost pre = s.take(i as int);
            assert(pre.drop_last() =~= s.take(i - 1));
            assert(pre.last() == s[i - 1]);
            let wf = &self.workflows[i - 1];
            if admits_exec(&workflow_type, &wf.workflow_type) {
                result.push(wf.duplicate());
                count = count + 1;
                assert(result@ + newest_matching(s.take(i - 1), keep, (limit - count) as nat)
                    =~= newest_matching(s, keep, limit as nat));
            }
            i = i - 1;
        }
        proof {
            if i == 0 {
                assert(s.take(0) =~= Seq::<WorkflowExecution>::empty());
            }
        }
        assert(result@ =~= newest_matching(s, keep, limit as nat));
        Ok(result)
    }

    /// Up to `limit` cases with the given status (or any, for `ALL`), oldest first.
    pub fn get_cases_by_status(&self, status: String, limit: u32) -> (r: Result<Vec<CaseRecord>, String>)
        ensures
            r is Ok,
            r->Ok_0@ == oldest_matching(self.cases(), case_status_is(status@), limit as nat),
    {
        let ghost keep = case_status_is(status@);
        let ghost s = self.cases@;
        let mut result: Vec<CaseRecord> = Vec::new();
        let mut count: u32 = 0;
        let len = self.cases.len();
        let mut i: usize = 0;
        assert(s.skip(0) =~= s);
        while i < len
            invariant
                s == self.cases@,
                len == s.len(),
                i <= len,
                count <= limit,
                result@.len() == count,
                keep == case_status_is(status@),
                result@ + oldest_matching(s.skip(i as int), keep, (limit - count) as nat)
                    == oldest_matching(s, keep, limit as nat),
            ensures
                i <= len,
                count <= limit,
                i == len || count == limit,
                result@ + oldest_matching(s.skip(i as int), keep, (limit - count) as nat)
                    == oldest_matching(s, keep, limit as nat),
            decreases len - i,
        {
            if count >= limit {
                break;
            }
            let ghost rest = s.skip(i as int);
            assert(rest.skip(1) =~= s.skip(i + 1));
            assert(rest[0] == s[i as int]);
            let case = &self.cases[i];
            if admits_exec(&status, &case.status) {
                result.push(case.duplicate());
                count = count + 1;
                assert(result@ + oldest_matching(s.skip(i + 1), keep, (limit - count) as nat)
                    =~= oldest_matching(s, keep, limit as nat));
            }
            i = i + 1;
        }
        proof {
            if i == len {
                assert(s.skip(len as int) =~= Seq::<CaseRecord>::empty());
            }
        }
        assert(result@ =~= oldest_matching(s, keep, limit as nat));
        Ok(result)
    }

    /// The counters, the open cases, the high-risk entities and the compliance score.
    pub fn get_stats(&self) -> (r: Result<SurveillanceStats, String>)
        requires
            self.cases().len() <= u32::MAX,
            self.risk_entities().len() <= u32::MAX,
        ensures
            r is Ok,
            r->Ok_0.total_alerts_today == self.alert_count(),
            r->Ok_0.total_workflows_today == self.workflow_count(),
            r->Ok_0.open_cases == count_matching(self.cases(), case_is_open()),
            r->Ok_0.high_risk_entities == count_matching(self.risk_entities(), entity_is_high_risk()),
            r->Ok_0.compliance_score == compliance_for(self.alert_count()),
    {
        let ghost cs = self.cases@;
        let mut open_cases: u32 = 0;
        let cases_len = self.cases.len();
        let mut i: usize = 0;
        while i < cases_len
            invariant
                cs == self.cases@,
                cases_len == cs.len(),
                i <= cases_len,
                open_cases == count_matching(cs.take(i as int), case_is_open()),
                open_cases <= i,
                cases_len <= u32::MAX,
            decreases cases_len - i,
        {
            assert(cs.take(i + 1).drop_last() =~= cs.take(i as int));
            let case = &self.cases[i];
            if text_is(&case.status, "OPEN") || text_is(&case.status, "INVESTIGATING") {
                open_cases = open_cases + 1;
            }
            i = i + 1;
        }
        assert(cs.take(cases_len as int) =~= cs);
        let ghost es = self.risk_entities@;
        let mut high_risk: u32 = 0;
        let entities_len = self.risk_entities.len();
        let mut k: usize = 0;
        while k < entities_len
            invariant
                es == self.risk_entities@,
                entities_len == es.len(),
                k <= entities_len,
                high_risk == count_matching(es.take(k as int), entity_is_high_risk()),
                high_risk <= k,
                entities_len <= u32::MAX,
            decreases entities_len - k,
        {
            assert(es.take(k + 1).drop_last() =~= es.take(k as int));
            if self.risk_entities[k].risk_score > 70 {
                high_risk = high_risk + 1;
            }
            k = k + 1;
        }
        assert(es.take(entities_len as int) =~= es);
        let compliance = if self.alert_count_today > 100 { 0 } else { 100 - self.alert_count_today };
        Ok(SurveillanceStats {
            total_alerts_today: self.alert_count_today,
            total_workflows_today: self.workflow_count_today,
            open_cases,
            high_risk_entities: high_risk,
            compliance_score: compliance,
        })
    }

    /// Up to `limit` risky entities scoring at least `min_risk_score`, oldest first.
    pub fn get_high_risk_entities(&self, min_risk_score: u32, limit: u32) -> (r: Result<Vec<RiskEntity>, String>)
        ensures
            r is Ok,
            r->Ok_0@ == oldest_matching(self.risk_entities(), risk_at_least(min_risk_score), limit as nat),
    {
        let ghost keep = risk_at_least(min_risk_score);
        let ghost s = self.risk_entities@;
        let mut result: Vec<RiskEntity> = Vec::new();
        let mut count: u32 = 0;
        let len = self.risk_entities.len();
        let mut i: usize = 0;
        assert(s.skip(0) =~= s);
        while i < len
            invariant
                s == self.risk_entities@,
                len == s.len(),
                i <= len,
                count <= limit,
                result@.len() == count,
                keep == risk_at_least(min_risk_score),
                result@ + oldest_matching(s.skip(i as int), keep, (limit - count) as nat)
                    == oldest_matching(s, keep, limit as nat),
            ensures
                i <= len,
                count <= limit,
                i == len || count == limit,
                result@ + oldest_matching(s.skip(i as int), keep, (limit - count) as nat)
                    == oldest_matching(s, keep, limit as nat),
            decreases len - i,
        {
            if count >= limit {
                break;
            }
            let ghost rest = s.skip(i as int);
            assert(rest.skip(1) =~= s.skip(i + 1));
            assert(rest[0] == s[i as int]);
            let entity = &self.risk_entities[i];
            if entity.risk_score >= min_risk_score {
                result.push(entity.duplicate());
                count = count + 1;
                assert(result@ + oldest_matching(s.skip(i + 1), keep, (limit - count) as nat)
                    =~= oldest_matching(s, keep, limit as nat));
            }
            i = i + 1;
        }
        proof {
            if i == len {
                assert(s.skip(len as int) =~= Seq::<RiskEntity>::empty());
            }
        }
        assert(result@ =~= oldest_matching(s, keep, limit as nat));
        Ok(result)
    }

    /// The first case with the id, or an error naming it.
    pub fn get_case_details(&self, case_id: String) -> (r: Result<CaseRecord, String>)
        ensures
            match first_with(self.cases(), case_key(), case_id@) {
                Some(i) => r == Ok::<CaseRecord, String>(self.cases()[i]),
                None => r is Err && r->Err_0@ == "Case "@ + case_id@ + " not found"@,
            },
    {
        match find_case(&self.cases, &case_id) {
            Some(i) => Ok(self.cases[i].duplicate()),
            None => Err(not_found("Case ", &case_id)),
        }
    }

    /// Up to `limit` alerts about an entity, newest first.
    pub fn get_entity_alerts(&self, entity_id: String, limit: u32) -> (r: Result<Vec<Alert>, String>)
        ensures
            r is Ok,
            r->Ok_0@ == newest_matching(self.alerts(), alert_entity_is(entity_id@), limit as nat),
    {
        let ghost keep = alert_entity_is(entity_id@);
        let ghost s = self.alerts@;
        let mut result: Vec<Alert> = Vec::new();
        let mut count: u32 = 0;
        let mut i: usize = self.alerts.len();
        assert(s.take(i as int) =~= s);
        while i > 0
            invariant
                s == self.alerts@,
                i <= s.len(),
                count <= limit,
                result@.len() == count,
                keep == alert_entity_is(entity_id@),
                result@ + newest_matching(s.take(i as int), keep, (limit - count) as nat)
                    == newest_matching(s, keep, limit as nat),
            ensures
                i <= s.len(),
                count <= limit,
                i == 0 || count == limit,
                result@ + newest_matching(s.take(i as int), keep, (limit - count) as nat)
                    == newest_matching(s, keep, limit as nat),
            decreases i,
        {
            if count >= limit {
                break;
            }
            let ghost pre = s.take(i as int);
            assert(pre.drop_last() =~= s.take(i - 1));
            assert(pre.last() == s[i - 1]);
            let alert = &self.alerts[i - 1];
            if alert.entity_id == entity_id {
                result.push(alert.duplicate());
                count = count + 1;
                assert(result@ + newest_matching(s.take(i - 1), keep, (limit - count) as nat)
                    =~= newest_matching(s, keep, limit as nat));
            }
            i = i - 1;
        }
        proof {
            if i == 0 {
                assert(s.take(0) =~= Seq::<Alert>::empty());
            }
        }
        assert(result@ =~= newest_matching(s, keep, limit as nat));
        Ok(result)
    }
}

// ===== Laws =====

/// After a case record is stored, looking its id up returns that record.
pub proof fn law_case_lookup_after_upsert(cases: Seq<CaseRecord>, c: CaseRecord)
    ensures
        first_with(upserted(cases, case_key(), c), case_key(), c.case_id@) matches Some(i)
            && upserted(cases, case_key(), c)[i] == c,
{
    lemma_first_with_bounds(cases, case_key(), c.case_id@);
    let u = upserted(cases, case_key(), c);
    match first_with(cases, case_key(), c.case_id@) {
        Some(i) => {
            assert forall|j: int| 0 <= j < i implies (#[trigger] u[j]).case_id@ != c.case_id@ by {
                assert(u[j] == cases[j]);
            }
            lemma_first_with_is(u, case_key(), c.case_id@, i);
        },
        None => {
            assert forall|j: int| 0 <= j < cases.len() implies (#[trigger] u[j]).case_id@ != c.case_id@ by {
                assert(u[j] == cases[j]);
            }
            lemma_first_with_is(u, case_key(), c.case_id@, cases.len() as int);
        },
    }
}

/// The compliance score never exceeds 100, and it falls by one for each alert
/// up to 100.
pub proof fn law_compliance_score(alerts: u32)
    ensures
        compliance_for(alerts) <= 100,
        alerts <= 100 ==> compliance_for(alerts) + alerts == 100,
        alerts >= 100 ==> compliance_for(alerts) == 0,
{
}

/// `b` is `a` after `push_alert`, as far as the statistics see it.
pub open spec fn alert_pushed(a: SurveillanceDashboardContractState, b: SurveillanceDashboardContractState) -> bool {
    &&& b.alert_count() == a.alert_count() + 1
    &&& b.workflow_count() == a.workflow_count()
    &&& b.cases() == a.cases()
    &&& b.risk_entities() == a.risk_entities()
}

/// `b` is `a` after `log_workflow_start`, as far as the statistics see it.
pub open spec fn workflow_started(a: SurveillanceDashboardContractState, b: SurveillanceDashboardContractState) -> bool {
    &&& b.workflow_count() == a.workflow_count() + 1
    &&& b.alert_count() == a.alert_count()
    &&& b.cases() == a.cases()
    &&& b.risk_entities() == a.risk_entities()
}

pub open spec fn is_alert_call() -> spec_fn(bool) -> bool {
    |call: bool| call
}

pub open spec fn is_workflow_call() -> spec_fn(bool) -> bool {
    |call: bool| !call
}

/// Starting from an empty dashboard, after any interleaving of `k` alerts
/// (`true` in `calls`) and `m` workflow starts (`false`), and no other calls,
/// the statistics count `k` alerts and `m` workflows, no open case and no
/// high-risk entity, and the compliance score is 100 less `k`, floored at 0.
pub proof fn law_stats_after_alerts_and_workflows(states: Seq<SurveillanceDashboardContractState>, calls: Seq<bool>)
    requires
        states.len() == calls.len() + 1,
        states[0].alert_count() == 0,
        states[0].workflow_count() == 0,
        states[0].cases().len() == 0,
        states[0].risk_entities().len() == 0,
        forall|j: int| 0 <= j < calls.len() ==> (#[trigger] calls[j] ==> alert_pushed(states[j], states[j + 1]))
            && (!calls[j] ==> workflow_started(states[j], states[j + 1])),
    ensures
        states.last().alert_count() == count_matching(calls, is_alert_call()),
        states.last().workflow_count() == count_matching(calls, is_workflow_call()),
        count_matching(states.last().cases(), case_is_open()) == 0,
        count_matching(states.last().risk_entities(), entity_is_high_risk()) == 0,
        compliance_for(states.last().alert_count())
            == if count_matching(calls, is_alert_call()) > 100 { 0 } else { 100 - count_matching(calls, is_alert_call()) },
    decreases calls.len(),
{
    if calls.len() == 0 {
        assert(states.last() == states[0]);
        assert(states[0].cases() =~= Seq::<CaseRecord>::empty());
        assert(states[0].risk_entities() =~= Seq::<RiskEntity>::empty());
    } else {
        let n = calls.len();
        let prev_states = states.take(n as int);
        let prev_calls = calls.drop_last();
        assert forall|j: int| 0 <= j < prev_calls.len() implies (#[trigger] prev_calls[j] ==> alert_pushed(prev_states[j], prev_states[j + 1]))
            && (!prev_calls[j] ==> workflow_started(prev_states[j], prev_states[j + 1])) by {
            assert(prev_calls[j] == calls[j]);
            assert(prev_states[j] == states[j]);
            assert(prev_states[j + 1] == states[j + 1]);
        }
        law_stats_after_alerts_and_workflows(prev_states, prev_calls);
        assert(prev_states.last() == states[n - 1]);
        assert(calls.last() == calls[n - 1]);
        assert(states.last() == states[n as int]);
    }
}

/// A stored case adds one to the open-case count when its status is exactly
/// OPEN or INVESTIGATING, and nothing otherwise (ESCALATED and CLOSED cases
/// included).
pub proof fn law_open_cases_are_open_or_investigating(cases: Seq<CaseRecord>, c: CaseRecord)
    ensures
        count_matching(cases.push(c), case_is_open()) == count_matching(cases, case_is_open())
            + if c.status@ == "OPEN"@ || c.status@ == "INVESTIGATING"@ { 1nat } else { 0nat },
        c.status@ == "ESCALATED"@ ==> count_matching(cases.push(c), case_is_open()) == count_matching(cases, case_is_open()),
        c.status@ == "CLOSED"@ ==> count_matching(cases.push(c), case_is_open()) == count_matching(cases, case_is_open()),
{
    reveal_strlit("OPEN");
    reveal_strlit("INVESTIGATING");
    reveal_strlit("ESCALATED");
    reveal_strlit("CLOSED");
    assert("OPEN"@.len() == 4 && "INVESTIGATING"@.len() == 13 && "ESCALATED"@.len() == 9 && "CLOSED"@.len() == 6);
    assert(cases.push(c).drop_last() =~= cases);
    assert("ESCALATED"@ != "OPEN"@ && "ESCALATED"@ != "INVESTIGATING"@);
    assert("CLOSED"@ != "OPEN"@ && "CLOSED"@ != "INVESTIGATING"@);
}

} // verus!
