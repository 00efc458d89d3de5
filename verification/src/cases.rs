//! Case management: investigation cases through their lifecycle
//! (OPEN, INVESTIGATING, ESCALATED, CLOSED, moving forward only), evidence and notes,
//! listings, timelines and statistics, and the records pushed to the dashboard.
use vstd::prelude::*;
use crate::text::{decimal, push_decimal, push_text, text, text_is, zero_padded, zero_padded_decimal};
use crate::listing::{count_matching, first_with, lemma_first_with_bounds, lemma_first_with_is, lemma_first_with_none, oldest_matching};

verus! {

// ===== Configuration and data =====

#[derive(Debug, Clone, PartialEq, Eq)]
pub struct CaseManagementConfig {
    pub dashboard_contract_id: String,
}

#[derive(Debug, Clone, PartialEq, Eq)]
pub struct Case {
    pub case_id: String,
    pub case_type: String,
    pub status: String,
    pub priority: String,
    pub subject_entity: String,
    pub symbol: String,
    pub risk_score: u32,
    pub assigned_to: String,
    pub created_at: u64,
    pub updated_at: u64,
    pub summary: String,
}

#[derive(Debug, Clone, PartialEq, Eq)]
pub struct CaseEvidence {
    pub evidence_id: String,
    pub case_id: String,
    pub evidence_type: String,
    pub description: String,
    pub source: String,
    pub timestamp: u64,
}

#[derive(Debug, Clone, PartialEq, Eq)]
pub struct CaseNote {
    pub note_id: String,
    pub case_id: String,
    pub author: String,
    pub content: String,
    pub timestamp: u64,
}

#[derive(Debug, Clone, PartialEq, Eq)]
pub struct CaseEvent {
    pub event_type: String,
    pub description: String,
    pub timestamp: u64,
    pub actor: String,
}

#[derive(Debug, Clone, PartialEq, Eq)]
pub struct CaseTimeline {
    pub case_id: String,
    pub events: Vec<CaseEvent>,
}

/// A case in the form the dashboard stores.
#[derive(Debug, Clone, PartialEq, Eq)]
pub struct DashboardCaseRecord {
    pub case_id: String,
    pub case_type: String,
    pub status: String,
    pub priority: String,
    pub subject_entity: String,
    pub symbol: String,
    pub risk_score: u32,
    pub assigned_to: String,
    pub created_at: u64,
    pub updated_at: u64,
    pub summary: String,
}

/// A case record to hand to the dashboard contract with the given id.
#[derive(Debug, Clone, PartialEq, Eq)]
pub struct DashboardPush {
    pub contract_id: String,
    pub record: DashboardCaseRecord,
}

/// The state of the case management service.
#[derive(Debug)]
pub struct CaseManagementContractState {
    config: CaseManagementConfig,
    cases: Vec<Case>,
    evidence: Vec<CaseEvidence>,
    notes: Vec<CaseNote>,
    events: Vec<CaseEvent>,
    case_counter: u64,
}

// ===== Specifications =====

pub open spec fn case_key() -> spec_fn(Case) -> Seq<char> {
    |c: Case| c.case_id@
}

/// The statuses a case may take.
pub open spec fn is_valid_status(s: Seq<char>) -> bool {
    s == "OPEN"@ || s == "INVESTIGATING"@ || s == "ESCALATED"@ || s == "CLOSED"@
}

/// The error for a status outside the lifecycle.
pub open spec fn invalid_status_message(s: Seq<char>) -> Seq<char> {
    "Invalid status: "@ + s + ". Must be one of: [\"OPEN\", \"INVESTIGATING\", \"ESCALATED\", \"CLOSED\"]"@
}

pub open spec fn case_not_found(id: Seq<char>) -> Seq<char> {
    "Case "@ + id + " not found"@
}

/// The rank of a status in the lifecycle OPEN, INVESTIGATING, ESCALATED,
/// CLOSED; a status outside it ranks with OPEN.
pub open spec fn lifecycle_rank(s: Seq<char>) -> nat {
    if s == "INVESTIGATING"@ { 1 } else if s == "ESCALATED"@ { 2 } else if s == "CLOSED"@ { 3 } else { 0 }
}

/// The error for a move back in the lifecycle.
pub open spec fn backward_message(from: Seq<char>, to: Seq<char>) -> Seq<char> {
    "Invalid status transition: "@ + from + " -> "@ + to
        + ". Cases move forward only: OPEN -> INVESTIGATING -> ESCALATED -> CLOSED"@
}

/// `c` is the case opened with these values and id.
pub open spec fn created(c: Case, id: Seq<char>, case_type: String, subject_entity: String, symbol: String,
    risk_score: u32, priority: String, summary: String) -> bool {
    &&& c.case_id@ == id
    &&& c.case_type == case_type
    &&& c.status@ == "OPEN"@
    &&& c.priority == priority
    &&& c.subject_entity == subject_entity
    &&& c.symbol == symbol
    &&& c.risk_score == risk_score
    &&& c.assigned_to@ == ""@
    &&& c.created_at == 0
    &&& c.updated_at == 0
    &&& c.summary == summary
}

/// The id of the next case: `CASE-` and the counter plus one in six digits.
pub open spec fn case_id_for(counter: u64) -> Seq<char> {
    "CASE-"@ + zero_padded(decimal((counter + 1) as nat), 6)
}

/// A case still open: any status but `CLOSED`, with the given priority (or any,
/// for `ALL`).
pub open spec fn open_with_priority(filter: Seq<char>) -> spec_fn(Case) -> bool {
    |c: Case| c.status@ != "CLOSED"@ && (filter == "ALL"@ || c.priority@ == filter)
}

/// The sort rank of a priority: CRITICAL, HIGH, MEDIUM, then everything else.
pub open spec fn priority_rank(p: Seq<char>) -> nat {
    if p == "CRITICAL"@ { 0 } else if p == "HIGH"@ { 1 } else if p == "MEDIUM"@ { 2 } else { 3 }
}

pub open spec fn rank_is(k: nat) -> spec_fn(Case) -> bool {
    |c: Case| priority_rank(c.priority@) == k
}

/// The cases stably ordered by priority rank.
pub open spec fn by_priority(s: Seq<Case>) -> Seq<Case> {
    s.filter(rank_is(0)) + s.filter(rank_is(1)) + s.filter(rank_is(2)) + s.filter(rank_is(3))
}

/// `e` inserted into `s` after every event at or before its time.
pub open spec fn insert_by_time(s: Seq<CaseEvent>, e: CaseEvent) -> Seq<CaseEvent>
    decreases s.len(),
{
    if s.len() == 0 {
        seq![e]
    } else if s.last().timestamp <= e.timestamp {
        s.push(e)
    } else {
        insert_by_time(s.drop_last(), e).push(s.last())
    }
}

/// The events stably ordered by timestamp.
pub open spec fn sorted_by_time(s: Seq<CaseEvent>) -> Seq<CaseEvent>
    decreases s.len(),
{
    if s.len() == 0 {
        s
    } else {
        insert_by_time(sorted_by_time(s.drop_last()), s.last())
    }
}

pub open spec fn times_ascending(s: Seq<CaseEvent>) -> bool {
    forall|i: int, j: int| 0 <= i <= j < s.len() ==> s[i].timestamp <= s[j].timestamp
}

pub open spec fn subject_is(entity: Seq<char>) -> spec_fn(Case) -> bool {
    |c: Case| c.subject_entity@ == entity
}

pub open spec fn status_is(status: Seq<char>) -> spec_fn(Case) -> bool {
    |c: Case| c.status@ == status
}

pub open spec fn priority_critical() -> spec_fn(Case) -> bool {
    |c: Case| c.priority@ == "CRITICAL"@
}

/// The statistics text: the numbers of cases, of each status and of critical ones.
pub open spec fn stats_text(cases: Seq<Case>) -> Seq<char> {
    "{\"total\":"@ + decimal(cases.len())
        + ", \"open\":"@ + decimal(count_matching(cases, status_is("OPEN"@)))
        + ", \"investigating\":"@ + decimal(count_matching(cases, status_is("INVESTIGATING"@)))
        + ", \"escalated\":"@ + decimal(count_matching(cases, status_is("ESCALATED"@)))
        + ", \"closed\":"@ + decimal(count_matching(cases, status_is("CLOSED"@)))
        + ", \"critical\":"@ + decimal(count_matching(cases, priority_critical()))
        + "}"@
}

/// The dashboard record carries every field of the case.
pub open spec fn mirrors(r: DashboardCaseRecord, c: Case) -> bool {
    &&& r.case_id == c.case_id
    &&& r.case_type == c.case_type
    &&& r.status == c.status
    &&& r.priority == c.priority
    &&& r.subject_entity == c.subject_entity
    &&& r.symbol == c.symbol
    &&& r.risk_score == c.risk_score
    &&& r.assigned_to == c.assigned_to
    &&& r.created_at == c.created_at
    &&& r.updated_at == c.updated_at
    &&& r.summary == c.summary
}

/// What goes to the dashboard for a case: its record, to the configured
/// contract, when one is configured.
pub open spec fn push_for(config: CaseManagementConfig, c: Case, p: Option<DashboardPush>) -> bool {
    if config.dashboard_contract_id@.len() == 0 {
        p is None
    } else {
        p matches Some(push) && push.contract_id@ == config.dashboard_contract_id@ && mirrors(push.record, c)
    }
}

// ===== Copies =====

impl Case {
    pub fn duplicate(&self) -> (r: Case)
        ensures
            r == *self,
    {
        Case {
            case_id: self.case_id.clone(),
            case_type: self.case_type.clone(),
            status: self.status.clone(),
            priority: self.priority.clone(),
            subject_entity: self.subject_entity.clone(),
            symbol: self.symbol.clone(),
            risk_score: self.risk_score,
            assigned_to: self.assigned_to.clone(),
            created_at: self.created_at,
            updated_at: self.updated_at,
            summary: self.summary.clone(),
        }
    }

    /// The dashboard's record of this case.
    pub fn dashboard_record(&self) -> (r: DashboardCaseRecord)
        ensures
            mirrors(r, *self),
    {
        DashboardCaseRecord {
            case_id: self.case_id.clone(),
            case_type: self.case_type.clone(),
            status: self.status.clone(),
            priority: self.priority.clone(),
            subject_entity: self.subject_entity.clone(),
            symbol: self.symbol.clone(),
            risk_score: self.risk_score,
            assigned_to: self.assigned_to.clone(),
            created_at: self.created_at,
            updated_at: self.updated_at,
            summary: self.summary.clone(),
        }
    }
}

impl CaseEvent {
    pub fn duplicate(&self) -> (r: CaseEvent)
        ensures
            r == *self,
    {
        CaseEvent {
            event_type: self.event_type.clone(),
            description: self.description.clone(),
            timestamp: self.timestamp,
            actor: self.actor.clone(),
        }
    }
}

fn find_case(cs: &Vec<Case>, id: &String) -> (r: Option<usize>)
    ensures
        r matches Some(i) ==> first_with(cs@, case_key(), id@) == Some(i as int) && i < cs@.len(),
        r is None ==> first_with(cs@, case_key(), id@) is None,
{
    let mut i: usize = 0;
    while i < cs.len()
        invariant
            i <= cs.len(),
            forall|j: int| 0 <= j < i ==> (#[trigger] cs@[j]).case_id@ != id@,
        decreases cs.len() - i,
    {
        if cs[i].case_id == *id {
            proof { lemma_first_with_is(cs@, case_key(), id@, i as int); }
            return Some(i);
        }
        i = i + 1;
    }
    proof { lemma_first_with_none(cs@, case_key(), id@); }
    None
}

fn case_not_found_text(id: &String) -> (e: String)
    ensures
        e@ == case_not_found(id@),
{
    let mut e = text("Case ");
    push_text(&mut e, id);
    e.append(" not found");
    e
}

/// Whether the status is one of the four of the lifecycle.
pub fn valid_status(s: &String) -> (b: bool)
    ensures
        b == is_valid_status(s@),
{
    text_is(s, "OPEN") || text_is(s, "INVESTIGATING") || text_is(s, "ESCALATED") || text_is(s, "CLOSED")
}

/// The lifecycle rank of a status.
pub fn lifecycle_rank_of(s: &String) -> (k: u8)
    ensures
        k as nat == lifecycle_rank(s@),
{
    if text_is(s, "INVESTIGATING") { 1 } else if text_is(s, "ESCALATED") { 2 } else if text_is(s, "CLOSED") { 3 } else { 0 }
}

/// The sort rank of a priority.
pub fn priority_rank_of(p: &String) -> (k: u8)
    ensures
        k as nat == priority_rank(p@),
{
    if text_is(p, "CRITICAL") { 0 } else if text_is(p, "HIGH") { 1 } else if text_is(p, "MEDIUM") { 2 } else { 3 }
}

/// Up to `limit` open cases with the priority (or any, for `ALL`), taken in
/// order and then stably ordered by priority: CRITICAL, HIGH, MEDIUM, others.
pub fn select_open_cases(cases: &Vec<Case>, priority_filter: &String, limit: u32) -> (r: Vec<Case>)
    ensures
        r@ == by_priority(oldest_matching(cases@, open_with_priority(priority_filter@), limit as nat)),
{
    let ghost keep = open_with_priority(priority_filter@);
    let ghost s = cases@;
    let mut chosen: Vec<Case> = Vec::new();
    let mut count: u32 = 0;
    let len = cases.len();
    let mut i: usize = 0;
    assert(s.skip(0) =~= s);
    while i < len
        invariant
            s == cases@,
            len == s.len(),
            i <= len,
            count <= limit,
            chosen@.len() == count,
            keep == open_with_priority(priority_filter@),
            chosen@ + oldest_matching(s.skip(i as int), keep, (limit - count) as nat)
                == oldest_matching(s, keep, limit as nat),
        ensures
            i <= len,
            count <= limit,
            i == len || count == limit,
            chosen@ + oldest_matching(s.skip(i as int), keep, (limit - count) as nat)
                == oldest_matching(s, keep, limit as nat),
        decreases len - i,
    {
        if count >= limit {
            break;
        }
        let ghost rest = s.skip(i as int);
        assert(rest.skip(1) =~= s.skip(i + 1));
        assert(rest[0] == s[i as int]);
        let case = &cases[i];
        if !text_is(&case.status, "CLOSED") && (text_is(priority_filter, "ALL") || case.priority == *priority_filter) {
            chosen.push(case.duplicate());
            count = count + 1;
            assert(chosen@ + oldest_matching(s.skip(i + 1), keep, (limit - count) as nat)
                =~= oldest_matching(s, keep, limit as nat));
        }
        i = i + 1;
    }
    proof {
        if i == len {
            assert(s.skip(len as int) =~= Seq::<Case>::empty());
        }
    }
    assert(chosen@ =~= oldest_matching(s, keep, limit as nat));
    let mut result: Vec<Case> = Vec::new();
    let mut rank: u8 = 0;
    while rank < 4
        invariant
            rank <= 4,
            rank == 0 ==> result@ == Seq::<Case>::empty(),
            rank == 1 ==> result@ == chosen@.filter(rank_is(0)),
            rank == 2 ==> result@ == chosen@.filter(rank_is(0)) + chosen@.filter(rank_is(1)),
            rank == 3 ==> result@ == chosen@.filter(rank_is(0)) + chosen@.filter(rank_is(1))
                + chosen@.filter(rank_is(2)),
            rank == 4 ==> result@ == by_priority(chosen@),
        decreases 4 - rank,
    {
        let ghost before = result@;
        let mut k: usize = 0;
        while k < chosen.len()
            invariant
                rank < 4,
                k <= chosen.len(),
                result@ == before + chosen@.take(k as int).filter(rank_is(rank as nat)),
            decreases chosen.len() - k,
        {
            let ghost pre = chosen@.take(k + 1);
            assert(pre.drop_last() =~= chosen@.take(k as int));
            proof { lemma_filter_push(chosen@.take(k as int), rank_is(rank as nat), chosen@[k as int]); }
            assert(pre =~= chosen@.take(k as int).push(chosen@[k as int]));
            if priority_rank_of(&chosen[k].priority) == rank {
                result.push(chosen[k].duplicate());
            }
            k = k + 1;
            assert(result@ =~= before + chosen@.take(k as int).filter(rank_is(rank as nat)));
        }
        assert(chosen@.take(chosen.len() as int) =~= chosen@);
        rank = rank + 1;
    }
    result
}

proof fn lemma_filter_push<T>(s: Seq<T>, keep: spec_fn(T) -> bool, x: T)
    ensures
        s.push(x).filter(keep) == (if keep(x) { s.filter(keep).push(x) } else { s.filter(keep) }),
{
    reveal_with_fuel(Seq::filter, 1);
    assert(s.push(x).drop_last() =~= s);
}

/// The events stably ordered by timestamp.
pub fn sort_events_by_time(events: &Vec<CaseEvent>) -> (r: Vec<CaseEvent>)
    ensures
        r@ == sorted_by_time(events@),
{
    let mut out: Vec<CaseEvent> = Vec::new();
    let mut i: usize = 0;
    while i < events.len()
        invariant
            i <= events.len(),
            out@ == sorted_by_time(events@.take(i as int)),
        decreases events.len() - i,
    {
        let e = events[i].duplicate();
        let ghost s = out@;
        let mut j: usize = out.len();
        assert(s.take(j as int) =~= s);
        assert(s.skip(j as int) =~= Seq::<CaseEvent>::empty());
        while j > 0 && out[j - 1].timestamp > e.timestamp
            invariant
                s == out@,
                j <= s.len(),
                insert_by_time(s, e) == insert_by_time(s.take(j as int), e) + s.skip(j as int),
            decreases j,
        {
            let ghost t = s.take(j as int);
            assert(t.drop_last() =~= s.take(j - 1));
            assert(t.last() == s[j - 1]);
            assert(seq![s[j - 1]] + s.skip(j as int) =~= s.skip(j - 1));
            assert(insert_by_time(t, e) == insert_by_time(s.take(j - 1), e).push(s[j - 1]));
            assert(insert_by_time(s.take(j - 1), e).push(s[j - 1]) + s.skip(j as int)
                =~= insert_by_time(s.take(j - 1), e) + s.skip(j - 1));
            j = j - 1;
        }
        proof {
            let t = s.take(j as int);
            if j == 0 {
                assert(t =~= Seq::<CaseEvent>::empty());
            }
            assert(insert_by_time(t, e) == t.push(e));
        }
        out.insert(j, e);
        assert(out@ =~= s.take(j as int).push(e) + s.skip(j as int));
        assert(events@.take(i + 1).drop_last() =~= events@.take(i as int));
        i = i + 1;
    }
    assert(events@.take(events.len() as int) =~= events@);
    out
}

/// The cases about an entity, in order.
pub fn cases_of_entity(cases: &Vec<Case>, entity_id: &String) -> (r: Vec<Case>)
    ensures
        r@ == cases@.filter(subject_is(entity_id@)),
{
    let mut result: Vec<Case> = Vec::new();
    let mut i: usize = 0;
    while i < cases.len()
        invariant
            i <= cases.len(),
            result@ == cases@.take(i as int).filter(subject_is(entity_id@)),
        decreases cases.len() - i,
    {
        proof { lemma_filter_push(cases@.take(i as int), subject_is(entity_id@), cases@[i as int]); }
        assert(cases@.take(i + 1) =~= cases@.take(i as int).push(cases@[i as int]));
        if cases[i].subject_entity == *entity_id {
            result.push(cases[i].duplicate());
        }
        i = i + 1;
    }
    assert(cases@.take(cases.len() as int) =~= cases@);
    result
}

/// The statistics text for the cases.
pub fn case_stats_text(cases: &Vec<Case>) -> (r: String)
    requires
        cases@.len() <= u32::MAX,
    ensures
        r@ == stats_text(cases@),
{
    let mut total: u32 = 0;
    let mut open: u32 = 0;
    let mut investigating: u32 = 0;
    let mut escalated: u32 = 0;
    let mut closed: u32 = 0;
    let mut critical: u32 = 0;
    let mut i: usize = 0;
    while i < cases.len()
        invariant
            i <= cases.len(),
            cases@.len() <= u32::MAX,
            total == i,
            open == count_matching(cases@.take(i as int), status_is("OPEN"@)),
            investigating == count_matching(cases@.take(i as int), status_is("INVESTIGATING"@)),
            escalated == count_matching(cases@.take(i as int), status_is("ESCALATED"@)),
            closed == count_matching(cases@.take(i as int), status_is("CLOSED"@)),
            critical == count_matching(cases@.take(i as int), priority_critical()),
            open <= i && investigating <= i && escalated <= i && closed <= i && critical <= i,
        decreases cases.len() - i,
    {
        assert(cases@.take(i + 1).drop_last() =~= cases@.take(i as int));
        assert(cases@.take(i + 1).last() == cases@[i as int]);
        proof {
            reveal_strlit("OPEN");
            reveal_strlit("INVESTIGATING");
            reveal_strlit("ESCALATED");
            reveal_strlit("CLOSED");
            assert("OPEN"@.len() == 4 && "INVESTIGATING"@.len() == 13 && "ESCALATED"@.len() == 9 && "CLOSED"@.len() == 6);
            assert("OPEN"@ != "INVESTIGATING"@ && "OPEN"@ != "ESCALATED"@ && "OPEN"@ != "CLOSED"@);
            assert("INVESTIGATING"@ != "ESCALATED"@ && "INVESTIGATING"@ != "CLOSED"@ && "ESCALATED"@ != "CLOSED"@);
        }
        let case = &cases[i];
        total = total + 1;
        if text_is(&case.status, "OPEN") {
            open = open + 1;
        } else if text_is(&case.status, "INVESTIGATING") {
            investigating = investigating + 1;
        } else if text_is(&case.status, "ESCALATED") {
            escalated = escalated + 1;
        } else if text_is(&case.status, "CLOSED") {
            closed = closed + 1;
        }
        if text_is(&case.priority, "CRITICAL") {
            critical = critical + 1;
        }
        i = i + 1;
    }
    assert(cases@.take(cases.len() as int) =~= cases@);
    let mut out = text("{\"total\":");
    push_decimal(&mut out, total as u64);
    out.append(", \"open\":");
    push_decimal(&mut out, open as u64);
    out.append(", \"investigating\":");
    push_decimal(&mut out, investigating as u64);
    out.append(", \"escalated\":");
    push_decimal(&mut out, escalated as u64);
    out.append(", \"closed\":");
    push_decimal(&mut out, closed as u64);
    out.append(", \"critical\":");
    push_decimal(&mut out, critical as u64);
    out.append("}");
    out
}

impl CaseManagementContractState {
    pub closed spec fn configuration(self) -> CaseManagementConfig {
        self.config
    }

    pub closed spec fn cases(self) -> Seq<Case> {
        self.cases@
    }

    pub closed spec fn events(self) -> Seq<CaseEvent> {
        self.events@
    }

    pub closed spec fn evidence(self) -> Seq<CaseEvidence> {
        self.evidence@
    }

    pub closed spec fn notes(self) -> Seq<CaseNote> {
        self.notes@
    }

    pub closed spec fn counter(self) -> u64 {
        self.case_counter
    }

    /// The service with its configuration and nothing stored.
    pub fn new(config: CaseManagementConfig) -> (r: Result<CaseManagementContractState, String>)
        ensures
            r is Ok,
            r->Ok_0.configuration() == config,
            r->Ok_0.cases().len() == 0,
            r->Ok_0.events().len() == 0,
            r->Ok_0.evidence().len() == 0,
            r->Ok_0.notes().len() == 0,
            r->Ok_0.counter() == 0,
    {
        Ok(CaseManagementContractState {
            config,
            cases: Vec::new(),
            evidence: Vec::new(),
            notes: Vec::new(),
            events: Vec::new(),
            case_counter: 0,
        })
    }

    /// The number of cases created so far.
    pub fn case_counter(&self) -> (r: u64)
        ensures
            r == self.counter(),
    {
        self.case_counter
    }

    /// The number of cases held.
    pub fn case_total(&self) -> (r: usize)
        ensures
            r == self.cases().len(),
    {
        self.cases.len()
    }

    /// The number of pieces of evidence held.
    pub fn evidence_total(&self) -> (r: usize)
        ensures
            r == self.evidence().len(),
    {
        self.evidence.len()
    }

    /// The number of notes held.
    pub fn note_total(&self) -> (r: usize)
        ensures
            r == self.notes().len(),
    {
        self.notes.len()
    }

    /// The id the next case gets.
    pub fn generate_case_id(&self) -> (r: String)
        requires
            self.counter() < u64::MAX,
        ensures
            r@ == case_id_for(self.counter()),
    {
        let mut id = text("CASE-");
        let digits = zero_padded_decimal(self.case_counter + 1, 6);
        push_text(&mut id, &digits);
        id
    }

    /// What goes to the dashboard for a case.
    pub fn dashboard_push(&self, case: &Case) -> (r: Option<DashboardPush>)
        ensures
            push_for(self.configuration(), *case, r),
    {
        if self.config.dashboard_contract_id.as_str().is_empty() {
            None
        } else {
            Some(DashboardPush { contract_id: self.config.dashboard_contract_id.clone(), record: case.dashboard_record() })
        }
    }

    /// Opens a case: an `OPEN` case with the next id, unassigned, stamped at
    /// time 0, is stored and reported to the dashboard; its id is returned.
    pub fn create_case(&mut self, case_type: String, subject_entity: String, symbol: String, risk_score: u32, priority: String, summary: String)
        -> (r: (Result<String, String>, Option<DashboardPush>))
        requires
            old(self).counter() < u64::MAX,
        ensures
            r.0 is Ok,
            r.0->Ok_0@ == case_id_for(old(self).counter()),
            final(self).cases().len() == old(self).cases().len() + 1,
            final(self).cases().drop_last() == old(self).cases(),
            created(final(self).cases().last(), r.0->Ok_0@, case_type, subject_entity, symbol, risk_score, priority, summary),
            push_for(old(self).configuration(), final(self).cases().last(), r.1),
            final(self).counter() == old(self).counter() + 1,
            final(self).configuration() == old(self).configuration(),
            final(self).events() == old(self).events(),
            final(self).evidence() == old(self).evidence(),
            final(self).notes() == old(self).notes(),
    {
        let case_id = self.generate_case_id();
        let now: u64 = 0;
        let case = Case {
            case_id: case_id.clone(),
            case_type,
            status: text("OPEN"),
            priority,
            subject_entity,
            symbol,
            risk_score,
            assigned_to: text(""),
            created_at: now,
            updated_at: now,
            summary,
        };
        let push = self.dashboard_push(&case);
        self.cases.push(case);
        self.case_counter = self.case_counter + 1;
        assert(self.cases@.drop_last() =~= old(self).cases@);
        (Ok(case_id), push)
    }

    /// Moves a case forward in its lifecycle, stamped at time 0, stores it and
    /// reports it to the dashboard; errors for an unknown status, an unknown
    /// case or a move back in the lifecycle, which leave everything unchanged.
    pub fn update_case_status(&mut self, case_id: String, new_status: String, status_note: String)
        -> (r: (Result<Case, String>, Option<DashboardPush>))
        ensures
            final(self).configuration() == old(self).configuration(),
            final(self).counter() == old(self).counter(),
            final(self).events() == old(self).events(),
            final(self).evidence() == old(self).evidence(),
            final(self).notes() == old(self).notes(),
            r.0 is Err ==> r.1 is None && final(self).cases() == old(self).cases(),
            r.0 matches Ok(c) ==> is_valid_status(c.status@),
            !is_valid_status(new_status@) ==> r.0 is Err && r.0->Err_0@ == invalid_status_message(new_status@),
            is_valid_status(new_status@) ==> match first_with(old(self).cases(), case_key(), case_id@) {
                None => r.0 is Err && r.0->Err_0@ == case_not_found(case_id@),
                Some(i) => if lifecycle_rank(new_status@) < lifecycle_rank(old(self).cases()[i].status@) {
                    r.0 is Err && r.0->Err_0@ == backward_message(old(self).cases()[i].status@, new_status@)
                } else {
                    &&& r.0 is Ok
                    &&& r.0->Ok_0 == (Case { status: new_status, updated_at: 0, ..old(self).cases()[i] })
                    &&& final(self).cases() == old(self).cases().update(i, r.0->Ok_0)
                    &&& push_for(old(self).configuration(), r.0->Ok_0, r.1)
                },
            },
    {
        let _ = status_note;
        if !valid_status(&new_status) {
            let mut e = text("Invalid status: ");
            push_text(&mut e, &new_status);
            e.append(". Must be one of: [\"OPEN\", \"INVESTIGATING\", \"ESCALATED\", \"CLOSED\"]");
            return (Err(e), None);
        }
        proof { lemma_first_with_bounds(self.cases@, case_key(), case_id@); }
        match find_case(&self.cases, &case_id) {
            None => (Err(case_not_found_text(&case_id)), None),
            Some(i) => {
                let current = self.cases[i].status.clone();
                if lifecycle_rank_of(&new_status) < lifecycle_rank_of(&current) {
                    let mut e = text("Invalid status transition: ");
                    push_text(&mut e, &current);
                    e.append(" -> ");
                    push_text(&mut e, &new_status);
                    e.append(". Cases move forward only: OPEN -> INVESTIGATING -> ESCALATED -> CLOSED");
                    return (Err(e), None);
                }
                let mut updated = self.cases[i].duplicate();
                updated.status = new_status;
                updated.updated_at = 0;
                let push = self.dashboard_push(&updated);
                let stored = updated.duplicate();
                self.cases.set(i, stored);
                (Ok(updated), push)
            },
        }
    }

    /// Assigns a case to an investigator, stamped at time 0, stores it and
    /// reports it to the dashboard; errors for an unknown case, which leaves
    /// everything unchanged.
    pub fn assign_case(&mut self, case_id: String, assigned_to: String) -> (r: (Result<Case, String>, Option<DashboardPush>))
        ensures
            final(self).configuration() == old(self).configuration(),
            final(self).counter() == old(self).counter(),
            final(self).events() == old(self).events(),
            final(self).evidence() == old(self).evidence(),
            final(self).notes() == old(self).notes(),
            match first_with(old(self).cases(), case_key(), case_id@) {
                None => r.0 is Err && r.0->Err_0@ == case_not_found(case_id@) && r.1 is None
                    && final(self).cases() == old(self).cases(),
                Some(i) => {
                    &&& r.0 is Ok
                    &&& r.0->Ok_0 == (Case { assigned_to: assigned_to, updated_at: 0, ..old(self).cases()[i] })
                    &&& final(self).cases() == old(self).cases().update(i, r.0->Ok_0)
                    &&& push_for(old(self).configuration(), r.0->Ok_0, r.1)
                },
            },
    {
        proof { lemma_first_with_bounds(self.cases@, case_key(), case_id@); }
        match find_case(&self.cases, &case_id) {
            None => (Err(case_not_found_text(&case_id)), None),
            Some(i) => {
                let mut updated = self.cases[i].duplicate();
                updated.assigned_to = assigned_to;
                updated.updated_at = 0;
                let push = self.dashboard_push(&updated);
                let stored = updated.duplicate();
                self.cases.set(i, stored);
                (Ok(updated), push)
            },
        }
    }

    /// Records a piece of evidence on a case, stamped at time 0; returns its id.
    pub fn add_evidence(&mut self, case_id: String, evidence_type: String, description: String, source: String)
        -> (r: Result<String, String>)
        requires
            old(self).evidence().len() + 1 < usize::MAX,
        ensures
            r is Ok,
            r->Ok_0@ == "EV-"@ + case_id@ + "-"@ + decimal(old(self).evidence().len() + 1),
            final(self).evidence() == old(self).evidence().push(CaseEvidence {
                evidence_id: r->Ok_0,
                case_id: case_id,
                evidence_type: evidence_type,
                description: description,
                source: source,
                timestamp: 0,
            }),
            final(self).configuration() == old(self).configuration(),
            final(self).counter() == old(self).counter(),
            final(self).cases() == old(self).cases(),
            final(self).events() == old(self).events(),
            final(self).notes() == old(self).notes(),
    {
        let mut id = text("EV-");
        push_text(&mut id, &case_id);
        id.append("-");
        push_decimal(&mut id, (self.evidence.len() + 1) as u64);
        let evidence = CaseEvidence {
            evidence_id: id.clone(),
            case_id,
            evidence_type,
            description,
            source,
            timestamp: 0,
        };
        self.evidence.push(evidence);
        Ok(id)
    }

    /// Records a note on a case, stamped at time 0; returns its id.
    pub fn add_note(&mut self, case_id: String, author: String, content: String) -> (r: Result<String, String>)
        requires
            old(self).notes().len() + 1 < usize::MAX,
        ensures
            r is Ok,
            r->Ok_0@ == "NOTE-"@ + case_id@ + "-"@ + decimal(old(self).notes().len() + 1),
            final(self).notes() == old(self).notes().push(CaseNote {
                note_id: r->Ok_0,
                case_id: case_id,
                author: author,
                content: content,
                timestamp: 0,
            }),
            final(self).configuration() == old(self).configuration(),
            final(self).counter() == old(self).counter(),
            final(self).cases() == old(self).cases(),
            final(self).events() == old(self).events(),
            final(self).evidence() == old(self).evidence(),
    {
        let mut id = text("NOTE-");
        push_text(&mut id, &case_id);
        id.append("-");
        push_decimal(&mut id, (self.notes.len() + 1) as u64);
        let note = CaseNote { note_id: id.clone(), case_id, author, content, timestamp: 0 };
        self.notes.push(note);
        Ok(id)
    }

    /// The case with the id, or an error naming it.
    pub fn get_case(&self, case_id: String) -> (r: Result<Case, String>)
        ensures
            match first_with(self.cases(), case_key(), case_id@) {
                Some(i) => r == Ok::<Case, String>(self.cases()[i]),
                None => r is Err && r->Err_0@ == case_not_found(case_id@),
            },
    {
        match find_case(&self.cases, &case_id) {
            Some(i) => Ok(self.cases[i].duplicate()),
            None => Err(case_not_found_text(&case_id)),
        }
    }

    /// Up to `limit` open cases of the priority, ordered by priority.
    pub fn list_open_cases(&self, priority_filter: String, limit: u32) -> (r: Result<Vec<Case>, String>)
        ensures
            r is Ok,
            r->Ok_0@ == by_priority(oldest_matching(self.cases(), open_with_priority(priority_filter@), limit as nat)),
    {
        Ok(select_open_cases(&self.cases, &priority_filter, limit))
    }

    /// Every recorded event, ordered by time.
    pub fn get_case_timeline(&self, case_id: String) -> (r: Result<CaseTimeline, String>)
        ensures
            r is Ok,
            r->Ok_0.case_id == case_id,
            r->Ok_0.events@ == sorted_by_time(self.events()),
    {
        Ok(CaseTimeline { case_id, events: sort_events_by_time(&self.events) })
    }

    /// The cases about an entity.
    pub fn get_entity_cases(&self, entity_id: String) -> (r: Result<Vec<Case>, String>)
        ensures
            r is Ok,
            r->Ok_0@ == self.cases().filter(subject_is(entity_id@)),
    {
        Ok(cases_of_entity(&self.cases, &entity_id))
    }

    /// The statistics text.
    pub fn get_case_stats(&self) -> (r: Result<String, String>)
        requires
            self.cases().len() <= u32::MAX,
        ensures
            r is Ok,
            r->Ok_0@ == stats_text(self.cases()),
    {
        Ok(case_stats_text(&self.cases))
    }
}

// ===== Laws =====

proof fn lemma_insert_keeps_order(s: Seq<CaseEvent>, e: CaseEvent)
    requires
        times_ascending(s),
    ensures
        times_ascending(insert_by_time(s, e)),
        insert_by_time(s, e).len() == s.len() + 1,
        forall|k: int| 0 <= k < insert_by_time(s, e).len() ==> #[trigger] insert_by_time(s, e)[k] == e
            || s.contains(insert_by_time(s, e)[k]),
    decreases s.len(),
{
    if s.len() > 0 && s.last().timestamp > e.timestamp {
        let d = s.drop_last();
        assert(times_ascending(d));
        lemma_insert_keeps_order(d, e);
        let t = insert_by_time(d, e);
        let r = t.push(s.last());
        assert forall|k: int| 0 <= k < t.len() implies (#[trigger] t[k]).timestamp <= s.last().timestamp by {
            if t[k] == e {
            } else {
                let m = choose|m: int| 0 <= m < d.len() && d[m] == t[k];
                assert(d[m] == s[m]);
            }
        }
        assert forall|k: int| 0 <= k < r.len() implies #[trigger] r[k] == e || s.contains(r[k]) by {
            if k < t.len() {
                assert(r[k] == t[k]);
                if t[k] != e {
                    let m = choose|m: int| 0 <= m < d.len() && d[m] == t[k];
                    assert(s[m] == d[m]);
                }
            } else {
                assert(s[s.len() - 1] == s.last());
            }
        }
    } else if s.len() > 0 {
        let r = s.push(e);
        assert forall|k: int| 0 <= k < r.len() implies #[trigger] r[k] == e || s.contains(r[k]) by {
            if k < s.len() {
                assert(r[k] == s[k]);
            }
        }
    }
}

/// A case timeline is ordered by time and holds as many events as were recorded.
pub proof fn law_timeline_in_time_order(events: Seq<CaseEvent>)
    ensures
        times_ascending(sorted_by_time(events)),
        sorted_by_time(events).len() == events.len(),
    decreases events.len(),
{
    if events.len() > 0 {
        law_timeline_in_time_order(events.drop_last());
        lemma_insert_keeps_order(sorted_by_time(events.drop_last()), events.last());
    }
}

/// Open cases are listed with every CRITICAL case before every HIGH one, HIGH
/// before MEDIUM and MEDIUM before the rest, and none of them is closed.
pub proof fn law_open_cases_ordered_by_priority(s: Seq<Case>, filter: Seq<char>, limit: nat)
    ensures
        forall|i: int, j: int| 0 <= i <= j < by_priority(oldest_matching(s, open_with_priority(filter), limit)).len()
            ==> priority_rank(by_priority(oldest_matching(s, open_with_priority(filter), limit))[i].priority@)
                <= priority_rank(by_priority(oldest_matching(s, open_with_priority(filter), limit))[j].priority@),
        forall|i: int| 0 <= i < by_priority(oldest_matching(s, open_with_priority(filter), limit)).len()
            ==> (#[trigger] by_priority(oldest_matching(s, open_with_priority(filter), limit))[i]).status@ != "CLOSED"@,
{
    let sel = oldest_matching(s, open_with_priority(filter), limit);
    crate::listing::law_oldest_matching_bounded(s, open_with_priority(filter), limit);
    let f0 = sel.filter(rank_is(0));
    let f1 = sel.filter(rank_is(1));
    let f2 = sel.filter(rank_is(2));
    let f3 = sel.filter(rank_is(3));
    let r = by_priority(sel);
    crate::listing::lemma_filter_within(sel, rank_is(0));
    crate::listing::lemma_filter_within(sel, rank_is(1));
    crate::listing::lemma_filter_within(sel, rank_is(2));
    crate::listing::lemma_filter_within(sel, rank_is(3));
    assert(r =~= f0 + f1 + f2 + f3);
    assert forall|k: int| 0 <= k < r.len() implies
        (k < f0.len() ==> priority_rank(r[k].priority@) == 0)
        && (f0.len() <= k < f0.len() + f1.len() ==> priority_rank(r[k].priority@) == 1)
        && (f0.len() + f1.len() <= k < f0.len() + f1.len() + f2.len() ==> priority_rank(r[k].priority@) == 2)
        && (f0.len() + f1.len() + f2.len() <= k ==> priority_rank(r[k].priority@) == 3)
        && sel.contains(r[k]) by {
        if k < f0.len() {
            assert(r[k] == f0[k]);
            assert(rank_is(0)(f0[k]));
            assert(sel.contains(f0[k]));
        } else if k < f0.len() + f1.len() {
            assert(r[k] == f1[k - f0.len()]);
            assert(rank_is(1)(f1[k - f0.len()]));
            assert(sel.contains(f1[k - f0.len()]));
        } else if k < f0.len() + f1.len() + f2.len() {
            assert(r[k] == f2[k - f0.len() - f1.len()]);
            assert(rank_is(2)(f2[k - f0.len() - f1.len()]));
            assert(sel.contains(f2[k - f0.len() - f1.len()]));
        } else {
            assert(r[k] == f3[k - f0.len() - f1.len() - f2.len()]);
            assert(rank_is(3)(f3[k - f0.len() - f1.len() - f2.len()]));
            assert(sel.contains(f3[k - f0.len() - f1.len() - f2.len()]));
        }
    }
    assert forall|i: int| 0 <= i < r.len() implies (#[trigger] r[i]).status@ != "CLOSED"@ by {
        let m = choose|m: int| 0 <= m < sel.len() && sel[m] == r[i];
        assert(open_with_priority(filter)(sel[m]));
    }
}

/// The lifecycle a case moves through, in order.
pub open spec fn lifecycle() -> Seq<Seq<char>> {
    seq!["OPEN"@, "INVESTIGATING"@, "ESCALATED"@, "CLOSED"@]
}

/// A status update between two statuses of the lifecycle is refused exactly
/// when it moves back: from OPEN a case may go to INVESTIGATING, ESCALATED or
/// CLOSED (or stay OPEN), and so on down the line, but never return to an
/// earlier status.
pub proof fn law_status_moves_forward_only(i: int, j: int)
    requires
        0 <= i < 4,
        0 <= j < 4,
    ensures
        is_valid_status(lifecycle()[j]),
        (lifecycle_rank(lifecycle()[j]) < lifecycle_rank(lifecycle()[i])) <==> j < i,
{
    reveal_strlit("OPEN");
    reveal_strlit("INVESTIGATING");
    reveal_strlit("ESCALATED");
    reveal_strlit("CLOSED");
    assert("OPEN"@.len() == 4 && "INVESTIGATING"@.len() == 13 && "ESCALATED"@.len() == 9 && "CLOSED"@.len() == 6);
    let l = lifecycle();
    assert(l[0] == "OPEN"@ && l[1] == "INVESTIGATING"@ && l[2] == "ESCALATED"@ && l[3] == "CLOSED"@);
    assert("OPEN"@ != "INVESTIGATING"@ && "OPEN"@ != "ESCALATED"@ && "OPEN"@ != "CLOSED"@);
    assert("INVESTIGATING"@ != "ESCALATED"@ && "INVESTIGATING"@ != "CLOSED"@ && "ESCALATED"@ != "CLOSED"@);
}

} // verus!
