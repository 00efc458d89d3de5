//! UPSI tracking: the REST queries for unpublished price sensitive
//! information, its access logs and trading windows, and the checks made on
//! their answers: access before a date for a company, and trading inside a
//! closed window.
use vstd::prelude::*;
use crate::text::{decimal, push_decimal, push_text, text, text_is};

verus! {

// ===== Configuration and data =====

#[derive(Debug, Clone, PartialEq, Eq)]
pub struct UPSIDatabaseConfig {
    pub dashboard_contract_id: String,
    pub supabase_url: String,
    pub supabase_anon_key: String,
}

#[derive(Debug, Clone, PartialEq, Eq)]
pub struct UPSIRecord {
    pub upsi_id: String,
    pub company_symbol: String,
    pub upsi_type: String,
    pub description: String,
    pub nature: String,
    pub created_date: u64,
    pub public_date: u64,
    pub is_public: bool,
}

#[derive(Debug, Clone, PartialEq, Eq)]
pub struct UPSIAccessLog {
    pub access_id: String,
    pub upsi_id: String,
    pub accessor_entity_id: String,
    pub accessor_name: String,
    pub accessor_designation: String,
    pub access_timestamp: u64,
    pub access_reason: String,
    pub access_mode: String,
}

#[derive(Debug, Clone, PartialEq, Eq)]
pub struct TradingWindowStatus {
    pub company_symbol: String,
    pub window_status: String,
    pub closure_reason: String,
    pub closure_start: u64,
    pub expected_opening: u64,
}

/// The state of the UPSI service.
#[derive(Debug)]
pub struct UPSIDatabaseContractState {
    config: UPSIDatabaseConfig,
}

/// The time that access look-backs count from.
pub const REFERENCE_NOW: u64 = 1735689600;

// ===== Specifications =====

/// The start of a look-back of `days_back` days, clamped at 0.
pub open spec fn lookback_start(days_back: u32) -> u64 {
    if REFERENCE_NOW > days_back as nat * 86400 { (REFERENCE_NOW - days_back as nat * 86400) as u64 } else { 0 }
}

/// The logs whose UPSI record was found and concerns the company.
pub open spec fn logs_about(logs: Seq<UPSIAccessLog>, records: Seq<Result<UPSIRecord, String>>, company: Seq<char>) -> Seq<UPSIAccessLog>
    decreases logs.len(),
{
    if logs.len() == 0 || records.len() == 0 {
        Seq::<UPSIAccessLog>::empty()
    } else {
        let rest = logs_about(logs.drop_last(), records.drop_last(), company);
        match records.last() {
            Ok(r) => if r.company_symbol@ == company { rest.push(logs.last()) } else { rest },
            Err(_) => rest,
        }
    }
}

/// A trade falls in a closed window: the window is `CLOSED` and the trade is
/// at or after its start and before its expected opening.
pub open spec fn in_closed_window(w: TradingWindowStatus, trade_timestamp: u64) -> bool {
    w.window_status@ == "CLOSED"@ && w.closure_start <= trade_timestamp && trade_timestamp < w.expected_opening
}

// ===== Operations =====

impl UPSIAccessLog {
    pub fn duplicate(&self) -> (r: UPSIAccessLog)
        ensures
            r == *self,
    {
        UPSIAccessLog {
            access_id: self.access_id.clone(),
            upsi_id: self.upsi_id.clone(),
            accessor_entity_id: self.accessor_entity_id.clone(),
            accessor_name: self.accessor_name.clone(),
            accessor_designation: self.accessor_designation.clone(),
            access_timestamp: self.access_timestamp,
            access_reason: self.access_reason.clone(),
            access_mode: self.access_mode.clone(),
        }
    }
}

impl UPSIDatabaseContractState {
    pub closed spec fn configuration(self) -> UPSIDatabaseConfig {
        self.config
    }

    /// The service with its configuration.
    pub fn new(config: UPSIDatabaseConfig) -> (r: Result<UPSIDatabaseContractState, String>)
        ensures
            r is Ok,
            r->Ok_0.configuration() == config,
    {
        Ok(UPSIDatabaseContractState { config })
    }

    /// The REST URL of an endpoint of the configured database.
    pub fn rest_url(&self, endpoint: &String) -> (r: String)
        ensures
            r@ == self.configuration().supabase_url@ + "/rest/v1/"@ + endpoint@,
    {
        let mut url = self.config.supabase_url.clone();
        url.append("/rest/v1/");
        push_text(&mut url, endpoint);
        url
    }

    /// The `Authorization` header value for the configured key.
    pub fn bearer_header(&self) -> (r: String)
        ensures
            r@ == "Bearer "@ + self.configuration().supabase_anon_key@,
    {
        let mut h = text("Bearer ");
        push_text(&mut h, &self.config.supabase_anon_key);
        h
    }

    /// The query for one UPSI record.
    pub fn upsi_endpoint(upsi_id: &String) -> (r: String)
        ensures
            r@ == "upsi_records?upsi_id=eq."@ + upsi_id@ + "&select=*"@,
    {
        let mut e = text("upsi_records?upsi_id=eq.");
        push_text(&mut e, upsi_id);
        e.append("&select=*");
        e
    }

    /// The query for a company's UPSI not yet public.
    pub fn active_upsi_endpoint(company_symbol: &String) -> (r: String)
        ensures
            r@ == "upsi_records?company_symbol=eq."@ + company_symbol@ + "&is_public=eq.false&select=*"@,
    {
        let mut e = text("upsi_records?company_symbol=eq.");
        push_text(&mut e, company_symbol);
        e.append("&is_public=eq.false&select=*");
        e
    }

    /// The query for the accesses to a UPSI record in a time range.
    pub fn access_log_endpoint(upsi_id: &String, from_timestamp: u64, to_timestamp: u64) -> (r: String)
        ensures
            r@ == "upsi_access_log?upsi_id=eq."@ + upsi_id@ + "&access_timestamp=gte."@ + decimal(from_timestamp as nat)
                + "&access_timestamp=lte."@ + decimal(to_timestamp as nat) + "&select=*"@,
    {
        let mut e = text("upsi_access_log?upsi_id=eq.");
        push_text(&mut e, upsi_id);
        e.append("&access_timestamp=gte.");
        push_decimal(&mut e, from_timestamp);
        e.append("&access_timestamp=lte.");
        push_decimal(&mut e, to_timestamp);
        e.append("&select=*");
        e
    }

    /// The start of a look-back of `days_back` days from the reference time.
    pub fn lookback_start(days_back: u32) -> (r: u64)
        ensures
            r == lookback_start(days_back),
    {
        let now: u64 = REFERENCE_NOW;
        let days_in_seconds = days_back as u64 * 86400;
        if now > days_in_seconds { now - days_in_seconds } else { 0 }
    }

    /// The query for a person's accesses over the last `days_back` days.
    pub fn access_by_person_endpoint(accessor_entity_id: &String, days_back: u32) -> (r: String)
        ensures
            r@ == "upsi_access_log?accessor_entity_id=eq."@ + accessor_entity_id@ + "&access_timestamp=gte."@
                + decimal(lookback_start(days_back) as nat) + "&select=*"@,
    {
        let start_time = Self::lookback_start(days_back);
        let mut e = text("upsi_access_log?accessor_entity_id=eq.");
        push_text(&mut e, accessor_entity_id);
        e.append("&access_timestamp=gte.");
        push_decimal(&mut e, start_time);
        e.append("&select=*");
        e
    }

    /// The query for a person's accesses before a time.
    pub fn access_before_endpoint(entity_id: &String, before_timestamp: u64) -> (r: String)
        ensures
            r@ == "upsi_access_log?accessor_entity_id=eq."@ + entity_id@ + "&access_timestamp=lt."@
                + decimal(before_timestamp as nat) + "&select=*"@,
    {
        let mut e = text("upsi_access_log?accessor_entity_id=eq.");
        push_text(&mut e, entity_id);
        e.append("&access_timestamp=lt.");
        push_decimal(&mut e, before_timestamp);
        e.append("&select=*");
        e
    }

    /// The query for a company's trading window.
    pub fn trading_window_endpoint(company_symbol: &String) -> (r: String)
        ensures
            r@ == "trading_windows?company_symbol=eq."@ + company_symbol@ + "&select=*"@,
    {
        let mut e = text("trading_windows?company_symbol=eq.");
        push_text(&mut e, company_symbol);
        e.append("&select=*");
        e
    }

    /// The query for everyone who accessed a UPSI record.
    pub fn accessors_endpoint(upsi_id: &String) -> (r: String)
        ensures
            r@ == "upsi_access_log?upsi_id=eq."@ + upsi_id@ + "&select=*"@,
    {
        let mut e = text("upsi_access_log?upsi_id=eq.");
        push_text(&mut e, upsi_id);
        e.append("&select=*");
        e
    }

    /// The first record returned for an id, or an error naming it.
    pub fn first_record(records: Vec<UPSIRecord>, upsi_id: &String) -> (r: Result<UPSIRecord, String>)
        ensures
            records@.len() > 0 ==> r == Ok::<UPSIRecord, String>(records@[0]),
            records@.len() == 0 ==> r is Err && r->Err_0@ == "UPSI record "@ + upsi_id@ + " not found"@,
    {
        let mut records = records;
        if records.len() > 0 {
            Ok(records.remove(0))
        } else {
            let mut e = text("UPSI record ");
            push_text(&mut e, upsi_id);
            e.append(" not found");
            Err(e)
        }
    }

    /// The first trading window returned for a company, or an error naming it.
    pub fn first_window(windows: Vec<TradingWindowStatus>, company_symbol: &String) -> (r: Result<TradingWindowStatus, String>)
        ensures
            windows@.len() > 0 ==> r == Ok::<TradingWindowStatus, String>(windows@[0]),
            windows@.len() == 0 ==> r is Err && r->Err_0@ == "Trading window info for "@ + company_symbol@ + " not found"@,
    {
        let mut windows = windows;
        if windows.len() > 0 {
            Ok(windows.remove(0))
        } else {
            let mut e = text("Trading window info for ");
            push_text(&mut e, company_symbol);
            e.append(" not found");
            Err(e)
        }
    }

    /// The logs whose UPSI record (looked up per log, in order) concerns the
    /// company; logs whose record could not be found are left out.
    pub fn logs_for_company(logs: &Vec<UPSIAccessLog>, records: &Vec<Result<UPSIRecord, String>>, company_symbol: &String)
        -> (r: Vec<UPSIAccessLog>)
        requires
            logs@.len() == records@.len(),
        ensures
            r@ == logs_about(logs@, records@, company_symbol@),
    {
        let mut out: Vec<UPSIAccessLog> = Vec::new();
        let mut i: usize = 0;
        while i < logs.len()
            invariant
                i <= logs.len(),
                logs@.len() == records@.len(),
                out@ == logs_about(logs@.take(i as int), records@.take(i as int), company_symbol@),
            decreases logs.len() - i,
        {
            assert(logs@.take(i + 1).drop_last() =~= logs@.take(i as int));
            assert(records@.take(i + 1).drop_last() =~= records@.take(i as int));
            assert(logs@.take(i + 1).last() == logs@[i as int]);
            assert(records@.take(i + 1).last() == records@[i as int]);
            match &records[i] {
                Ok(record) => {
                    if record.company_symbol == *company_symbol {
                        out.push(logs[i].duplicate());
                    }
                },
                Err(_) => {},
            }
            i = i + 1;
        }
        assert(logs@.take(logs.len() as int) =~= logs@);
        assert(records@.take(logs.len() as int) =~= records@);
        out
    }

    /// Whether a trade fell inside a closed trading window; a window that could
    /// not be found counts as open.
    pub fn window_violation(window: &Result<TradingWindowStatus, String>, trade_timestamp: u64) -> (r: Result<bool, String>)
        ensures
            match window {
                Ok(w) => r == Ok::<bool, String>(in_closed_window(*w, trade_timestamp)),
                Err(_) => r == Ok::<bool, String>(false),
            },
    {
        match window {
            Ok(w) => {
                if text_is(&w.window_status, "CLOSED") {
                    if trade_timestamp >= w.closure_start && trade_timestamp < w.expected_opening {
                        return Ok(true);
                    }
                }
                Ok(false)
            },
            Err(_) => Ok(false),
        }
    }
}

/// A looked-up record concerns the company: it was found and names it.
pub open spec fn record_concerns(company: Seq<char>) -> spec_fn(Result<UPSIRecord, String>) -> bool {
    |r: Result<UPSIRecord, String>| r matches Ok(x) && x.company_symbol@ == company
}

/// `x` is a log whose record concerns the company.
pub open spec fn logged_for(logs: Seq<UPSIAccessLog>, records: Seq<Result<UPSIRecord, String>>, company: Seq<char>, x: UPSIAccessLog) -> bool {
    exists|i: int| 0 <= i < logs.len() && logs[i] == x && record_concerns(company)(records[i])
}

/// The access logs kept for a company are exactly those whose record was found
/// and names the company: one for each such record, none other, every such
/// log among them.
pub proof fn law_company_logs_all_kept(logs: Seq<UPSIAccessLog>, records: Seq<Result<UPSIRecord, String>>, company: Seq<char>)
    requires
        logs.len() == records.len(),
    ensures
        logs_about(logs, records, company).len() == records.filter(record_concerns(company)).len(),
        forall|i: int| 0 <= i < logs.len() && record_concerns(company)(#[trigger] records[i])
            ==> logs_about(logs, records, company).contains(logs[i]),
        forall|k: int| 0 <= k < logs_about(logs, records, company).len()
            ==> logged_for(logs, records, company, #[trigger] logs_about(logs, records, company)[k]),
    decreases logs.len(),
{
    reveal_with_fuel(Seq::filter, 1);
    if logs.len() > 0 {
        let dl = logs.drop_last();
        let dr = records.drop_last();
        let n = logs.len() - 1;
        law_company_logs_all_kept(dl, dr, company);
        assert(records =~= dr.push(records.last()));
        assert(records.filter(record_concerns(company)) == if record_concerns(company)(records.last()) {
            dr.filter(record_concerns(company)).push(records.last())
        } else {
            dr.filter(record_concerns(company))
        }) by {
            assert(records.drop_last() =~= dr);
        }
        let rest = logs_about(dl, dr, company);
        let out = logs_about(logs, records, company);
        assert(logs[n] == logs.last() && records[n] == records.last());
        assert forall|i: int| 0 <= i < logs.len() && record_concerns(company)(#[trigger] records[i])
            implies out.contains(logs[i]) by {
            if i < n {
                assert(dr[i] == records[i] && dl[i] == logs[i]);
                assert(rest.contains(dl[i]));
                let m = choose|m: int| 0 <= m < rest.len() && rest[m] == dl[i];
                assert(out[m] == rest[m]);
            } else {
                assert(out[out.len() - 1] == logs.last());
            }
        }
        assert forall|k: int| 0 <= k < out.len() implies logged_for(logs, records, company, #[trigger] out[k]) by {
            if k < rest.len() {
                assert(out[k] == rest[k]);
                assert(logged_for(dl, dr, company, rest[k]));
                let i = choose|i: int| 0 <= i < dl.len() && dl[i] == rest[k] && record_concerns(company)(dr[i]);
                assert(logs[i] == dl[i] && records[i] == dr[i]);
            } else {
                assert(out[k] == logs[n]);
            }
        }
    } else {
        assert(records.filter(record_concerns(company)) =~= Seq::<Result<UPSIRecord, String>>::empty());
    }
}

} // verus!
