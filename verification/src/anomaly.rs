//! Anomaly detection: a bounded cache of recent queries that resolves partial
//! entity and symbol references, and the manipulation heuristics (spoofing,
//! wash trading, pump and dump, front running, volume spikes) that run on the
//! resolved names and on market data fetched by the caller.
use vstd::prelude::*;
use crate::text::{contains_seq, decimal, lowercase_of, parse_u64_spec, to_lowercase, contains_ignoring_case, contains_str, parse_u64, push_decimal, push_text, text, text_is};

verus! {

// ===== Configuration and data =====

#[derive(Debug, Clone, PartialEq, Eq)]
pub struct AnomalyDetectionConfig {
    pub dashboard_contract_id: String,
    pub alpha_vantage_key: String,
    pub taapi_secret: String,
}

#[derive(Debug, Clone, PartialEq, Eq)]
pub struct AnomalyResult {
    pub entity_id: String,
    pub symbol: String,
    pub anomaly_type: String,
    pub confidence_score: u32,
    pub details: String,
    pub timestamp: u64,
    pub supporting_evidence: String,
}

#[derive(Debug, Clone, PartialEq, Eq)]
pub struct SpoofingIndicator {
    pub order_id: String,
    pub is_spoof: bool,
    pub cancellation_rate: String,
    pub order_size_vs_market: String,
    pub price_impact: String,
}

#[derive(Debug, Clone, PartialEq, Eq)]
pub struct WashTradeIndicator {
    pub entity_id: String,
    pub counterparty_id: String,
    pub is_wash_trade: bool,
    pub volume_match: bool,
    pub price_match: bool,
    pub time_gap_seconds: u32,
}

#[derive(Debug, Clone, PartialEq, Eq)]
pub struct PumpDumpIndicator {
    pub symbol: String,
    pub is_pump_dump: bool,
    pub price_velocity: String,
    pub volume_surge: String,
    pub social_sentiment_score: i32,
}

/// An alert as the dashboard stores it.
#[derive(Debug, Clone, PartialEq, Eq)]
pub struct Alert {
    pub id: String,
    pub alert_type: String,
    pub severity: String,
    pub risk_score: u32,
    pub entity_id: String,
    pub symbol: String,
    pub description: String,
    pub workflow_id: String,
    pub timestamp: u64,
}

/// One remembered query.
#[derive(Debug, Clone, PartialEq, Eq)]
pub struct QueryHistory {
    pub method_name: String,
    pub entity_id: String,
    pub symbol: String,
    pub timestamp: u64,
    pub natural_language_prompt: String,
}

/// The recent queries, oldest first, and the last entity and symbol named.
#[derive(Debug, Clone, PartialEq, Eq)]
pub struct QueryContext {
    pub recent_queries: Vec<QueryHistory>,
    pub last_entity_id: String,
    pub last_symbol: String,
}

/// The state of the anomaly detection service.
#[derive(Debug)]
pub struct AnomalyDetectionContractState {
    config: AnomalyDetectionConfig,
    query_cache: QueryContext,
}

/// The number of queries the cache keeps.
pub const CACHE_CAPACITY: usize = 10;

// ===== Specifications =====

/// `partial`, mapped to lowercase, occurs in `field` mapped to lowercase.
pub open spec fn mentions(field: Seq<char>, partial: Seq<char>) -> bool {
    contains_seq(lowercase_of(field), lowercase_of(partial))
}

/// A cached query answers a partial entity reference: it names an entity, and
/// that entity or the query's prompt mentions the reference.
pub open spec fn entity_hit(q: QueryHistory, partial: Seq<char>) -> bool {
    q.entity_id@.len() > 0 && (mentions(q.entity_id@, partial) || mentions(q.natural_language_prompt@, partial))
}

/// A cached query answers a partial symbol reference.
pub open spec fn symbol_hit(q: QueryHistory, partial: Seq<char>) -> bool {
    q.symbol@.len() > 0 && mentions(q.symbol@, partial)
}

/// The newest query in `qs` that answers the entity reference.
pub open spec fn newest_entity_hit(qs: Seq<QueryHistory>, partial: Seq<char>) -> Option<QueryHistory>
    decreases qs.len(),
{
    if qs.len() == 0 {
        None
    } else if entity_hit(qs.last(), partial) {
        Some(qs.last())
    } else {
        newest_entity_hit(qs.drop_last(), partial)
    }
}

/// The newest query in `qs` that answers the symbol reference.
pub open spec fn newest_symbol_hit(qs: Seq<QueryHistory>, partial: Seq<char>) -> Option<QueryHistory>
    decreases qs.len(),
{
    if qs.len() == 0 {
        None
    } else if symbol_hit(qs.last(), partial) {
        Some(qs.last())
    } else {
        newest_symbol_hit(qs.drop_last(), partial)
    }
}

/// The entity a partial reference resolves to: the last entity for an empty
/// reference or one the last entity mentions, else the newest cached entity it
/// matches, else the reference itself.
pub open spec fn resolved_entity(ctx: QueryContext, partial: Seq<char>) -> Seq<char> {
    if partial.len() == 0 {
        ctx.last_entity_id@
    } else if mentions(ctx.last_entity_id@, partial) {
        ctx.last_entity_id@
    } else {
        match newest_entity_hit(ctx.recent_queries@, partial) {
            Some(q) => q.entity_id@,
            None => partial,
        }
    }
}

/// The symbol a partial reference resolves to, in the same way.
pub open spec fn resolved_symbol(ctx: QueryContext, partial: Seq<char>) -> Seq<char> {
    if partial.len() == 0 {
        ctx.last_symbol@
    } else if mentions(ctx.last_symbol@, partial) {
        ctx.last_symbol@
    } else {
        match newest_symbol_hit(ctx.recent_queries@, partial) {
            Some(q) => q.symbol@,
            None => partial,
        }
    }
}

/// A cached query matches either reference: its entity, its symbol or its prompt
/// mentions a non-empty reference.
pub open spec fn pair_hit(q: QueryHistory, ep: Seq<char>, sp: Seq<char>) -> bool {
    ||| (ep.len() > 0 && q.entity_id@.len() > 0 && mentions(q.entity_id@, ep))
    ||| (sp.len() > 0 && q.symbol@.len() > 0 && mentions(q.symbol@, sp))
    ||| (ep.len() > 0 && mentions(q.natural_language_prompt@, ep))
    ||| (sp.len() > 0 && mentions(q.natural_language_prompt@, sp))
}

pub open spec fn newest_pair_hit(qs: Seq<QueryHistory>, ep: Seq<char>, sp: Seq<char>) -> Option<QueryHistory>
    decreases qs.len(),
{
    if qs.len() == 0 {
        None
    } else if pair_hit(qs.last(), ep, sp) {
        Some(qs.last())
    } else {
        newest_pair_hit(qs.drop_last(), ep, sp)
    }
}

/// Both names resolved together: from the newest query that matches either
/// reference (filling an empty field of it by single resolution), else each
/// resolved on its own.
pub open spec fn resolved_pair(ctx: QueryContext, ep: Seq<char>, sp: Seq<char>) -> (Seq<char>, Seq<char>) {
    match newest_pair_hit(ctx.recent_queries@, ep, sp) {
        Some(q) => (
            if q.entity_id@.len() == 0 { resolved_entity(ctx, ep) } else { q.entity_id@ },
            if q.symbol@.len() == 0 { resolved_symbol(ctx, sp) } else { q.symbol@ },
        ),
        None => (resolved_entity(ctx, ep), resolved_symbol(ctx, sp)),
    }
}

/// Some cached query has exactly this entity and symbol.
pub open spec fn has_pair(qs: Seq<QueryHistory>, entity: Seq<char>, symbol: Seq<char>) -> bool {
    exists|i: int| 0 <= i < qs.len() && (#[trigger] qs[i]).entity_id@ == entity && qs[i].symbol@ == symbol
}

pub open spec fn entry_is(
    q: QueryHistory,
    method: Seq<char>,
    entity: Seq<char>,
    symbol: Seq<char>,
    timestamp: u64,
    prompt: Seq<char>,
) -> bool {
    &&& q.method_name@ == method
    &&& q.entity_id@ == entity
    &&& q.symbol@ == symbol
    &&& q.timestamp == timestamp
    &&& q.natural_language_prompt@ == prompt
}

/// `new` is `old` after recording a query: a new (entity, symbol) pair is
/// appended with the list length plus one as its sequence number, the oldest
/// query leaving when ten or more are held; a non-empty entity or symbol
/// becomes the last one.
pub open spec fn cache_updated(
    old: QueryContext,
    new: QueryContext,
    method: Seq<char>,
    entity: Seq<char>,
    symbol: Seq<char>,
    prompt: Seq<char>,
) -> bool {
    let qs = old.recent_queries@;
    let nqs = new.recent_queries@;
    &&& if has_pair(qs, entity, symbol) {
        nqs == qs
    } else {
        let kept = if qs.len() >= CACHE_CAPACITY { qs.drop_first() } else { qs };
        &&& nqs.len() == kept.len() + 1
        &&& nqs.drop_last() == kept
        &&& entry_is(nqs.last(), method, entity, symbol, (qs.len() + 1) as u64, prompt)
    }
    &&& new.last_entity_id@ == (if entity.len() > 0 { entity } else { old.last_entity_id@ })
    &&& new.last_symbol@ == (if symbol.len() > 0 { symbol } else { old.last_symbol@ })
}

/// The two contexts hold the same queries and last names.
pub open spec fn same_context(a: QueryContext, b: QueryContext) -> bool {
    &&& a.recent_queries@ == b.recent_queries@
    &&& a.last_entity_id@ == b.last_entity_id@
    &&& a.last_symbol@ == b.last_symbol@
}

/// The queries the service starts with.
pub open spec fn is_sample_context(ctx: QueryContext) -> bool {
    let qs = ctx.recent_queries@;
    &&& qs.len() == 10
    &&& entry_is(qs[0], "detect_spoofing"@, "TRADER-001"@, "RELIANCE"@, 1736700000,
        "Check if order ORD-123 by TRADER-001 is spoofing on RELIANCE"@)
    &&& entry_is(qs[1], "detect_pump_dump"@, ""@, "INFY"@, 1736701000,
        "Is there a pump and dump on INFY in last 30 minutes?"@)
    &&& entry_is(qs[2], "detect_wash_trading"@, "TRADER-001"@, "RELIANCE"@, 1736702000,
        "Check wash trading between TRADER-001 and BROKER-ABC on RELIANCE"@)
    &&& entry_is(qs[3], "analyze_volume_anomaly"@, ""@, "TCS"@, 1736703000,
        "Check volume anomalies on TCS with 5 minute interval"@)
    &&& entry_is(qs[4], "check_rsi_levels"@, ""@, "HDFCBANK"@, 1736704000,
        "What is the RSI for HDFC Bank?"@)
    &&& entry_is(qs[5], "detect_front_running"@, "BROKER-XYZ"@, "WIPRO"@, 1736705000,
        "Check if BROKER-XYZ front ran client order on WIPRO"@)
    &&& entry_is(qs[6], "scan_entity_anomalies"@, "TRADER-002"@, ""@, 1736706000,
        "Run full anomaly scan on TRADER-002"@)
    &&& entry_is(qs[7], "detect_spoofing"@, "TRADER-003"@, "SBIN"@, 1736707000,
        "Is TRADER-003 spoofing orders on SBI?"@)
    &&& entry_is(qs[8], "detect_pump_dump"@, ""@, "BHARTIARTL"@, 1736708000,
        "Analyze Bharti Airtel for pump dump in last hour"@)
    &&& entry_is(qs[9], "detect_wash_trading"@, "TRADER-001"@, "INFY"@, 1736709000,
        "Check if TRADER-001 did wash trades on INFY with any counterparty"@)
    &&& ctx.last_entity_id@ == "TRADER-001"@
    &&& ctx.last_symbol@ == "RELIANCE"@
}

/// Whether an order description marks it as large.
pub open spec fn is_large_order(details: Seq<char>) -> bool {
    contains_seq(details, "qty: 50000"@) || contains_seq(details, "large"@)
}

/// The market volume read from a quote, 10000 when it does not parse.
pub open spec fn quoted_volume_or(volume: Seq<char>, fallback: u64) -> u64 {
    match parse_u64_spec(volume) {
        Some(v) => v,
        None => fallback,
    }
}

pub open spec fn spoofing_prompt(order_id: Seq<char>, entity: Seq<char>, symbol: Seq<char>) -> Seq<char> {
    "Check spoofing for order "@ + order_id + " by "@ + entity + " on "@ + symbol
}

pub open spec fn pump_dump_prompt(symbol: Seq<char>, minutes: u32) -> Seq<char> {
    "Check pump and dump on "@ + symbol + " in last "@ + decimal(minutes as nat) + " minutes"@
}

pub open spec fn volume_prompt(symbol: Seq<char>, interval: Seq<char>) -> Seq<char> {
    "Check volume anomaly on "@ + symbol + " with "@ + interval + " interval"@
}

pub open spec fn rsi_prompt(symbol: Seq<char>) -> Seq<char> {
    "Check RSI levels for "@ + symbol
}

/// The gap between two timestamps.
pub open spec fn gap(a: u64, b: u64) -> nat {
    if b > a { (b - a) as nat } else { (a - b) as nat }
}

// ===== Exact copies =====

impl QueryHistory {
    /// A copy of the entry.
    pub fn duplicate(&self) -> (r: QueryHistory)
        ensures
            r == *self,
    {
        QueryHistory {
            method_name: self.method_name.clone(),
            entity_id: self.entity_id.clone(),
            symbol: self.symbol.clone(),
            timestamp: self.timestamp,
            natural_language_prompt: self.natural_language_prompt.clone(),
        }
    }
}

/// A copy of a list of queries.
pub fn copy_queries(v: &Vec<QueryHistory>) -> (r: Vec<QueryHistory>)
    ensures
        r@ == v@,
{
    let mut qs: Vec<QueryHistory> = Vec::new();
    let mut i: usize = 0;
    while i < v.len()
        invariant
            i <= v.len(),
            qs@ == v@.take(i as int),
        decreases v.len() - i,
    {
        qs.push(v[i].duplicate());
        i = i + 1;
        assert(qs@ =~= v@.take(i as int));
    }
    assert(v@.take(i as int) =~= v@);
    qs
}

impl QueryContext {
    /// A copy of the context.
    pub fn duplicate(&self) -> (r: QueryContext)
        ensures
            same_context(r, *self),
    {
        QueryContext {
            recent_queries: copy_queries(&self.recent_queries),
            last_entity_id: self.last_entity_id.clone(),
            last_symbol: self.last_symbol.clone(),
        }
    }
}

fn history(method: &str, entity: &str, symbol: &str, timestamp: u64, prompt: &str) -> (q: QueryHistory)
    ensures
        entry_is(q, method@, entity@, symbol@, timestamp, prompt@),
{
    QueryHistory {
        method_name: text(method),
        entity_id: text(entity),
        symbol: text(symbol),
        timestamp,
        natural_language_prompt: text(prompt),
    }
}

fn is_empty_text(s: &String) -> (b: bool)
    ensures
        b == (s@.len() == 0),
{
    s.as_str().is_empty()
}

/// Checks an HTTP status: `Ok` with the body for a status in 200..300, else an
/// error that names the status and the body.
pub fn check_http_status(status: u16, body: String) -> (r: Result<String, String>)
    ensures
        200 <= status < 300 ==> r == Ok::<String, String>(body),
        !(200 <= status < 300) ==> r is Err && r->Err_0@ == "HTTP "@ + decimal(status as nat) + ": "@ + body@,
{
    if 200 <= status && status < 300 {
        Ok(body)
    } else {
        let mut e = text("HTTP ");
        push_decimal(&mut e, status as u64);
        e.append(": ");
        push_text(&mut e, &body);
        Err(e)
    }
}

impl AnomalyDetectionContractState {
    #[verifier::type_invariant]
    spec fn cache_bounded(self) -> bool {
        self.query_cache.recent_queries.len() <= CACHE_CAPACITY
    }

    /// The cached context.
    pub closed spec fn context(self) -> QueryContext {
        self.query_cache
    }

    pub closed spec fn configuration(self) -> AnomalyDetectionConfig {
        self.config
    }

    /// The service with its configuration and the ten sample queries.
    pub fn new(config: AnomalyDetectionConfig) -> (r: Result<AnomalyDetectionContractState, String>)
        ensures
            r is Ok,
            is_sample_context(r->Ok_0.context()),
            r->Ok_0.configuration() == config,
    {
        let mut qs: Vec<QueryHistory> = Vec::new();
        qs.push(history("detect_spoofing", "TRADER-001", "RELIANCE", 1736700000,
            "Check if order ORD-123 by TRADER-001 is spoofing on RELIANCE"));
        qs.push(history("detect_pump_dump", "", "INFY", 1736701000,
            "Is there a pump and dump on INFY in last 30 minutes?"));
        qs.push(history("detect_wash_trading", "TRADER-001", "RELIANCE", 1736702000,
            "Check wash trading between TRADER-001 and BROKER-ABC on RELIANCE"));
        qs.push(history("analyze_volume_anomaly", "", "TCS", 1736703000,
            "Check volume anomalies on TCS with 5 minute interval"));
        qs.push(history("check_rsi_levels", "", "HDFCBANK", 1736704000,
            "What is the RSI for HDFC Bank?"));
        qs.push(history("detect_front_running", "BROKER-XYZ", "WIPRO", 1736705000,
            "Check if BROKER-XYZ front ran client order on WIPRO"));
        qs.push(history("scan_entity_anomalies", "TRADER-002", "", 1736706000,
            "Run full anomaly scan on TRADER-002"));
        qs.push(history("detect_spoofing", "TRADER-003", "SBIN", 1736707000,
            "Is TRADER-003 spoofing orders on SBI?"));
        qs.push(history("detect_pump_dump", "", "BHARTIARTL", 1736708000,
            "Analyze Bharti Airtel for pump dump in last hour"));
        qs.push(history("detect_wash_trading", "TRADER-001", "INFY", 1736709000,
            "Check if TRADER-001 did wash trades on INFY with any counterparty"));
        Ok(AnomalyDetectionContractState {
            config,
            query_cache: QueryContext {
                recent_queries: qs,
                last_entity_id: text("TRADER-001"),
                last_symbol: text("RELIANCE"),
            },
        })
    }

    /// The configuration the service was made with.
    pub fn config(&self) -> (r: &AnomalyDetectionConfig)
        ensures
            *r == self.configuration(),
    {
        &self.config
    }

    /// The cached context, copied.
    pub fn get_context(&self) -> (r: QueryContext)
        ensures
            same_context(r, self.context()),
    {
        self.query_cache.duplicate()
    }

    /// Records a query: a new (entity, symbol) pair joins the cache, the oldest
    /// query leaving when ten are held; non-empty names become the last ones.
    pub fn update_cache(&mut self, method_name: &str, entity_id: &str, symbol: &str, prompt: &str)
        ensures
            cache_updated(old(self).context(), final(self).context(), method_name@, entity_id@, symbol@, prompt@),
            final(self).configuration() == old(self).configuration(),
            final(self).context().recent_queries@.len() <= CACHE_CAPACITY,
            has_pair(final(self).context().recent_queries@, entity_id@, symbol@),
    {
        proof { use_type_invariant(&*self); }
        let ghost qs = self.query_cache.recent_queries@;
        let mut already_exists = false;
        let mut i: usize = 0;
        while i < self.query_cache.recent_queries.len()
            invariant
                qs == self.query_cache.recent_queries@,
                i <= qs.len(),
                already_exists == (exists|j: int| 0 <= j < i && (#[trigger] qs[j]).entity_id@ == entity_id@ && qs[j].symbol@ == symbol@),
            decreases qs.len() - i,
        {
            let q = &self.query_cache.recent_queries[i];
            if text_is(&q.entity_id, entity_id) && text_is(&q.symbol, symbol) {
                already_exists = true;
            }
            i = i + 1;
        }
        let mut queries = copy_queries(&self.query_cache.recent_queries);
        if !already_exists {
            let timestamp = queries.len() as u64 + 1;
            if queries.len() >= CACHE_CAPACITY {
                queries.remove(0);
                assert(queries@ =~= qs.drop_first());
            }
            queries.push(QueryHistory {
                method_name: text(method_name),
                entity_id: text(entity_id),
                symbol: text(symbol),
                timestamp,
                natural_language_prompt: text(prompt),
            });
            assert(queries@.drop_last() =~= (if qs.len() >= CACHE_CAPACITY { qs.drop_first() } else { qs }));
            assert(queries@[queries@.len() - 1].entity_id@ == entity_id@);
        } else {
            let ghost j = choose|j: int| 0 <= j < qs.len() && (#[trigger] qs[j]).entity_id@ == entity_id@ && qs[j].symbol@ == symbol@;
            assert(queries@[j] == qs[j]);
        }
        let last_entity = if entity_id.is_empty() {
            self.query_cache.last_entity_id.clone()
        } else {
            text(entity_id)
        };
        let last_symbol = if symbol.is_empty() {
            self.query_cache.last_symbol.clone()
        } else {
            text(symbol)
        };
        self.query_cache = QueryContext { recent_queries: queries, last_entity_id: last_entity, last_symbol };
    }

    /// Resolves a partial entity reference against the cache.
    pub fn resolve_entity(&self, partial: &str) -> (r: String)
        ensures
            r@ == resolved_entity(self.context(), partial@),
    {
        if partial.is_empty() {
            return self.query_cache.last_entity_id.clone();
        }
        let partial_lower = to_lowercase(partial);
        if contains_ignoring_case(&self.query_cache.last_entity_id, &partial_lower) {
            return self.query_cache.last_entity_id.clone();
        }
        let qs = &self.query_cache.recent_queries;
        let mut i: usize = qs.len();
        assert(qs@.take(qs.len() as int) =~= qs@);
        while i > 0
            invariant
                i <= qs.len(),
                partial_lower@ == lowercase_of(partial@),
                partial@.len() > 0,
                !mentions(self.context().last_entity_id@, partial@),
                qs@ == self.context().recent_queries@,
                newest_entity_hit(qs@, partial@) == newest_entity_hit(qs@.take(i as int), partial@),
            decreases i,
        {
            let q = &qs[i - 1];
            assert(qs@.take(i as int).drop_last() =~= qs@.take(i - 1));
            assert(qs@.take(i as int).last() == qs@[i - 1]);
            if !is_empty_text(&q.entity_id) && contains_ignoring_case(&q.entity_id, &partial_lower) {
                return q.entity_id.clone();
            }
            if contains_ignoring_case(&q.natural_language_prompt, &partial_lower) {
                if !is_empty_text(&q.entity_id) {
                    return q.entity_id.clone();
                }
            }
            i = i - 1;
        }
        text(partial)
    }

    /// Resolves a partial symbol reference against the cache.
    pub fn resolve_symbol(&self, partial: &str) -> (r: String)
        ensures
            r@ == resolved_symbol(self.context(), partial@),
    {
        if partial.is_empty() {
            return self.query_cache.last_symbol.clone();
        }
        let partial_lower = to_lowercase(partial);
        if contains_ignoring_case(&self.query_cache.last_symbol, &partial_lower) {
            return self.query_cache.last_symbol.clone();
        }
        let qs = &self.query_cache.recent_queries;
        let mut i: usize = qs.len();
        assert(qs@.take(qs.len() as int) =~= qs@);
        while i > 0
            invariant
                i <= qs.len(),
                partial_lower@ == lowercase_of(partial@),
                partial@.len() > 0,
                !mentions(self.context().last_symbol@, partial@),
                qs@ == self.context().recent_queries@,
                newest_symbol_hit(qs@, partial@) == newest_symbol_hit(qs@.take(i as int), partial@),
            decreases i,
        {
            let q = &qs[i - 1];
            assert(qs@.take(i as int).drop_last() =~= qs@.take(i - 1));
            assert(qs@.take(i as int).last() == qs@[i - 1]);
            if !is_empty_text(&q.symbol) && contains_ignoring_case(&q.symbol, &partial_lower) {
                return q.symbol.clone();
            }
            i = i - 1;
        }
        text(partial)
    }

    /// Resolves an entity and a symbol reference together from one cached query.
    pub fn resolve_from_cache(&self, entity_partial: &str, symbol_partial: &str) -> (r: (String, String))
        ensures
            (r.0@, r.1@) == resolved_pair(self.context(), entity_partial@, symbol_partial@),
    {
        let entity_lower = to_lowercase(entity_partial);
        let symbol_lower = to_lowercase(symbol_partial);
        let has_entity = !entity_partial.is_empty();
        let has_symbol = !symbol_partial.is_empty();
        let qs = &self.query_cache.recent_queries;
        let mut i: usize = qs.len();
        assert(qs@.take(qs.len() as int) =~= qs@);
        while i > 0
            invariant
                i <= qs.len(),
                entity_lower@ == lowercase_of(entity_partial@),
                symbol_lower@ == lowercase_of(symbol_partial@),
                has_entity == (entity_partial@.len() > 0),
                has_symbol == (symbol_partial@.len() > 0),
                qs@ == self.context().recent_queries@,
                newest_pair_hit(qs@, entity_partial@, symbol_partial@)
                    == newest_pair_hit(qs@.take(i as int), entity_partial@, symbol_partial@),
            decreases i,
        {
            let q = &qs[i - 1];
            assert(qs@.take(i as int).drop_last() =~= qs@.take(i - 1));
            assert(qs@.take(i as int).last() == qs@[i - 1]);
            let entity_matches = has_entity && !is_empty_text(&q.entity_id)
                && contains_ignoring_case(&q.entity_id, &entity_lower);
            let symbol_matches = has_symbol && !is_empty_text(&q.symbol)
                && contains_ignoring_case(&q.symbol, &symbol_lower);
            let prompt_matches = (has_entity && contains_ignoring_case(&q.natural_language_prompt, &entity_lower))
                || (has_symbol && contains_ignoring_case(&q.natural_language_prompt, &symbol_lower));
            if entity_matches || symbol_matches || prompt_matches {
                let resolved_entity = if is_empty_text(&q.entity_id) {
                    self.resolve_entity(entity_partial)
                } else {
                    q.entity_id.clone()
                };
                let resolved_symbol = if is_empty_text(&q.symbol) {
                    self.resolve_symbol(symbol_partial)
                } else {
                    q.symbol.clone()
                };
                return (resolved_entity, resolved_symbol);
            }
            i = i - 1;
        }
        (self.resolve_entity(entity_partial), self.resolve_symbol(symbol_partial))
    }

    /// The cache work of a spoofing check: resolves both names together and
    /// records the query; returns the resolved entity and symbol.
    pub fn prepare_spoofing(&mut self, order_id: &String, entity_id: &String, symbol: &String) -> (r: (String, String))
        ensures
            (r.0@, r.1@) == resolved_pair(old(self).context(), entity_id@, symbol@),
            cache_updated(old(self).context(), final(self).context(), "detect_spoofing"@, r.0@, r.1@,
                spoofing_prompt(order_id@, r.0@, r.1@)),
            final(self).configuration() == old(self).configuration(),
    {
        let (resolved_entity, resolved_symbol) = self.resolve_from_cache(entity_id.as_str(), symbol.as_str());
        let mut prompt = text("Check spoofing for order ");
        push_text(&mut prompt, order_id);
        prompt.append(" by ");
        push_text(&mut prompt, &resolved_entity);
        prompt.append(" on ");
        push_text(&mut prompt, &resolved_symbol);
        self.update_cache("detect_spoofing", resolved_entity.as_str(), resolved_symbol.as_str(), prompt.as_str());
        (resolved_entity, resolved_symbol)
    }

    /// Detects wash trading: both parties and the symbol are resolved against the
    /// cache, and the trade is a wash trade when both parties resolve to the same
    /// entity.
    pub fn detect_wash_trading(&self, entity_id: String, counterparty_id: String, symbol: String, trade_timestamp: u64)
        -> (r: Result<WashTradeIndicator, String>)
        ensures
            r is Ok,
            r->Ok_0.entity_id@ == resolved_pair(self.context(), entity_id@, symbol@).0,
            r->Ok_0.counterparty_id@ == resolved_pair(self.context(), counterparty_id@, symbol@).0,
            r->Ok_0.is_wash_trade == (r->Ok_0.entity_id@ == r->Ok_0.counterparty_id@),
            r->Ok_0.volume_match,
            r->Ok_0.price_match,
            r->Ok_0.time_gap_seconds == 0,
    {
        let (resolved_entity, _resolved_symbol) = self.resolve_from_cache(entity_id.as_str(), symbol.as_str());
        let (resolved_counterparty, _) = self.resolve_from_cache(counterparty_id.as_str(), symbol.as_str());
        let is_same_entity = resolved_entity == resolved_counterparty;
        Ok(WashTradeIndicator {
            entity_id: resolved_entity,
            counterparty_id: resolved_counterparty,
            is_wash_trade: is_same_entity,
            volume_match: true,
            price_match: true,
            time_gap_seconds: 0,
        })
    }

    /// The cache work of a pump-and-dump check; returns the resolved symbol.
    pub fn prepare_pump_dump(&mut self, symbol: &String, time_window_minutes: u32) -> (r: String)
        ensures
            r@ == resolved_symbol(old(self).context(), symbol@),
            cache_updated(old(self).context(), final(self).context(), "detect_pump_dump"@, ""@, r@,
                pump_dump_prompt(r@, time_window_minutes)),
            final(self).configuration() == old(self).configuration(),
    {
        let resolved = self.resolve_symbol(symbol.as_str());
        let mut prompt = text("Check pump and dump on ");
        push_text(&mut prompt, &resolved);
        prompt.append(" in last ");
        push_decimal(&mut prompt, time_window_minutes as u64);
        prompt.append(" minutes");
        self.update_cache("detect_pump_dump", "", resolved.as_str(), prompt.as_str());
        resolved
    }

    /// Detects front running: the proprietary trade came less than two seconds
    /// before the client trade.
    pub fn detect_front_running(&self, entity_id: String, symbol: String, client_trade_timestamp: u64, prop_trade_timestamp: u64)
        -> (r: Result<AnomalyResult, String>)
        ensures
            r is Ok,
            (r->Ok_0.entity_id@, r->Ok_0.symbol@) == resolved_pair(self.context(), entity_id@, symbol@),
            r->Ok_0.anomaly_type@ == "FRONT_RUNNING"@,
            r->Ok_0.confidence_score == (if gap(client_trade_timestamp, prop_trade_timestamp) < 2
                && prop_trade_timestamp < client_trade_timestamp { 90u32 } else { 10u32 }),
            r->Ok_0.details@ == "Trade gap: "@ + decimal(gap(client_trade_timestamp, prop_trade_timestamp)) + "s"@,
            r->Ok_0.timestamp == prop_trade_timestamp,
            r->Ok_0.supporting_evidence@ == "Prop desk trade executed immediately prior to large client order"@,
    {
        let (resolved_entity, resolved_symbol) = self.resolve_from_cache(entity_id.as_str(), symbol.as_str());
        let client_ts = client_trade_timestamp;
        let prop_ts = prop_trade_timestamp;
        let diff = if prop_ts > client_ts { prop_ts - client_ts } else { client_ts - prop_ts };
        let is_suspicious = diff < 2 && prop_ts < client_ts;
        let mut details = text("Trade gap: ");
        push_decimal(&mut details, diff);
        details.append("s");
        Ok(AnomalyResult {
            entity_id: resolved_entity,
            symbol: resolved_symbol,
            anomaly_type: text("FRONT_RUNNING"),
            confidence_score: if is_suspicious { 90 } else { 10 },
            details,
            timestamp: prop_ts,
            supporting_evidence: text("Prop desk trade executed immediately prior to large client order"),
        })
    }

    /// The cache work of a volume anomaly check; returns the resolved symbol.
    pub fn prepare_volume_anomaly(&mut self, symbol: &String, interval: &String) -> (r: String)
        ensures
            r@ == resolved_symbol(old(self).context(), symbol@),
            cache_updated(old(self).context(), final(self).context(), "analyze_volume_anomaly"@, ""@, r@,
                volume_prompt(r@, interval@)),
            final(self).configuration() == old(self).configuration(),
    {
        let resolved = self.resolve_symbol(symbol.as_str());
        let mut prompt = text("Check volume anomaly on ");
        push_text(&mut prompt, &resolved);
        prompt.append(" with ");
        push_text(&mut prompt, interval);
        prompt.append(" interval");
        self.update_cache("analyze_volume_anomaly", "", resolved.as_str(), prompt.as_str());
        resolved
    }

    /// The cache work of an RSI check; returns the resolved symbol.
    pub fn prepare_rsi_check(&mut self, symbol: &String) -> (r: String)
        ensures
            r@ == resolved_symbol(old(self).context(), symbol@),
            cache_updated(old(self).context(), final(self).context(), "check_rsi_levels"@, ""@, r@, rsi_prompt(r@)),
            final(self).configuration() == old(self).configuration(),
    {
        let resolved = self.resolve_symbol(symbol.as_str());
        let mut prompt = text("Check RSI levels for ");
        push_text(&mut prompt, &resolved);
        self.update_cache("check_rsi_levels", "", resolved.as_str(), prompt.as_str());
        resolved
    }

    /// A full anomaly scan for an entity; no detector reports yet, so the
    /// result is empty.
    pub fn scan_entity_anomalies(&self, entity_id: String) -> (r: Result<Vec<AnomalyResult>, String>)
        ensures
            r is Ok,
            r->Ok_0@.len() == 0,
    {
        let _resolved_entity = self.resolve_entity(entity_id.as_str());
        Ok(Vec::new())
    }
}

impl AnomalyDetectionContractState {
    /// The spoofing verdict for an order, given the quoted market volume text:
    /// the order is a spoof when its description marks it as large and the
    /// market volume (10000 when the quote does not parse) is below 100000.
    pub fn spoofing_indicator(order_id: String, order_details: &String, quote_volume: &String) -> (r: SpoofingIndicator)
        ensures
            r.order_id@ == order_id@,
            r.is_spoof == (is_large_order(order_details@) && quoted_volume_or(quote_volume@, 10000) < 100000),
            r.cancellation_rate@ == "High"@,
            r.order_size_vs_market@ == (if is_large_order(order_details@) { "15"@ } else { "1"@ }) + "% of daily vol"@,
            r.price_impact@ == "Potential manipulation detected"@,
    {
        let market_volume: u64 = match parse_u64(quote_volume) {
            Some(v) => v,
            None => 10000,
        };
        let is_large_order = contains_str(order_details, "qty: 50000") || contains_str(order_details, "large");
        let is_spoof = is_large_order && market_volume < 100000;
        let mut size = if is_large_order { text("15") } else { text("1") };
        size.append("% of daily vol");
        SpoofingIndicator {
            order_id,
            is_spoof,
            cancellation_rate: text("High"),
            order_size_vs_market: size,
            price_impact: text("Potential manipulation detected"),
        }
    }

    /// The pump-and-dump indicator for a resolved symbol, given whether the
    /// price moved enough to count as a pump and the rendered price velocity.
    pub fn pump_dump_indicator(symbol: String, is_pump: bool, price_velocity: String) -> (r: PumpDumpIndicator)
        ensures
            r.symbol@ == symbol@,
            r.is_pump_dump == is_pump,
            r.price_velocity@ == price_velocity@,
            r.volume_surge@ == "High"@,
            r.social_sentiment_score == (if is_pump { 85i32 } else { 40i32 }),
    {
        PumpDumpIndicator {
            symbol,
            is_pump_dump: is_pump,
            price_velocity,
            volume_surge: text("High"),
            social_sentiment_score: if is_pump { 85 } else { 40 },
        }
    }

    /// The volume anomaly result for a resolved symbol, given the quoted volume
    /// text (0 when it does not parse): confidence 80 above one million, else 20.
    pub fn volume_anomaly_result(symbol: String, quote_volume: &String) -> (r: AnomalyResult)
        ensures
            r.entity_id@ == "MARKET"@,
            r.symbol@ == symbol@,
            r.anomaly_type@ == "VOLUME_SPIKE"@,
            r.confidence_score == (if quoted_volume_or(quote_volume@, 0) > 1000000 { 80u32 } else { 20u32 }),
            r.details@ == "Current Volume: "@ + decimal(quoted_volume_or(quote_volume@, 0) as nat),
            r.timestamp == 0,
            r.supporting_evidence@ == "Volume analysis from Alpha Vantage"@,
    {
        let volume: u64 = match parse_u64(quote_volume) {
            Some(v) => v,
            None => 0,
        };
        let mut details = text("Current Volume: ");
        push_decimal(&mut details, volume);
        AnomalyResult {
            entity_id: text("MARKET"),
            symbol,
            anomaly_type: text("VOLUME_SPIKE"),
            confidence_score: if volume > 1000000 { 80 } else { 20 },
            details,
            timestamp: 0,
            supporting_evidence: text("Volume analysis from Alpha Vantage"),
        }
    }
}

// ===== Laws =====

/// Recording the same query twice leaves the cache as recording it once.
pub proof fn law_update_cache_idempotent(
    c0: QueryContext,
    c1: QueryContext,
    c2: QueryContext,
    method: Seq<char>,
    entity: Seq<char>,
    symbol: Seq<char>,
    prompt: Seq<char>,
)
    requires
        cache_updated(c0, c1, method, entity, symbol, prompt),
        cache_updated(c1, c2, method, entity, symbol, prompt),
    ensures
        same_context(c1, c2),
{
    let qs = c0.recent_queries@;
    let nqs = c1.recent_queries@;
    if has_pair(qs, entity, symbol) {
        let i = choose|i: int| 0 <= i < qs.len() && (#[trigger] qs[i]).entity_id@ == entity && qs[i].symbol@ == symbol;
        assert(nqs[i] == qs[i]);
    } else {
        assert(nqs[nqs.len() - 1] == nqs.last());
    }
}

/// The cache never holds more than ten queries once it holds at most ten.
pub proof fn law_cache_stays_bounded(
    c0: QueryContext,
    c1: QueryContext,
    method: Seq<char>,
    entity: Seq<char>,
    symbol: Seq<char>,
    prompt: Seq<char>,
)
    requires
        c0.recent_queries@.len() <= CACHE_CAPACITY,
        cache_updated(c0, c1, method, entity, symbol, prompt),
    ensures
        c1.recent_queries@.len() <= CACHE_CAPACITY,
{
}

/// An empty reference resolves to the last entity and the last symbol named.
pub proof fn law_empty_reference_resolves_to_last(ctx: QueryContext)
    ensures
        resolved_entity(ctx, Seq::<char>::empty()) == ctx.last_entity_id@,
        resolved_symbol(ctx, Seq::<char>::empty()) == ctx.last_symbol@,
{
}

/// After a query is recorded, an empty reference resolves to the names it
/// recorded, when they are non-empty.
pub proof fn law_recorded_names_become_current(
    c0: QueryContext,
    c1: QueryContext,
    method: Seq<char>,
    entity: Seq<char>,
    symbol: Seq<char>,
    prompt: Seq<char>,
)
    requires
        cache_updated(c0, c1, method, entity, symbol, prompt),
    ensures
        entity.len() > 0 ==> resolved_entity(c1, Seq::<char>::empty()) == entity,
        symbol.len() > 0 ==> resolved_symbol(c1, Seq::<char>::empty()) == symbol,
{
}

proof fn lemma_newest_symbol_hit_is_newest(qs: Seq<QueryHistory>, partial: Seq<char>)
    ensures
        newest_symbol_hit(qs, partial) matches Some(q) ==> exists|j: int| 0 <= j < qs.len() && qs[j] == q
            && q.symbol@.len() > 0 && mentions(q.symbol@, partial)
            && forall|k: int| j < k < qs.len() ==> !(qs[k].symbol@.len() > 0 && mentions(#[trigger] qs[k].symbol@, partial)),
        newest_symbol_hit(qs, partial) is None ==>
            forall|k: int| 0 <= k < qs.len() ==> !(qs[k].symbol@.len() > 0 && mentions(#[trigger] qs[k].symbol@, partial)),
    decreases qs.len(),
{
    if qs.len() > 0 {
        let d = qs.drop_last();
        let n = qs.len() - 1;
        lemma_newest_symbol_hit_is_newest(d, partial);
        assert forall|k: int| 0 <= k < d.len() implies d[k] == #[trigger] qs[k] by {}
        if symbol_hit(qs.last(), partial) {
            assert(qs[n] == qs.last());
        } else {
            assert(qs[n] == qs.last());
            match newest_symbol_hit(d, partial) {
                Some(q) => {
                    let j = choose|j: int| 0 <= j < d.len() && d[j] == q
                        && q.symbol@.len() > 0 && mentions(q.symbol@, partial)
                        && forall|k: int| j < k < d.len() ==> !(d[k].symbol@.len() > 0 && mentions(#[trigger] d[k].symbol@, partial));
                    assert(qs[j] == q);
                    assert forall|k: int| j < k < qs.len() implies !(qs[k].symbol@.len() > 0 && mentions(#[trigger] qs[k].symbol@, partial)) by {
                        if k < n {
                            assert(d[k] == qs[k]);
                        }
                    }
                },
                None => {},
            }
        }
    }
}

/// A non-empty symbol reference that the last symbol does not mention resolves
/// to the symbol of the most recently recorded query whose symbol mentions it
/// (no later query's symbol does), or stays as given when no query's symbol
/// mentions it.
pub proof fn law_symbol_resolves_to_newest_match(ctx: QueryContext, partial: Seq<char>)
    requires
        partial.len() > 0,
        !mentions(ctx.last_symbol@, partial),
    ensures
        ({
            let qs = ctx.recent_queries@;
            ||| exists|j: int| 0 <= j < qs.len() && qs[j].symbol@.len() > 0 && mentions(qs[j].symbol@, partial)
                && resolved_symbol(ctx, partial) == qs[j].symbol@
                && forall|k: int| j < k < qs.len() ==> !(qs[k].symbol@.len() > 0 && mentions(#[trigger] qs[k].symbol@, partial))
            ||| (forall|k: int| 0 <= k < qs.len() ==> !(qs[k].symbol@.len() > 0 && mentions(#[trigger] qs[k].symbol@, partial)))
                && resolved_symbol(ctx, partial) == partial
        }),
{
    lemma_newest_symbol_hit_is_newest(ctx.recent_queries@, partial);
}

} // verus!
