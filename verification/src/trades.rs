//! Trade data: the API endpoints for trade queries, and the integer analysis
//! of fetched trades: volume totals and concentration among the top accounts,
//! per-account and per-symbol activity, merged multi-account histories, and
//! the windows of a volume anomaly check.
use vstd::prelude::*;
use crate::text::{decimal, push_decimal, push_text, split_on, split_text, text, text_is, trim_seq, trim_text};

verus! {

// ===== Configuration and data =====

#[derive(Debug, Clone, PartialEq, Eq)]
pub struct TradeDataConfig {
    pub api_endpoint: String,
    pub api_key: String,
    pub dashboard_contract_id: String,
}

#[derive(Debug, Clone, PartialEq, Eq)]
pub struct Trade {
    pub trade_id: String,
    pub symbol: String,
    pub account_id: String,
    pub trade_type: String,
    pub quantity: u64,
    pub price: String,
    pub value: String,
    pub exchange: String,
    pub segment: String,
    pub timestamp: u64,
    pub order_id: String,
}

#[derive(Debug, Clone, PartialEq, Eq)]
pub struct TradeAnalysis {
    pub symbol: String,
    pub total_volume: u64,
    pub avg_price: String,
    pub high_price: String,
    pub low_price: String,
    pub buy_volume: u64,
    pub sell_volume: u64,
    pub trade_count: u32,
    pub concentration_ratio: String,
}

#[derive(Debug, Clone, PartialEq, Eq)]
pub struct VolumeAnomaly {
    pub symbol: String,
    pub current_volume: u64,
    pub avg_volume_30d: u64,
    pub volume_ratio: String,
    pub is_anomaly: bool,
    pub anomaly_score: u32,
}

#[derive(Debug, Clone, PartialEq, Eq)]
pub struct AccountActivity {
    pub account_id: String,
    pub symbol: String,
    pub buy_quantity: u64,
    pub sell_quantity: u64,
    pub net_position: i64,
    pub trade_count: u32,
    pub first_trade_time: u64,
    pub last_trade_time: u64,
}

/// The integer part of a volume analysis: total, buy and sell volume, the
/// number of trades (truncated to 32 bits) and the volume of the five most
/// active accounts.
#[derive(Debug, Clone, PartialEq, Eq)]
pub struct VolumeTotals {
    pub total_volume: u64,
    pub buy_volume: u64,
    pub sell_volume: u64,
    pub trade_count: u32,
    pub top5_volume: u64,
}

/// The days compared by a volume anomaly check.
#[derive(Debug, Clone, PartialEq, Eq)]
pub struct AnomalyWindow {
    pub day_start: u64,
    pub day_end: u64,
    pub thirty_days_ago: u64,
}

/// The state of the trade data service.
#[derive(Debug)]
pub struct TradeDataContractState {
    config: TradeDataConfig,
}

/// Milliseconds in a day.
pub const DAY_MS: u64 = 86400000;

// ===== Specifications =====

pub open spec fn is_buy(t: Trade) -> bool {
    t.trade_type@ == "BUY"@
}

/// The total quantity of the trades.
pub open spec fn quantity_sum(ts: Seq<Trade>) -> nat
    decreases ts.len(),
{
    if ts.len() == 0 { 0 } else { quantity_sum(ts.drop_last()) + ts.last().quantity as nat }
}

/// The total quantity of the buys (`buys`) or of the other trades.
pub open spec fn side_sum(ts: Seq<Trade>, buys: bool) -> nat
    decreases ts.len(),
{
    if ts.len() == 0 {
        0
    } else {
        side_sum(ts.drop_last(), buys) + if is_buy(ts.last()) == buys { ts.last().quantity as nat } else { 0nat }
    }
}

/// A running tally: key, bought, sold, trades, first and last time.
pub type Tally = (Seq<char>, nat, nat, nat, u64, u64);

pub open spec fn tally_index(tallies: Seq<Tally>, key: Seq<char>) -> Option<int>
    decreases tallies.len(),
{
    if tallies.len() == 0 {
        None
    } else {
        match tally_index(tallies.drop_last(), key) {
            Some(i) => Some(i),
            None => if tallies.last().0 == key { Some(tallies.len() - 1) } else { None },
        }
    }
}

/// A tally after one more trade.
pub open spec fn bumped(t: Tally, trade: Trade) -> Tally {
    (
        t.0,
        if is_buy(trade) { t.1 + trade.quantity as nat } else { t.1 },
        if is_buy(trade) { t.2 } else { t.2 + trade.quantity as nat },
        t.3 + 1,
        if trade.timestamp < t.4 { trade.timestamp } else { t.4 },
        if trade.timestamp > t.5 { trade.timestamp } else { t.5 },
    )
}

/// The tallies after one more trade under `key`: its tally bumped, or a new one.
pub open spec fn tally_add(tallies: Seq<Tally>, key: Seq<char>, trade: Trade) -> Seq<Tally> {
    match tally_index(tallies, key) {
        Some(i) => tallies.update(i, bumped(tallies[i], trade)),
        None => tallies.push(bumped((key, 0nat, 0nat, 0nat, trade.timestamp, trade.timestamp), trade)),
    }
}

/// The tallies of the trades grouped by `key_of`, in order of first appearance.
pub open spec fn tallies(ts: Seq<Trade>, key_of: spec_fn(Trade) -> Seq<char>) -> Seq<Tally>
    decreases ts.len(),
{
    if ts.len() == 0 {
        Seq::<Tally>::empty()
    } else {
        tally_add(tallies(ts.drop_last(), key_of), key_of(ts.last()), ts.last())
    }
}

pub open spec fn by_account() -> spec_fn(Trade) -> Seq<char> {
    |t: Trade| t.account_id@
}

pub open spec fn by_symbol() -> spec_fn(Trade) -> Seq<char> {
    |t: Trade| t.symbol@
}

/// An activity reports a tally; `key_is_account` says which field holds the
/// key, the other holding `fixed`.
pub open spec fn reports(a: AccountActivity, t: Tally, key_is_account: bool, fixed: Seq<char>) -> bool {
    &&& if key_is_account { a.account_id@ == t.0 && a.symbol@ == fixed } else { a.symbol@ == t.0 && a.account_id@ == fixed }
    &&& a.buy_quantity == t.1
    &&& a.sell_quantity == t.2
    &&& a.net_position == t.1 - t.2
    &&& a.trade_count == t.3
    &&& a.first_trade_time == t.4
    &&& a.last_trade_time == t.5
}

pub open spec fn reports_all(acts: Seq<AccountActivity>, ts: Seq<Tally>, key_is_account: bool, fixed: Seq<char>) -> bool {
    &&& acts.len() == ts.len()
    &&& forall|i: int| 0 <= i < acts.len() ==> reports(#[trigger] acts[i], ts[i], key_is_account, fixed)
}

/// `x` inserted after every tally with at least its volume.
pub open spec fn insert_tally(s: Seq<Tally>, x: Tally) -> Seq<Tally>
    decreases s.len(),
{
    if s.len() == 0 {
        seq![x]
    } else if s.last().1 + s.last().2 >= x.1 + x.2 {
        s.push(x)
    } else {
        insert_tally(s.drop_last(), x).push(s.last())
    }
}

/// The tallies stably ordered by volume, largest first.
pub open spec fn sorted_tallies(s: Seq<Tally>) -> Seq<Tally>
    decreases s.len(),
{
    if s.len() == 0 { s } else { insert_tally(sorted_tallies(s.drop_last()), s.last()) }
}

/// The first `limit` elements, or all when there are fewer.
pub open spec fn first_n<T>(s: Seq<T>, limit: nat) -> Seq<T> {
    if s.len() <= limit { s } else { s.take(limit as int) }
}

/// `x` inserted after every value at least as large.
pub open spec fn insert_desc(s: Seq<nat>, x: nat) -> Seq<nat>
    decreases s.len(),
{
    if s.len() == 0 {
        seq![x]
    } else if s.last() >= x {
        s.push(x)
    } else {
        insert_desc(s.drop_last(), x).push(s.last())
    }
}

/// The values, largest first.
pub open spec fn sorted_desc(s: Seq<nat>) -> Seq<nat>
    decreases s.len(),
{
    if s.len() == 0 { s } else { insert_desc(sorted_desc(s.drop_last()), s.last()) }
}

pub open spec fn nat_sum(s: Seq<nat>) -> nat
    decreases s.len(),
{
    if s.len() == 0 { 0 } else { nat_sum(s.drop_last()) + s.last() }
}

/// The volume of each tally.
pub open spec fn tally_volumes(ts: Seq<Tally>) -> Seq<nat> {
    ts.map_values(|t: Tally| t.1 + t.2)
}

/// The combined volume of the five most active keys.
pub open spec fn top5_sum(ts: Seq<Trade>) -> nat {
    let v = sorted_desc(tally_volumes(tallies(ts, by_account())));
    nat_sum(v.take(if v.len() < 5 { v.len() as int } else { 5 }))
}

/// `t` inserted after every trade at or after its time.
pub open spec fn insert_by_recency(s: Seq<Trade>, t: Trade) -> Seq<Trade>
    decreases s.len(),
{
    if s.len() == 0 {
        seq![t]
    } else if s.last().timestamp >= t.timestamp {
        s.push(t)
    } else {
        insert_by_recency(s.drop_last(), t).push(s.last())
    }
}

/// The trades stably ordered by timestamp, newest first.
pub open spec fn newest_first(s: Seq<Trade>) -> Seq<Trade>
    decreases s.len(),
{
    if s.len() == 0 { s } else { insert_by_recency(newest_first(s.drop_last()), s.last()) }
}

/// The trades of the batches that were fetched, in batch order.
pub open spec fn fetched(batches: Seq<Result<Vec<Trade>, String>>) -> Seq<Trade>
    decreases batches.len(),
{
    if batches.len() == 0 {
        Seq::<Trade>::empty()
    } else {
        fetched(batches.drop_last()) + match batches.last() {
            Ok(v) => v@,
            Err(_) => Seq::<Trade>::empty(),
        }
    }
}

pub open spec fn symbol_query(symbol: Seq<char>, from: u64, to: u64, limit: u32) -> Seq<char> {
    "trades?symbol="@ + symbol + "&from="@ + decimal(from as nat) + "&to="@ + decimal(to as nat) + "&limit="@
        + decimal(limit as nat)
}

pub open spec fn account_query(account: Seq<char>, from: u64, to: u64, limit: u32) -> Seq<char> {
    "trades?account="@ + account + "&from="@ + decimal(from as nat) + "&to="@ + decimal(to as nat) + "&limit="@
        + decimal(limit as nat)
}

pub open spec fn account_symbol_query(account: Seq<char>, symbol: Seq<char>, from: u64, to: u64) -> Seq<char> {
    "trades?account="@ + account + "&symbol="@ + symbol + "&from="@ + decimal(from as nat) + "&to="@
        + decimal(to as nat)
}

pub open spec fn large_orders_query(min_value: u64, from: u64, to: u64) -> Seq<char> {
    "trades?min_value="@ + decimal(min_value as nat) + "&from="@ + decimal(from as nat) + "&to="@ + decimal(to as nat)
}

// ===== Copies =====

impl Trade {
    pub fn duplicate(&self) -> (r: Trade)
        ensures
            r == *self,
    {
        Trade {
            trade_id: self.trade_id.clone(),
            symbol: self.symbol.clone(),
            account_id: self.account_id.clone(),
            trade_type: self.trade_type.clone(),
            quantity: self.quantity,
            price: self.price.clone(),
            value: self.value.clone(),
            exchange: self.exchange.clone(),
            segment: self.segment.clone(),
            timestamp: self.timestamp,
            order_id: self.order_id.clone(),
        }
    }
}

impl AccountActivity {
    pub fn duplicate(&self) -> (r: AccountActivity)
        ensures
            r == *self,
    {
        AccountActivity {
            account_id: self.account_id.clone(),
            symbol: self.symbol.clone(),
            buy_quantity: self.buy_quantity,
            sell_quantity: self.sell_quantity,
            net_position: self.net_position,
            trade_count: self.trade_count,
            first_trade_time: self.first_trade_time,
            last_trade_time: self.last_trade_time,
        }
    }
}

// ===== Lemmas =====

proof fn lemma_quantity_sum_prefix(ts: Seq<Trade>, k: int)
    requires
        0 <= k <= ts.len(),
    ensures
        quantity_sum(ts.take(k)) <= quantity_sum(ts),
    decreases ts.len(),
{
    if k < ts.len() {
        assert(ts.drop_last().take(k) =~= ts.take(k));
        lemma_quantity_sum_prefix(ts.drop_last(), k);
    } else {
        assert(ts.take(k) =~= ts);
    }
}

proof fn lemma_side_sums(ts: Seq<Trade>)
    ensures
        side_sum(ts, true) + side_sum(ts, false) == quantity_sum(ts),
    decreases ts.len(),
{
    if ts.len() > 0 {
        lemma_side_sums(ts.drop_last());
    }
}

/// Facts about where a key's tally sits.
pub proof fn lemma_tally_index_facts(ts: Seq<Tally>, key: Seq<char>)
    ensures
        tally_index(ts, key) matches Some(i) ==> 0 <= i < ts.len() && ts[i].0 == key
            && forall|j: int| 0 <= j < i ==> (#[trigger] ts[j]).0 != key,
        tally_index(ts, key) is None ==> forall|j: int| 0 <= j < ts.len() ==> (#[trigger] ts[j]).0 != key,
    decreases ts.len(),
{
    if ts.len() > 0 {
        lemma_tally_index_facts(ts.drop_last(), key);
        assert forall|j: int| 0 <= j < ts.len() - 1 implies ts.drop_last()[j] == #[trigger] ts[j] by {}
    }
}

proof fn lemma_tally_index_is(ts: Seq<Tally>, key: Seq<char>, i: int)
    requires
        0 <= i < ts.len(),
        ts[i].0 == key,
        forall|j: int| 0 <= j < i ==> (#[trigger] ts[j]).0 != key,
    ensures
        tally_index(ts, key) == Some(i),
    decreases ts.len(),
{
    lemma_tally_index_facts(ts, key);
    lemma_tally_index_facts(ts.drop_last(), key);
    if i < ts.len() - 1 {
        assert forall|j: int| 0 <= j < i implies (#[trigger] ts.drop_last()[j]).0 != key by {
            assert(ts.drop_last()[j] == ts[j]);
        }
        assert(ts.drop_last()[i] == ts[i]);
        lemma_tally_index_is(ts.drop_last(), key, i);
    } else {
        assert forall|j: int| 0 <= j < ts.len() - 1 implies (#[trigger] ts.drop_last()[j]).0 != key by {
            assert(ts.drop_last()[j] == ts[j]);
        }
    }
}

/// Every tally's volume and trade count stay within the totals of the trades.
proof fn lemma_tallies_bounded(ts: Seq<Trade>, key_of: spec_fn(Trade) -> Seq<char>)
    ensures
        forall|i: int| 0 <= i < tallies(ts, key_of).len() ==>
            (#[trigger] tallies(ts, key_of)[i]).1 + tallies(ts, key_of)[i].2 <= quantity_sum(ts)
            && tallies(ts, key_of)[i].3 <= ts.len(),
        tallies(ts, key_of).len() <= ts.len(),
    decreases ts.len(),
{
    if ts.len() > 0 {
        let d = ts.drop_last();
        lemma_tallies_bounded(d, key_of);
        let prev = tallies(d, key_of);
        lemma_tally_index_facts(prev, key_of(ts.last()));
    }
}

// ===== Operations =====

/// The volume totals of the trades.
pub fn volume_totals(trades: &Vec<Trade>) -> (r: VolumeTotals)
    requires
        quantity_sum(trades@) <= u64::MAX,
    ensures
        r.total_volume == quantity_sum(trades@),
        r.buy_volume == side_sum(trades@, true),
        r.sell_volume == side_sum(trades@, false),
        r.trade_count == trades@.len() as u32,
        r.top5_volume == top5_sum(trades@),
{
    let mut total: u64 = 0;
    let mut buy: u64 = 0;
    let mut sell: u64 = 0;
    let mut keys: Vec<String> = Vec::new();
    let mut vols: Vec<u64> = Vec::new();
    let mut i: usize = 0;
    while i < trades.len()
        invariant
            i <= trades.len(),
            quantity_sum(trades@) <= u64::MAX,
            total == quantity_sum(trades@.take(i as int)),
            buy == side_sum(trades@.take(i as int), true),
            sell == side_sum(trades@.take(i as int), false),
            keys@.len() == vols@.len(),
            keys@.len() == tallies(trades@.take(i as int), by_account()).len(),
            forall|k: int| 0 <= k < keys@.len() ==> (#[trigger] keys@[k])@ == tallies(trades@.take(i as int), by_account())[k].0,
            forall|k: int| 0 <= k < vols@.len() ==> (#[trigger] vols@[k]) as nat
                == tallies(trades@.take(i as int), by_account())[k].1 + tallies(trades@.take(i as int), by_account())[k].2,
        decreases trades.len() - i,
    {
        let ghost pre = trades@.take(i as int);
        let ghost next = trades@.take(i + 1);
        assert(next.drop_last() =~= pre);
        assert(next.last() == trades@[i as int]);
        proof {
            lemma_quantity_sum_prefix(trades@, i + 1);
            lemma_side_sums(next);
            lemma_tallies_bounded(pre, by_account());
            lemma_tally_index_facts(tallies(pre, by_account()), trades@[i as int].account_id@);
        }
        let t = &trades[i];
        total = total + t.quantity;
        if text_is(&t.trade_type, "BUY") {
            buy = buy + t.quantity;
        } else {
            sell = sell + t.quantity;
        }
        let ghost prev = tallies(pre, by_account());
        let mut k: usize = 0;
        while k < keys.len()
            invariant
                k <= keys.len(),
                keys@.len() == prev.len(),
                forall|m: int| 0 <= m < keys@.len() ==> (#[trigger] keys@[m])@ == prev[m].0,
                forall|m: int| 0 <= m < k ==> (#[trigger] prev[m]).0 != t.account_id@,
            ensures
                k <= keys.len(),
                forall|m: int| 0 <= m < k ==> (#[trigger] prev[m]).0 != t.account_id@,
                k < keys.len() ==> prev[k as int].0 == t.account_id@,
            decreases keys.len() - k,
        {
            if keys[k] == t.account_id {
                break;
            }
            k = k + 1;
        }
        if k < keys.len() {
            proof { lemma_tally_index_is(prev, t.account_id@, k as int); }
            assert(vols@[k as int] + t.quantity <= quantity_sum(next));
            let v = vols[k] + t.quantity;
            vols.set(k, v);
        } else {
            keys.push(t.account_id.clone());
            vols.push(t.quantity);
        }
        i = i + 1;
        assert forall|m: int| 0 <= m < vols@.len() implies (#[trigger] vols@[m]) as nat
            == tallies(trades@.take(i as int), by_account())[m].1 + tallies(trades@.take(i as int), by_account())[m].2 by {}
    }
    assert(trades@.take(trades.len() as int) =~= trades@);
    let ghost vols_view = tally_volumes(tallies(trades@, by_account()));
    assert(vols@.map_values(|v: u64| v as nat) =~= vols_view);
    let sorted = sort_desc_u64(&vols);
    let mut top: u64 = 0;
    let mut j: usize = 0;
    let n = if sorted.len() < 5 { sorted.len() } else { 5 };
    proof {
        lemma_tally_volume_sum(trades@, by_account());
        lemma_sorted_desc_bounded(vols_view, quantity_sum(trades@));
    }
    while j < n
        invariant
            j <= n <= sorted@.len(),
            sorted@.map_values(|v: u64| v as nat) == sorted_desc(vols_view),
            top as nat == nat_sum(sorted_desc(vols_view).take(j as int)),
            nat_sum(sorted_desc(vols_view)) <= quantity_sum(trades@),
            quantity_sum(trades@) <= u64::MAX,
        decreases n - j,
    {
        let ghost sd = sorted_desc(vols_view);
        assert(sd.take(j + 1).drop_last() =~= sd.take(j as int));
        proof { lemma_nat_sum_prefix(sd, j + 1); }
        assert(sd[j as int] == sorted@[j as int] as nat);
        top = top + sorted[j];
        j = j + 1;
    }
    VolumeTotals {
        total_volume: total,
        buy_volume: buy,
        sell_volume: sell,
        trade_count: trades.len() as u32,
        top5_volume: top,
    }
}

proof fn lemma_nat_sum_prefix(s: Seq<nat>, k: int)
    requires
        0 <= k <= s.len(),
    ensures
        nat_sum(s.take(k)) <= nat_sum(s),
    decreases s.len(),
{
    if k < s.len() {
        assert(s.drop_last().take(k) =~= s.take(k));
        lemma_nat_sum_prefix(s.drop_last(), k);
    } else {
        assert(s.take(k) =~= s);
    }
}

proof fn lemma_sorted_desc_bounded(s: Seq<nat>, bound: nat)
    requires
        nat_sum(s) <= bound,
    ensures
        nat_sum(sorted_desc(s)) <= bound,
{
    lemma_sorted_desc_sum(s);
}

proof fn lemma_insert_desc_sum(s: Seq<nat>, x: nat)
    ensures
        nat_sum(insert_desc(s, x)) == nat_sum(s) + x,
        insert_desc(s, x).len() == s.len() + 1,
    decreases s.len(),
{
    if s.len() == 0 {
        assert(seq![x].drop_last() =~= Seq::<nat>::empty());
        assert(nat_sum(seq![x]) == nat_sum(Seq::<nat>::empty()) + x);
    } else if s.last() >= x {
        assert(s.push(x).drop_last() =~= s);
        assert(nat_sum(s.push(x)) == nat_sum(s) + x);
    } else {
        lemma_insert_desc_sum(s.drop_last(), x);
        let r = insert_desc(s.drop_last(), x).push(s.last());
        assert(r.drop_last() =~= insert_desc(s.drop_last(), x));
        assert(nat_sum(r) == nat_sum(insert_desc(s.drop_last(), x)) + s.last());
        assert(nat_sum(s) == nat_sum(s.drop_last()) + s.last());
    }
}

proof fn lemma_nat_sum_update(s: Seq<nat>, i: int, x: nat)
    requires
        0 <= i < s.len(),
    ensures
        nat_sum(s.update(i, x)) + s[i] == nat_sum(s) + x,
    decreases s.len(),
{
    if i < s.len() - 1 {
        lemma_nat_sum_update(s.drop_last(), i, x);
        assert(s.update(i, x).drop_last() =~= s.drop_last().update(i, x));
    } else {
        assert(s.update(i, x).drop_last() =~= s.drop_last());
    }
}

proof fn lemma_nat_sum_push(s: Seq<nat>, x: nat)
    ensures
        nat_sum(s.push(x)) == nat_sum(s) + x,
{
    assert(s.push(x).drop_last() =~= s);
}

/// The volumes of the tallies add up to the quantity of the trades.
proof fn lemma_tally_volume_sum(ts: Seq<Trade>, key_of: spec_fn(Trade) -> Seq<char>)
    ensures
        nat_sum(tally_volumes(tallies(ts, key_of))) == quantity_sum(ts),
    decreases ts.len(),
{
    if ts.len() > 0 {
        let d = ts.drop_last();
        lemma_tally_volume_sum(d, key_of);
        let prev = tallies(d, key_of);
        let t = ts.last();
        lemma_tally_index_facts(prev, key_of(t));
        match tally_index(prev, key_of(t)) {
            Some(i) => {
                let b = bumped(prev[i], t);
                assert(tally_volumes(prev.update(i, b)) =~= tally_volumes(prev).update(i, b.1 + b.2));
                lemma_nat_sum_update(tally_volumes(prev), i, b.1 + b.2);
            },
            None => {
                let b = bumped((key_of(t), 0nat, 0nat, 0nat, t.timestamp, t.timestamp), t);
                assert(tally_volumes(prev.push(b)) =~= tally_volumes(prev).push(b.1 + b.2));
                lemma_nat_sum_push(tally_volumes(prev), b.1 + b.2);
            },
        }
    }
}

proof fn lemma_sorted_desc_sum(s: Seq<nat>)
    ensures
        nat_sum(sorted_desc(s)) == nat_sum(s),
        sorted_desc(s).len() == s.len(),
    decreases s.len(),
{
    if s.len() > 0 {
        lemma_sorted_desc_sum(s.drop_last());
        lemma_insert_desc_sum(sorted_desc(s.drop_last()), s.last());
    }
}

/// The values, largest first (stable insertion).
fn sort_desc_u64(v: &Vec<u64>) -> (r: Vec<u64>)
    ensures
        r@.map_values(|x: u64| x as nat) == sorted_desc(v@.map_values(|x: u64| x as nat)),
{
    let ghost vv = v@.map_values(|x: u64| x as nat);
    let mut out: Vec<u64> = Vec::new();
    let mut i: usize = 0;
    while i < v.len()
        invariant
            i <= v.len(),
            vv == v@.map_values(|x: u64| x as nat),
            out@.map_values(|x: u64| x as nat) == sorted_desc(vv.take(i as int)),
        decreases v.len() - i,
    {
        let x = v[i];
        let ghost s = out@.map_values(|y: u64| y as nat);
        let mut j: usize = out.len();
        assert(s.take(j as int) =~= s);
        assert(s.skip(j as int) =~= Seq::<nat>::empty());
        while j > 0 && out[j - 1] < x
            invariant
                s == out@.map_values(|y: u64| y as nat),
                j <= s.len(),
                insert_desc(s, x as nat) == insert_desc(s.take(j as int), x as nat) + s.skip(j as int),
            decreases j,
        {
            let ghost t = s.take(j as int);
            assert(t.drop_last() =~= s.take(j - 1));
            assert(t.last() == s[j - 1]);
            assert(seq![s[j - 1]] + s.skip(j as int) =~= s.skip(j - 1));
            assert(insert_desc(s.take(j - 1), x as nat).push(s[j - 1]) + s.skip(j as int)
                =~= insert_desc(s.take(j - 1), x as nat) + s.skip(j - 1));
            j = j - 1;
        }
        proof {
            let t = s.take(j as int);
            if j == 0 {
                assert(t =~= Seq::<nat>::empty());
            }
        }
        out.insert(j, x);
        assert(out@.map_values(|y: u64| y as nat) =~= s.take(j as int).push(x as nat) + s.skip(j as int));
        assert(vv.take(i + 1).drop_last() =~= vv.take(i as int));
        i = i + 1;
    }
    assert(vv.take(v.len() as int) =~= vv);
    out
}

/// The total quantity of the trades.
pub fn total_quantity(trades: &Vec<Trade>) -> (r: u64)
    requires
        quantity_sum(trades@) <= u64::MAX,
    ensures
        r == quantity_sum(trades@),
{
    let mut total: u64 = 0;
    let mut i: usize = 0;
    while i < trades.len()
        invariant
            i <= trades.len(),
            quantity_sum(trades@) <= u64::MAX,
            total == quantity_sum(trades@.take(i as int)),
        decreases trades.len() - i,
    {
        assert(trades@.take(i + 1).drop_last() =~= trades@.take(i as int));
        proof { lemma_quantity_sum_prefix(trades@, i + 1); }
        total = total + trades[i].quantity;
        i = i + 1;
    }
    assert(trades@.take(trades.len() as int) =~= trades@);
    total
}

/// The total quantity of the trades, or `None` when it does not fit in a `u64`.
pub fn checked_quantity_sum(trades: &Vec<Trade>) -> (r: Option<u64>)
    ensures
        r matches Some(n) ==> n == quantity_sum(trades@),
        r is None <==> quantity_sum(trades@) > u64::MAX,
{
    let mut total: u64 = 0;
    let mut i: usize = 0;
    while i < trades.len()
        invariant
            i <= trades.len(),
            total == quantity_sum(trades@.take(i as int)),
        decreases trades.len() - i,
    {
        assert(trades@.take(i + 1).drop_last() =~= trades@.take(i as int));
        match total.checked_add(trades[i].quantity) {
            Some(t) => {
                total = t;
            },
            None => {
                proof { lemma_quantity_sum_prefix(trades@, i + 1); }
                return None;
            },
        }
        i = i + 1;
    }
    assert(trades@.take(trades.len() as int) =~= trades@);
    Some(total)
}

/// The day of a timestamp and the thirty days before it, in milliseconds.
pub fn anomaly_window(date_timestamp: u64) -> (r: AnomalyWindow)
    requires
        date_timestamp - date_timestamp % DAY_MS >= 30 * DAY_MS,
        date_timestamp - date_timestamp % DAY_MS + DAY_MS <= u64::MAX,
    ensures
        r.day_start == date_timestamp - date_timestamp % DAY_MS,
        r.day_end == r.day_start + DAY_MS,
        r.thirty_days_ago == r.day_start - 30 * DAY_MS,
{
    let day_start = date_timestamp - (date_timestamp % DAY_MS);
    let day_end = day_start + DAY_MS;
    let thirty_days_ago = day_start - (30 * DAY_MS);
    AnomalyWindow { day_start, day_end, thirty_days_ago }
}

/// The thirty-day average volume: the historical volume over 30, or 1 when
/// there was none.
pub fn average_volume_30d(historical_volume: u64) -> (r: u64)
    ensures
        r == if historical_volume > 0 { historical_volume / 30 } else { 1 },
{
    if historical_volume > 0 { historical_volume / 30 } else { 1 }
}

/// The first trade fetched for an id, or an error naming it.
pub fn first_trade(trades: Vec<Trade>, trade_id: &String) -> (r: Result<Trade, String>)
    ensures
        trades@.len() > 0 ==> r == Ok::<Trade, String>(trades@[0]),
        trades@.len() == 0 ==> r is Err && r->Err_0@ == "Trade "@ + trade_id@ + " not found"@,
{
    if trades.len() > 0 {
        Ok(trades[0].duplicate())
    } else {
        let mut e = text("Trade ");
        push_text(&mut e, trade_id);
        e.append(" not found");
        Err(e)
    }
}

/// The trades of every fetched batch (failed fetches skipped), newest first.
pub fn merge_account_trades(batches: Vec<Result<Vec<Trade>, String>>) -> (r: Vec<Trade>)
    ensures
        r@ == newest_first(fetched(batches@)),
{
    let mut all: Vec<Trade> = Vec::new();
    let mut b: usize = 0;
    while b < batches.len()
        invariant
            b <= batches.len(),
            all@ == fetched(batches@.take(b as int)),
        decreases batches.len() - b,
    {
        assert(batches@.take(b + 1).drop_last() =~= batches@.take(b as int));
        assert(batches@.take(b + 1).last() == batches@[b as int]);
        match &batches[b] {
            Ok(v) => {
                let mut k: usize = 0;
                let ghost start = all@;
                while k < v.len()
                    invariant
                        k <= v.len(),
                        all@ == start + v@.take(k as int),
                    decreases v.len() - k,
                {
                    all.push(v[k].duplicate());
                    k = k + 1;
                    assert(all@ =~= start + v@.take(k as int));
                }
                assert(v@.take(v.len() as int) =~= v@);
            },
            Err(_) => {
                assert(all@ =~= all@ + Seq::<Trade>::empty());
            },
        }
        b = b + 1;
    }
    assert(batches@.take(batches.len() as int) =~= batches@);
    sort_trades_newest_first(&all)
}

fn sort_trades_newest_first(trades: &Vec<Trade>) -> (r: Vec<Trade>)
    ensures
        r@ == newest_first(trades@),
{
    let mut out: Vec<Trade> = Vec::new();
    let mut i: usize = 0;
    while i < trades.len()
        invariant
            i <= trades.len(),
            out@ == newest_first(trades@.take(i as int)),
        decreases trades.len() - i,
    {
        let t = trades[i].duplicate();
        let ghost s = out@;
        let mut j: usize = out.len();
        assert(s.take(j as int) =~= s);
        assert(s.skip(j as int) =~= Seq::<Trade>::empty());
        while j > 0 && out[j - 1].timestamp < t.timestamp
            invariant
                s == out@,
                j <= s.len(),
                insert_by_recency(s, t) == insert_by_recency(s.take(j as int), t) + s.skip(j as int),
            decreases j,
        {
            let ghost u = s.take(j as int);
            assert(u.drop_last() =~= s.take(j - 1));
            assert(u.last() == s[j - 1]);
            assert(seq![s[j - 1]] + s.skip(j as int) =~= s.skip(j - 1));
            assert(insert_by_recency(s.take(j - 1), t).push(s[j - 1]) + s.skip(j as int)
                =~= insert_by_recency(s.take(j - 1), t) + s.skip(j - 1));
            j = j - 1;
        }
        proof {
            if j == 0 {
                assert(s.take(0) =~= Seq::<Trade>::empty());
            }
        }
        out.insert(j, t);
        assert(out@ =~= s.take(j as int).push(t) + s.skip(j as int));
        assert(trades@.take(i + 1).drop_last() =~= trades@.take(i as int));
        i = i + 1;
    }
    assert(trades@.take(trades.len() as int) =~= trades@);
    out
}

fn key_matches(a: &AccountActivity, key_is_account: bool, key: &String) -> (b: bool)
    ensures
        b == (if key_is_account { a.account_id@ == key@ } else { a.symbol@ == key@ }),
{
    if key_is_account { a.account_id == *key } else { a.symbol == *key }
}

/// Every tally stays within what an activity record holds: the bought and
/// sold volume together within `i64`, and the number of trades within `u32`.
pub open spec fn tallies_fit(ts: Seq<Tally>) -> bool {
    forall|i: int| 0 <= i < ts.len() ==> (#[trigger] ts[i]).1 + ts[i].2 <= i64::MAX && ts[i].3 <= u32::MAX
}

pub open spec fn key_fn(key_is_account: bool) -> spec_fn(Trade) -> Seq<char> {
    if key_is_account { by_account() } else { by_symbol() }
}

/// One more trade leaves every earlier tally in place, with the same key and
/// no smaller volumes or count.
proof fn lemma_tally_add_grows(prev: Seq<Tally>, key: Seq<char>, trade: Trade)
    ensures
        tally_add(prev, key, trade).len() >= prev.len(),
        forall|i: int| 0 <= i < prev.len() ==> {
            &&& (#[trigger] tally_add(prev, key, trade)[i]).0 == prev[i].0
            &&& tally_add(prev, key, trade)[i].1 >= prev[i].1
            &&& tally_add(prev, key, trade)[i].2 >= prev[i].2
            &&& tally_add(prev, key, trade)[i].3 >= prev[i].3
        },
{
    lemma_tally_index_facts(prev, key);
}

/// The tallies of a prefix of the trades are, index by index, those of all the
/// trades with no larger volumes or count.
proof fn lemma_prefix_tallies_below(ts: Seq<Trade>, key_of: spec_fn(Trade) -> Seq<char>, k: int)
    requires
        0 <= k <= ts.len(),
    ensures
        tallies(ts.take(k), key_of).len() <= tallies(ts, key_of).len(),
        forall|i: int| 0 <= i < tallies(ts.take(k), key_of).len() ==> {
            &&& (#[trigger] tallies(ts.take(k), key_of)[i]).0 == tallies(ts, key_of)[i].0
            &&& tallies(ts.take(k), key_of)[i].1 <= tallies(ts, key_of)[i].1
            &&& tallies(ts.take(k), key_of)[i].2 <= tallies(ts, key_of)[i].2
            &&& tallies(ts.take(k), key_of)[i].3 <= tallies(ts, key_of)[i].3
        },
    decreases ts.len(),
{
    if k == ts.len() {
        assert(ts.take(k) =~= ts);
    } else {
        let d = ts.drop_last();
        assert(d.take(k) =~= ts.take(k));
        lemma_prefix_tallies_below(d, key_of, k);
        lemma_tally_add_grows(tallies(d, key_of), key_of(ts.last()), ts.last());
    }
}

/// The trades tallied per account (the activities carrying `fixed` as their
/// symbol) or per symbol (carrying `fixed` as their account), in order of first
/// appearance; `None` when some tally does not fit an activity record.
pub fn checked_aggregate_activity(trades: &Vec<Trade>, key_is_account: bool, fixed: &String)
    -> (r: Option<Vec<AccountActivity>>)
    ensures
        r is Some <==> tallies_fit(tallies(trades@, key_fn(key_is_account))),
        r matches Some(v) ==> reports_all(v@, tallies(trades@, key_fn(key_is_account)), key_is_account, fixed@),
{
    let ghost key_of = key_fn(key_is_account);
    let mut acts: Vec<AccountActivity> = Vec::new();
    let mut i: usize = 0;
    assert(trades@.take(0) =~= Seq::<Trade>::empty());
    while i < trades.len()
        invariant
            i <= trades.len(),
            key_of == key_fn(key_is_account),
            reports_all(acts@, tallies(trades@.take(i as int), key_of), key_is_account, fixed@),
            tallies_fit(tallies(trades@.take(i as int), key_of)),
        decreases trades.len() - i,
    {
        let ghost pre = trades@.take(i as int);
        let ghost next = trades@.take(i + 1);
        let ghost prev = tallies(pre, key_of);
        assert(next.drop_last() =~= pre);
        assert(next.last() == trades@[i as int]);
        let t = &trades[i];
        let key = if key_is_account { &t.account_id } else { &t.symbol };
        assert(key@ == key_of(*t));
        proof {
            lemma_tally_index_facts(prev, key@);
            lemma_prefix_tallies_below(trades@, key_of, i + 1);
        }
        let mut k: usize = 0;
        while k < acts.len()
            invariant
                k <= acts.len(),
                reports_all(acts@, prev, key_is_account, fixed@),
                forall|m: int| 0 <= m < k ==> (#[trigger] prev[m]).0 != key@,
            ensures
                k <= acts.len(),
                forall|m: int| 0 <= m < k ==> (#[trigger] prev[m]).0 != key@,
                k < acts.len() ==> prev[k as int].0 == key@,
            decreases acts.len() - k,
        {
            assert(reports(acts@[k as int], prev[k as int], key_is_account, fixed@));
            if key_matches(&acts[k], key_is_account, key) {
                break;
            }
            k = k + 1;
        }
        let q = t.quantity;
        let is_buy = text_is(&t.trade_type, "BUY");
        let ghost nt = tallies(next, key_of);
        if k < acts.len() {
            proof { lemma_tally_index_is(prev, key@, k as int); }
            let mut a = acts[k].duplicate();
            assert(reports(a, prev[k as int], key_is_account, fixed@));
            assert(nt[k as int] == bumped(prev[k as int], *t));
            let volume = a.buy_quantity + a.sell_quantity;
            if q > 0x7fff_ffff_ffff_ffffu64 - volume || a.trade_count == 0xffff_ffffu32 {
                proof {
                    assert(!(nt[k as int].1 + nt[k as int].2 <= i64::MAX && nt[k as int].3 <= u32::MAX));
                    assert(!tallies_fit(tallies(trades@, key_of)));
                }
                return None;
            }
            if is_buy {
                a.buy_quantity = a.buy_quantity + q;
                a.net_position = a.net_position + q as i64;
            } else {
                a.sell_quantity = a.sell_quantity + q;
                a.net_position = a.net_position - q as i64;
            }
            a.trade_count = a.trade_count + 1;
            if t.timestamp < a.first_trade_time {
                a.first_trade_time = t.timestamp;
            }
            if t.timestamp > a.last_trade_time {
                a.last_trade_time = t.timestamp;
            }
            acts.set(k, a);
        } else {
            let ghost n = prev.len() as int;
            assert(nt[n] == bumped((key@, 0nat, 0nat, 0nat, t.timestamp, t.timestamp), *t));
            if q > 0x7fff_ffff_ffff_ffffu64 {
                proof {
                    assert(!(nt[n].1 + nt[n].2 <= i64::MAX));
                    assert(!tallies_fit(tallies(trades@, key_of)));
                }
                return None;
            }
            let mut a = if key_is_account {
                AccountActivity {
                    account_id: t.account_id.clone(),
                    symbol: fixed.clone(),
                    buy_quantity: 0,
                    sell_quantity: 0,
                    net_position: 0,
                    trade_count: 0,
                    first_trade_time: t.timestamp,
                    last_trade_time: t.timestamp,
                }
            } else {
                AccountActivity {
                    account_id: fixed.clone(),
                    symbol: t.symbol.clone(),
                    buy_quantity: 0,
                    sell_quantity: 0,
                    net_position: 0,
                    trade_count: 0,
                    first_trade_time: t.timestamp,
                    last_trade_time: t.timestamp,
                }
            };
            if is_buy {
                a.buy_quantity = q;
                a.net_position = q as i64;
            } else {
                a.sell_quantity = q;
                a.net_position = 0 - q as i64;
            }
            a.trade_count = 1;
            acts.push(a);
        }
        i = i + 1;
        assert(reports_all(acts@, tallies(trades@.take(i as int), key_of), key_is_account, fixed@));
        assert(tallies_fit(tallies(trades@.take(i as int), key_of)));
    }
    assert(trades@.take(trades.len() as int) =~= trades@);
    Some(acts)
}

/// The trades tallied per account (the activities carrying `fixed` as their
/// symbol) or per symbol (carrying `fixed` as their account), in order of first
/// appearance.
pub fn aggregate_activity(trades: &Vec<Trade>, key_is_account: bool, fixed: &String) -> (r: Vec<AccountActivity>)
    requires
        tallies_fit(tallies(trades@, key_fn(key_is_account))),
    ensures
        reports_all(r@, tallies(trades@, key_fn(key_is_account)), key_is_account, fixed@),
{
    match checked_aggregate_activity(trades, key_is_account, fixed) {
        Some(acts) => acts,
        None => {
            proof { assert(false); }
            Vec::new()
        },
    }
}

/// The activities stably ordered by volume, largest first, and cut to `limit`.
fn top_by_volume(acts: &Vec<AccountActivity>, ts: Ghost<Seq<Tally>>, key_is_account: bool, fixed: Ghost<Seq<char>>, limit: u32)
    -> (r: Vec<AccountActivity>)
    requires
        reports_all(acts@, ts@, key_is_account, fixed@),
    ensures
        reports_all(r@, first_n(sorted_tallies(ts@), limit as nat), key_is_account, fixed@),
{
    let mut out: Vec<AccountActivity> = Vec::new();
    let mut i: usize = 0;
    while i < acts.len()
        invariant
            i <= acts.len(),
            reports_all(acts@, ts@, key_is_account, fixed@),
            reports_all(out@, sorted_tallies(ts@.take(i as int)), key_is_account, fixed@),
        decreases acts.len() - i,
    {
        let a = acts[i].duplicate();
        let ghost x = ts@[i as int];
        assert(reports(a, x, key_is_account, fixed@));
        let ghost s = sorted_tallies(ts@.take(i as int));
        let mut j: usize = out.len();
        assert(s.take(j as int) =~= s);
        assert(s.skip(j as int) =~= Seq::<Tally>::empty());
        let va = a.buy_quantity as u128 + a.sell_quantity as u128;
        while j > 0 && (out[j - 1].buy_quantity as u128 + out[j - 1].sell_quantity as u128) < va
            invariant
                reports_all(out@, s, key_is_account, fixed@),
                j <= s.len(),
                va == x.1 + x.2,
                insert_tally(s, x) == insert_tally(s.take(j as int), x) + s.skip(j as int),
            decreases j,
        {
            assert(reports(out@[j - 1], s[j - 1], key_is_account, fixed@));
            let ghost u = s.take(j as int);
            assert(u.drop_last() =~= s.take(j - 1));
            assert(u.last() == s[j - 1]);
            assert(seq![s[j - 1]] + s.skip(j as int) =~= s.skip(j - 1));
            assert(insert_tally(s.take(j - 1), x).push(s[j - 1]) + s.skip(j as int)
                =~= insert_tally(s.take(j - 1), x) + s.skip(j - 1));
            j = j - 1;
        }
        proof {
            if j == 0 {
                assert(s.take(0) =~= Seq::<Tally>::empty());
            } else {
                assert(reports(out@[j - 1], s[j - 1], key_is_account, fixed@));
            }
        }
        let ghost before = out@;
        out.insert(j, a);
        assert(ts@.take(i + 1).drop_last() =~= ts@.take(i as int));
        assert(ts@.take(i + 1).last() == x);
        let ghost ns = s.take(j as int).push(x) + s.skip(j as int);
        assert(ns == sorted_tallies(ts@.take(i + 1)));
        assert forall|m: int| 0 <= m < out@.len() implies reports(#[trigger] out@[m], ns[m], key_is_account, fixed@) by {
            if m < j {
                assert(out@[m] == before[m]);
            } else if m > j {
                assert(out@[m] == before[m - 1]);
            }
        }
        i = i + 1;
    }
    assert(ts@.take(acts.len() as int) =~= ts@);
    let n: usize = if out.len() <= limit as usize { out.len() } else { limit as usize };
    let mut r: Vec<AccountActivity> = Vec::new();
    let mut k: usize = 0;
    while k < n
        invariant
            k <= n <= out@.len(),
            reports_all(out@, sorted_tallies(ts@), key_is_account, fixed@),
            r@ == out@.take(k as int),
        decreases n - k,
    {
        r.push(out[k].duplicate());
        k = k + 1;
        assert(r@ =~= out@.take(k as int));
    }
    assert forall|m: int| 0 <= m < r@.len() implies reports(#[trigger] r@[m], first_n(sorted_tallies(ts@), limit as nat)[m], key_is_account, fixed@) by {
        assert(r@[m] == out@[m]);
    }
    r
}

impl TradeDataContractState {
    pub closed spec fn configuration(self) -> TradeDataConfig {
        self.config
    }

    /// The service with its configuration.
    pub fn new(config: TradeDataConfig) -> (r: Result<TradeDataContractState, String>)
        ensures
            r is Ok,
            r->Ok_0.configuration() == config,
    {
        Ok(TradeDataContractState { config })
    }

    /// The URL of an endpoint of the configured API.
    pub fn trades_url(&self, endpoint: &String) -> (r: String)
        ensures
            r@ == self.configuration().api_endpoint@ + "/"@ + endpoint@,
    {
        let mut url = self.config.api_endpoint.clone();
        url.append("/");
        push_text(&mut url, endpoint);
        url
    }

    /// The `Authorization` header value for the configured key.
    pub fn bearer_header(&self) -> (r: String)
        ensures
            r@ == "Bearer "@ + self.configuration().api_key@,
    {
        let mut h = text("Bearer ");
        push_text(&mut h, &self.config.api_key);
        h
    }

    /// The endpoint of one trade.
    pub fn trade_endpoint(trade_id: &String) -> (r: String)
        ensures
            r@ == "trades/"@ + trade_id@,
    {
        let mut e = text("trades/");
        push_text(&mut e, trade_id);
        e
    }

    /// The endpoint of a symbol's trades in a time range.
    pub fn symbol_endpoint(symbol: &String, from_timestamp: u64, to_timestamp: u64, limit: u32) -> (r: String)
        ensures
            r@ == symbol_query(symbol@, from_timestamp, to_timestamp, limit),
    {
        let mut e = text("trades?symbol=");
        push_text(&mut e, symbol);
        e.append("&from=");
        push_decimal(&mut e, from_timestamp);
        e.append("&to=");
        push_decimal(&mut e, to_timestamp);
        e.append("&limit=");
        push_decimal(&mut e, limit as u64);
        e
    }

    /// The endpoint of an account's trades in a time range.
    pub fn account_endpoint(account_id: &String, from_timestamp: u64, to_timestamp: u64, limit: u32) -> (r: String)
        ensures
            r@ == account_query(account_id@, from_timestamp, to_timestamp, limit),
    {
        let mut e = text("trades?account=");
        push_text(&mut e, account_id);
        e.append("&from=");
        push_decimal(&mut e, from_timestamp);
        e.append("&to=");
        push_decimal(&mut e, to_timestamp);
        e.append("&limit=");
        push_decimal(&mut e, limit as u64);
        e
    }

    /// The endpoints for each account of a comma-separated list (each name
    /// trimmed) trading a symbol in a time range.
    pub fn accounts_endpoints(account_ids: &String, symbol: &String, from_timestamp: u64, to_timestamp: u64) -> (r: Vec<String>)
        ensures
            r@.len() == split_on(account_ids@, ',').len(),
            forall|i: int| 0 <= i < r@.len() ==> (#[trigger] r@[i])@
                == account_symbol_query(trim_seq(split_on(account_ids@, ',')[i]), symbol@, from_timestamp, to_timestamp),
    {
        let pieces = split_text(account_ids, ',');
        let mut out: Vec<String> = Vec::new();
        let mut i: usize = 0;
        while i < pieces.len()
            invariant
                i <= pieces.len(),
                pieces@.len() == split_on(account_ids@, ',').len(),
                forall|k: int| 0 <= k < pieces@.len() ==> #[trigger] pieces@[k]@ == split_on(account_ids@, ',')[k],
                out@.len() == i,
                forall|k: int| 0 <= k < i ==> (#[trigger] out@[k])@
                    == account_symbol_query(trim_seq(split_on(account_ids@, ',')[k]), symbol@, from_timestamp, to_timestamp),
            decreases pieces.len() - i,
        {
            let account = trim_text(&pieces[i]);
            let mut e = text("trades?account=");
            push_text(&mut e, &account);
            e.append("&symbol=");
            push_text(&mut e, symbol);
            e.append("&from=");
            push_decimal(&mut e, from_timestamp);
            e.append("&to=");
            push_decimal(&mut e, to_timestamp);
            out.push(e);
            i = i + 1;
        }
        out
    }

    /// The endpoint of large orders in a time range.
    pub fn large_orders_endpoint(min_value: u64, from_timestamp: u64, to_timestamp: u64) -> (r: String)
        ensures
            r@ == large_orders_query(min_value, from_timestamp, to_timestamp),
    {
        let mut e = text("trades?min_value=");
        push_decimal(&mut e, min_value);
        e.append("&from=");
        push_decimal(&mut e, from_timestamp);
        e.append("&to=");
        push_decimal(&mut e, to_timestamp);
        e
    }

    /// The most active accounts in a symbol's trades: per-account activity
    /// stably ordered by volume, largest first, at most `limit` of them.
    pub fn top_traders(symbol: &String, trades: &Vec<Trade>, limit: u32) -> (r: Vec<AccountActivity>)
        requires
            tallies_fit(tallies(trades@, by_account())),
        ensures
            reports_all(r@, first_n(sorted_tallies(tallies(trades@, by_account())), limit as nat), true, symbol@),
    {
        let acts = aggregate_activity(trades, true, symbol);
        top_by_volume(&acts, Ghost(tallies(trades@, by_account())), true, Ghost(symbol@), limit)
    }

    /// An account's activity per symbol, in order of first appearance.
    pub fn account_profile(account_id: &String, trades: &Vec<Trade>) -> (r: Vec<AccountActivity>)
        requires
            tallies_fit(tallies(trades@, by_symbol())),
        ensures
            reports_all(r@, tallies(trades@, by_symbol()), false, account_id@),
    {
        aggregate_activity(trades, false, account_id)
    }

    /// The time range of an account profile: the `days_back` days up to `now`,
    /// in milliseconds.
    pub fn account_profile_window(now: u64, days_back: u32) -> (r: (u64, u64))
        requires
            days_back as nat * DAY_MS <= now,
        ensures
            r == ((now - days_back as nat * DAY_MS) as u64, now),
    {
        assert(days_back as nat * DAY_MS <= u32::MAX as nat * DAY_MS) by (nonlinear_arith)
            requires days_back <= u32::MAX;
        let from_timestamp = now - (days_back as u64 * DAY_MS);
        (from_timestamp, now)
    }
}

// ===== Laws =====

/// Every trade's quantity counts once, as a buy or as a sell.
pub proof fn law_buy_sell_partition(ts: Seq<Trade>)
    ensures
        side_sum(ts, true) + side_sum(ts, false) == quantity_sum(ts),
{
    lemma_side_sums(ts);
}

/// The five most active accounts never trade more than all accounts together.
pub proof fn law_top5_within_total(ts: Seq<Trade>)
    ensures
        top5_sum(ts) <= quantity_sum(ts),
{
    let v = sorted_desc(tally_volumes(tallies(ts, by_account())));
    lemma_tally_volume_sum(ts, by_account());
    lemma_sorted_desc_sum(tally_volumes(tallies(ts, by_account())));
    lemma_nat_sum_prefix(v, if v.len() < 5 { v.len() as int } else { 5 });
}

proof fn lemma_recency_insert(s: Seq<Trade>, t: Trade)
    requires
        forall|i: int, j: int| 0 <= i <= j < s.len() ==> s[i].timestamp >= s[j].timestamp,
    ensures
        forall|i: int, j: int| 0 <= i <= j < insert_by_recency(s, t).len()
            ==> insert_by_recency(s, t)[i].timestamp >= insert_by_recency(s, t)[j].timestamp,
        insert_by_recency(s, t).len() == s.len() + 1,
        forall|k: int| 0 <= k < insert_by_recency(s, t).len() ==> #[trigger] insert_by_recency(s, t)[k] == t
            || s.contains(insert_by_recency(s, t)[k]),
    decreases s.len(),
{
    if s.len() > 0 && s.last().timestamp < t.timestamp {
        let d = s.drop_last();
        lemma_recency_insert(d, t);
        let u = insert_by_recency(d, t);
        let r = u.push(s.last());
        assert forall|k: int| 0 <= k < u.len() implies (#[trigger] u[k]).timestamp >= s.last().timestamp by {
            if u[k] != t {
                let m = choose|m: int| 0 <= m < d.len() && d[m] == u[k];
                assert(d[m] == s[m]);
            }
        }
        assert forall|k: int| 0 <= k < r.len() implies #[trigger] r[k] == t || s.contains(r[k]) by {
            if k < u.len() {
                assert(r[k] == u[k]);
                if u[k] != t {
                    let m = choose|m: int| 0 <= m < d.len() && d[m] == u[k];
                    assert(s[m] == d[m]);
                }
            } else {
                assert(s[s.len() - 1] == s.last());
            }
        }
    } else if s.len() > 0 {
        let r = s.push(t);
        assert forall|k: int| 0 <= k < r.len() implies #[trigger] r[k] == t || s.contains(r[k]) by {
            if k < s.len() {
                assert(r[k] == s[k]);
            }
        }
    }
}

/// Merged trade histories come newest first and keep every fetched trade.
pub proof fn law_merged_trades_newest_first(s: Seq<Trade>)
    ensures
        forall|i: int, j: int| 0 <= i <= j < newest_first(s).len() ==> newest_first(s)[i].timestamp >= newest_first(s)[j].timestamp,
        newest_first(s).len() == s.len(),
    decreases s.len(),
{
    if s.len() > 0 {
        law_merged_trades_newest_first(s.drop_last());
        lemma_recency_insert(newest_first(s.drop_last()), s.last());
    }
}

proof fn lemma_tally_insert(s: Seq<Tally>, x: Tally)
    requires
        forall|i: int, j: int| 0 <= i <= j < s.len() ==> s[i].1 + s[i].2 >= s[j].1 + s[j].2,
    ensures
        forall|i: int, j: int| 0 <= i <= j < insert_tally(s, x).len()
            ==> insert_tally(s, x)[i].1 + insert_tally(s, x)[i].2 >= insert_tally(s, x)[j].1 + insert_tally(s, x)[j].2,
        insert_tally(s, x).len() == s.len() + 1,
        forall|k: int| 0 <= k < insert_tally(s, x).len() ==> #[trigger] insert_tally(s, x)[k] == x
            || s.contains(insert_tally(s, x)[k]),
    decreases s.len(),
{
    if s.len() > 0 && s.last().1 + s.last().2 < x.1 + x.2 {
        let d = s.drop_last();
        lemma_tally_insert(d, x);
        let u = insert_tally(d, x);
        let r = u.push(s.last());
        assert forall|k: int| 0 <= k < u.len() implies (#[trigger] u[k]).1 + u[k].2 >= s.last().1 + s.last().2 by {
            if u[k] != x {
                let m = choose|m: int| 0 <= m < d.len() && d[m] == u[k];
                assert(d[m] == s[m]);
            }
        }
        assert forall|k: int| 0 <= k < r.len() implies #[trigger] r[k] == x || s.contains(r[k]) by {
            if k < u.len() {
                assert(r[k] == u[k]);
                if u[k] != x {
                    let m = choose|m: int| 0 <= m < d.len() && d[m] == u[k];
                    assert(s[m] == d[m]);
                }
            } else {
                assert(s[s.len() - 1] == s.last());
            }
        }
    } else if s.len() > 0 {
        let r = s.push(x);
        assert forall|k: int| 0 <= k < r.len() implies #[trigger] r[k] == x || s.contains(r[k]) by {
            if k < s.len() {
                assert(r[k] == s[k]);
            }
        }
    }
}

/// Top traders come most active first, at most `limit` of them.
pub proof fn law_top_traders_by_volume(ts: Seq<Tally>, limit: nat)
    ensures
        forall|i: int, j: int| 0 <= i <= j < first_n(sorted_tallies(ts), limit).len()
            ==> first_n(sorted_tallies(ts), limit)[i].1 + first_n(sorted_tallies(ts), limit)[i].2
                >= first_n(sorted_tallies(ts), limit)[j].1 + first_n(sorted_tallies(ts), limit)[j].2,
        first_n(sorted_tallies(ts), limit).len() <= limit,
        first_n(sorted_tallies(ts), limit).len() <= ts.len(),
    decreases ts.len(),
{
    lemma_sorted_tallies(ts);
}

proof fn lemma_sorted_tallies(ts: Seq<Tally>)
    ensures
        forall|i: int, j: int| 0 <= i <= j < sorted_tallies(ts).len()
            ==> sorted_tallies(ts)[i].1 + sorted_tallies(ts)[i].2 >= sorted_tallies(ts)[j].1 + sorted_tallies(ts)[j].2,
        sorted_tallies(ts).len() == ts.len(),
    decreases ts.len(),
{
    if ts.len() > 0 {
        lemma_sorted_tallies(ts.drop_last());
        lemma_tally_insert(sorted_tallies(ts.drop_last()), ts.last());
    }
}

proof fn lemma_sums_remove(s: Seq<Trade>, i: int)
    requires
        0 <= i < s.len(),
    ensures
        quantity_sum(s) == quantity_sum(s.remove(i)) + s[i].quantity,
        side_sum(s, true) == side_sum(s.remove(i), true) + if is_buy(s[i]) { s[i].quantity as nat } else { 0nat },
        side_sum(s, false) == side_sum(s.remove(i), false) + if is_buy(s[i]) { 0nat } else { s[i].quantity as nat },
    decreases s.len(),
{
    if i == s.len() - 1 {
        assert(s.remove(i) =~= s.drop_last());
    } else {
        lemma_sums_remove(s.drop_last(), i);
        assert(s.remove(i).drop_last() =~= s.drop_last().remove(i));
        assert(s.remove(i).last() == s.last());
        assert(s.drop_last()[i] == s[i]);
    }
}

proof fn lemma_sums_ignore_order(s1: Seq<Trade>, s2: Seq<Trade>)
    requires
        s1.to_multiset() == s2.to_multiset(),
    ensures
        quantity_sum(s1) == quantity_sum(s2),
        side_sum(s1, true) == side_sum(s2, true),
        side_sum(s1, false) == side_sum(s2, false),
        s1.len() == s2.len(),
    decreases s1.len(),
{
    broadcast use vstd::seq_lib::group_to_multiset_ensures;
    if s1.len() == 0 {
        assert(s2.to_multiset().len() == 0);
        assert(s2.len() == 0);
    } else {
        let x = s1.last();
        let n = s1.len() - 1;
        assert(s1.contains(x)) by { assert(s1[n] == x); }
        assert(s1.to_multiset().count(x) > 0);
        assert(s2.contains(x));
        let i = choose|i: int| 0 <= i < s2.len() && s2[i] == x;
        assert(s1.remove(n) =~= s1.drop_last());
        assert(s1.drop_last().to_multiset() =~= s1.to_multiset().remove(x));
        assert(s2.remove(i).to_multiset() =~= s2.to_multiset().remove(x));
        lemma_sums_ignore_order(s1.drop_last(), s2.remove(i));
        lemma_sums_remove(s2, i);
    }
}

// ===== Order of the trades =====

pub open spec fn descending(s: Seq<nat>) -> bool {
    forall|i: int, j: int| 0 <= i <= j < s.len() ==> s[i] >= s[j]
}

proof fn lemma_insert_desc_shape(s: Seq<nat>, x: nat)
    requires
        descending(s),
    ensures
        descending(insert_desc(s, x)),
        insert_desc(s, x).to_multiset() == s.to_multiset().insert(x),
    decreases s.len(),
{
    broadcast use vstd::seq_lib::group_to_multiset_ensures;
    if s.len() == 0 {
        assert(insert_desc(s, x) =~= s.push(x));
    } else if s.last() >= x {
        assert(insert_desc(s, x) =~= s.push(x));
    } else {
        let d = s.drop_last();
        assert(s =~= d.push(s.last()));
        lemma_insert_desc_shape(d, x);
        let u = insert_desc(d, x);
        assert forall|k: int| 0 <= k < u.len() implies #[trigger] u[k] >= s.last() by {
            assert(u.contains(u[k]));
            assert(u.to_multiset().count(u[k]) > 0);
            if u[k] != x {
                assert(d.to_multiset().count(u[k]) > 0);
                assert(d.contains(u[k]));
                let m = choose|m: int| 0 <= m < d.len() && d[m] == u[k];
                assert(d[m] == s[m]);
                assert(s[m] >= s[s.len() - 1]);
            }
        }
        assert(insert_desc(s, x).to_multiset() =~= s.to_multiset().insert(x));
    }
}

proof fn lemma_sorted_desc_shape(s: Seq<nat>)
    ensures
        descending(sorted_desc(s)),
        sorted_desc(s).to_multiset() == s.to_multiset(),
    decreases s.len(),
{
    broadcast use vstd::seq_lib::group_to_multiset_ensures;
    if s.len() > 0 {
        let d = s.drop_last();
        lemma_sorted_desc_shape(d);
        lemma_insert_desc_shape(sorted_desc(d), s.last());
        assert(s =~= d.push(s.last()));
    } else {
        assert(s.to_multiset() =~= vstd::multiset::Multiset::<nat>::empty());
    }
}

proof fn lemma_descending_unique(a: Seq<nat>, b: Seq<nat>)
    requires
        descending(a),
        descending(b),
        a.to_multiset() == b.to_multiset(),
    ensures
        a == b,
    decreases a.len(),
{
    broadcast use vstd::seq_lib::group_to_multiset_ensures;
    vstd::seq_lib::to_multiset_len(a);
    vstd::seq_lib::to_multiset_len(b);
    assert(a.len() == b.len());
    if a.len() == 0 {
        assert(a =~= b);
    } else {
        assert(a.contains(a[0]));
        assert(b.to_multiset().count(a[0]) > 0);
        assert(b.contains(a[0]));
        assert(b.contains(b[0]));
        assert(a.to_multiset().count(b[0]) > 0);
        assert(a.contains(b[0]));
        let kb = choose|k: int| 0 <= k < b.len() && b[k] == a[0];
        let ka = choose|k: int| 0 <= k < a.len() && a[k] == b[0];
        assert(b[0] >= b[kb]);
        assert(a[0] >= a[ka]);
        assert(a[0] == b[0]);
        let a1 = a.drop_first();
        let b1 = b.drop_first();
        assert(a.remove(0) =~= a1);
        assert(b.remove(0) =~= b1);
        assert(a1.to_multiset() == b1.to_multiset());
        assert forall|i: int, j: int| 0 <= i <= j < a1.len() implies a1[i] >= a1[j] by {
            assert(a1[i] == a[i + 1] && a1[j] == a[j + 1]);
        }
        assert forall|i: int, j: int| 0 <= i <= j < b1.len() implies b1[i] >= b1[j] by {
            assert(b1[i] == b[i + 1] && b1[j] == b[j + 1]);
        }
        lemma_descending_unique(a1, b1);
        assert forall|i: int| 0 <= i < a.len() implies a[i] == b[i] by {
            if i > 0 {
                assert(a[i] == a1[i - 1] && b[i] == b1[i - 1]);
            }
        }
        assert(a =~= b);
    }
}

/// The volume traded under a key.
pub open spec fn key_volume(ts: Seq<Trade>, key_of: spec_fn(Trade) -> Seq<char>, k: Seq<char>) -> nat
    decreases ts.len(),
{
    if ts.len() == 0 {
        0
    } else {
        key_volume(ts.drop_last(), key_of, k) + if key_of(ts.last()) == k { ts.last().quantity as nat } else { 0nat }
    }
}

pub open spec fn has_key(ts: Seq<Trade>, key_of: spec_fn(Trade) -> Seq<char>, k: Seq<char>) -> bool {
    exists|m: int| 0 <= m < ts.len() && key_of(#[trigger] ts[m]) == k
}

pub open spec fn has_tally(t: Seq<Tally>, k: Seq<char>) -> bool {
    exists|i: int| 0 <= i < t.len() && (#[trigger] t[i]).0 == k
}

pub open spec fn keys_distinct(t: Seq<Tally>) -> bool {
    forall|i: int, j: int| 0 <= i < t.len() && 0 <= j < t.len() && i != j ==> (#[trigger] t[i]).0 != (#[trigger] t[j]).0
}

proof fn lemma_absent_key_volume(ts: Seq<Trade>, key_of: spec_fn(Trade) -> Seq<char>, k: Seq<char>)
    requires
        !has_key(ts, key_of, k),
    ensures
        key_volume(ts, key_of, k) == 0,
    decreases ts.len(),
{
    if ts.len() > 0 {
        let d = ts.drop_last();
        assert(!has_key(d, key_of, k)) by {
            if has_key(d, key_of, k) {
                let m = choose|m: int| 0 <= m < d.len() && key_of(#[trigger] d[m]) == k;
                assert(ts[m] == d[m]);
            }
        }
        assert(ts[ts.len() - 1] == ts.last());
        lemma_absent_key_volume(d, key_of, k);
    }
}

/// The tallies hold each key of the trades once, with the volume traded under it.
proof fn lemma_tallies_shape(ts: Seq<Trade>, key_of: spec_fn(Trade) -> Seq<char>)
    ensures
        keys_distinct(tallies(ts, key_of)),
        forall|i: int| 0 <= i < tallies(ts, key_of).len() ==>
            (#[trigger] tallies(ts, key_of)[i]).1 + tallies(ts, key_of)[i].2 == key_volume(ts, key_of, tallies(ts, key_of)[i].0),
        forall|k: Seq<char>| has_tally(tallies(ts, key_of), k) == has_key(ts, key_of, k),
    decreases ts.len(),
{
    if ts.len() > 0 {
        let d = ts.drop_last();
        let x = ts.last();
        let key = key_of(x);
        let prev = tallies(d, key_of);
        let t = tallies(ts, key_of);
        lemma_tallies_shape(d, key_of);
        lemma_tally_index_facts(prev, key);
        assert(ts[ts.len() - 1] == x);
        assert forall|m: int| 0 <= m < d.len() implies #[trigger] d[m] == ts[m] by {}
        match tally_index(prev, key) {
            Some(p) => {
                assert(t == prev.update(p, bumped(prev[p], x)));
                assert forall|k: Seq<char>| has_tally(t, k) == has_key(ts, key_of, k) by {
                    if has_tally(t, k) {
                        let i = choose|i: int| 0 <= i < t.len() && (#[trigger] t[i]).0 == k;
                        assert(prev[i].0 == k);
                        assert(has_tally(prev, k));
                        assert(has_key(d, key_of, k));
                        let m = choose|m: int| 0 <= m < d.len() && key_of(#[trigger] d[m]) == k;
                        assert(key_of(ts[m]) == k);
                    }
                    if has_key(ts, key_of, k) {
                        let m = choose|m: int| 0 <= m < ts.len() && key_of(#[trigger] ts[m]) == k;
                        if m < d.len() {
                            assert(key_of(d[m]) == k);
                            assert(has_key(d, key_of, k));
                            assert(has_tally(prev, k));
                            let i = choose|i: int| 0 <= i < prev.len() && (#[trigger] prev[i]).0 == k;
                            assert(t[i].0 == k);
                        } else {
                            assert(t[p].0 == k);
                        }
                    }
                }
            },
            None => {
                assert(t == prev.push(bumped((key, 0nat, 0nat, 0nat, x.timestamp, x.timestamp), x)));
                assert(!has_tally(prev, key));
                assert(!has_key(d, key_of, key));
                lemma_absent_key_volume(d, key_of, key);
                assert forall|k: Seq<char>| has_tally(t, k) == has_key(ts, key_of, k) by {
                    if has_tally(t, k) {
                        let i = choose|i: int| 0 <= i < t.len() && (#[trigger] t[i]).0 == k;
                        if i < prev.len() {
                            assert(prev[i].0 == k);
                            assert(has_tally(prev, k));
                            assert(has_key(d, key_of, k));
                            let m = choose|m: int| 0 <= m < d.len() && key_of(#[trigger] d[m]) == k;
                            assert(key_of(ts[m]) == k);
                        } else {
                            assert(key_of(ts[ts.len() - 1]) == k);
                        }
                    }
                    if has_key(ts, key_of, k) {
                        let m = choose|m: int| 0 <= m < ts.len() && key_of(#[trigger] ts[m]) == k;
                        if m < d.len() {
                            assert(key_of(d[m]) == k);
                            assert(has_key(d, key_of, k));
                            assert(has_tally(prev, k));
                            let i = choose|i: int| 0 <= i < prev.len() && (#[trigger] prev[i]).0 == k;
                            assert(t[i].0 == k);
                        } else {
                            assert(t[prev.len() as int].0 == k);
                        }
                    }
                }
            },
        }
    }
}

proof fn lemma_key_volume_remove(s: Seq<Trade>, key_of: spec_fn(Trade) -> Seq<char>, k: Seq<char>, i: int)
    requires
        0 <= i < s.len(),
    ensures
        key_volume(s, key_of, k) == key_volume(s.remove(i), key_of, k)
            + if key_of(s[i]) == k { s[i].quantity as nat } else { 0nat },
    decreases s.len(),
{
    if i == s.len() - 1 {
        assert(s.remove(i) =~= s.drop_last());
    } else {
        lemma_key_volume_remove(s.drop_last(), key_of, k, i);
        assert(s.remove(i).drop_last() =~= s.drop_last().remove(i));
        assert(s.remove(i).last() == s.last());
        assert(s.drop_last()[i] == s[i]);
    }
}

proof fn lemma_key_volume_ignores_order(s1: Seq<Trade>, s2: Seq<Trade>, key_of: spec_fn(Trade) -> Seq<char>, k: Seq<char>)
    requires
        s1.to_multiset() == s2.to_multiset(),
    ensures
        key_volume(s1, key_of, k) == key_volume(s2, key_of, k),
    decreases s1.len(),
{
    broadcast use vstd::seq_lib::group_to_multiset_ensures;
    if s1.len() == 0 {
        assert(s2.to_multiset().len() == 0);
        assert(s2.len() == 0);
    } else {
        let x = s1.last();
        let n = s1.len() - 1;
        assert(s1.contains(x)) by { assert(s1[n] == x); }
        assert(s1.to_multiset().count(x) > 0);
        assert(s2.contains(x));
        let i = choose|i: int| 0 <= i < s2.len() && s2[i] == x;
        assert(s1.remove(n) =~= s1.drop_last());
        assert(s1.drop_last().to_multiset() =~= s1.to_multiset().remove(x));
        assert(s2.remove(i).to_multiset() =~= s2.to_multiset().remove(x));
        lemma_key_volume_ignores_order(s1.drop_last(), s2.remove(i), key_of, k);
        lemma_key_volume_remove(s2, key_of, k, i);
    }
}

proof fn lemma_has_key_ignores_order(s1: Seq<Trade>, s2: Seq<Trade>, key_of: spec_fn(Trade) -> Seq<char>, k: Seq<char>)
    requires
        s1.to_multiset() == s2.to_multiset(),
    ensures
        has_key(s1, key_of, k) == has_key(s2, key_of, k),
{
    broadcast use vstd::seq_lib::group_to_multiset_ensures;
    if has_key(s1, key_of, k) {
        let m = choose|m: int| 0 <= m < s1.len() && key_of(#[trigger] s1[m]) == k;
        assert(s1.contains(s1[m]));
        assert(s2.to_multiset().count(s1[m]) > 0);
        assert(s2.contains(s1[m]));
        let j = choose|j: int| 0 <= j < s2.len() && s2[j] == s1[m];
        assert(key_of(s2[j]) == k);
    }
    if has_key(s2, key_of, k) {
        let m = choose|m: int| 0 <= m < s2.len() && key_of(#[trigger] s2[m]) == k;
        assert(s2.contains(s2[m]));
        assert(s1.to_multiset().count(s2[m]) > 0);
        assert(s1.contains(s2[m]));
        let j = choose|j: int| 0 <= j < s1.len() && s1[j] == s2[m];
        assert(key_of(s1[j]) == k);
    }
}

proof fn lemma_same_tallies_same_volumes(t1: Seq<Tally>, t2: Seq<Tally>, vol: spec_fn(Seq<char>) -> nat)
    requires
        keys_distinct(t1),
        keys_distinct(t2),
        forall|k: Seq<char>| has_tally(t1, k) == has_tally(t2, k),
        forall|i: int| 0 <= i < t1.len() ==> (#[trigger] t1[i]).1 + t1[i].2 == vol(t1[i].0),
        forall|i: int| 0 <= i < t2.len() ==> (#[trigger] t2[i]).1 + t2[i].2 == vol(t2[i].0),
    ensures
        tally_volumes(t1).to_multiset() == tally_volumes(t2).to_multiset(),
    decreases t1.len(),
{
    broadcast use vstd::seq_lib::group_to_multiset_ensures;
    if t1.len() == 0 {
        if t2.len() > 0 {
            assert(has_tally(t2, t2[0].0));
            assert(has_tally(t1, t2[0].0));
        }
        assert(tally_volumes(t1) =~= tally_volumes(t2));
    } else {
        let n = t1.len() - 1;
        let x = t1[n];
        assert(has_tally(t1, x.0));
        assert(has_tally(t2, x.0));
        let j = choose|j: int| 0 <= j < t2.len() && (#[trigger] t2[j]).0 == x.0;
        let u1 = t1.drop_last();
        let u2 = t2.remove(j);
        assert forall|a: int, b: int| 0 <= a < u1.len() && 0 <= b < u1.len() && a != b
            implies (#[trigger] u1[a]).0 != (#[trigger] u1[b]).0 by {
            assert(u1[a] == t1[a] && u1[b] == t1[b]);
        }
        assert forall|a: int, b: int| 0 <= a < u2.len() && 0 <= b < u2.len() && a != b
            implies (#[trigger] u2[a]).0 != (#[trigger] u2[b]).0 by {
            let a2 = if a < j { a } else { a + 1 };
            let b2 = if b < j { b } else { b + 1 };
            assert(u2[a] == t2[a2] && u2[b] == t2[b2]);
        }
        assert forall|k: Seq<char>| has_tally(u1, k) == has_tally(u2, k) by {
            if has_tally(u1, k) {
                let a = choose|a: int| 0 <= a < u1.len() && (#[trigger] u1[a]).0 == k;
                assert(u1[a] == t1[a]);
                assert(a != n);
                assert(k != x.0);
                assert(has_tally(t1, k));
                assert(has_tally(t2, k));
                let b = choose|b: int| 0 <= b < t2.len() && (#[trigger] t2[b]).0 == k;
                assert(b != j);
                let b2 = if b < j { b } else { b - 1 };
                assert(u2[b2] == t2[b]);
            }
            if has_tally(u2, k) {
                let b = choose|b: int| 0 <= b < u2.len() && (#[trigger] u2[b]).0 == k;
                let b2 = if b < j { b } else { b + 1 };
                assert(u2[b] == t2[b2]);
                assert(b2 != j);
                assert(k != x.0);
                assert(has_tally(t2, k));
                assert(has_tally(t1, k));
                let a = choose|a: int| 0 <= a < t1.len() && (#[trigger] t1[a]).0 == k;
                assert(a != n);
                assert(u1[a] == t1[a]);
            }
        }
        assert forall|i: int| 0 <= i < u1.len() implies (#[trigger] u1[i]).1 + u1[i].2 == vol(u1[i].0) by {
            assert(u1[i] == t1[i]);
        }
        assert forall|i: int| 0 <= i < u2.len() implies (#[trigger] u2[i]).1 + u2[i].2 == vol(u2[i].0) by {
            let i2 = if i < j { i } else { i + 1 };
            assert(u2[i] == t2[i2]);
        }
        lemma_same_tallies_same_volumes(u1, u2, vol);
        let v = x.1 + x.2;
        assert(tally_volumes(t1) =~= tally_volumes(u1).push(v));
        assert(tally_volumes(u2) =~= tally_volumes(t2).remove(j));
        assert(tally_volumes(t2)[j] == v);
        assert(tally_volumes(u2).to_multiset() == tally_volumes(t2).to_multiset().remove(v));
        assert(tally_volumes(t2).contains(v));
        assert(tally_volumes(t2).to_multiset().count(v) > 0);
        assert(tally_volumes(t1).to_multiset() =~= tally_volumes(t2).to_multiset());
    }
}

proof fn lemma_top5_ignores_order(s1: Seq<Trade>, s2: Seq<Trade>)
    requires
        s1.to_multiset() == s2.to_multiset(),
    ensures
        top5_sum(s1) == top5_sum(s2),
{
    let key_of = by_account();
    let t1 = tallies(s1, key_of);
    let t2 = tallies(s2, key_of);
    lemma_tallies_shape(s1, key_of);
    lemma_tallies_shape(s2, key_of);
    let vol = |k: Seq<char>| key_volume(s1, key_of, k);
    assert forall|k: Seq<char>| has_tally(t1, k) == has_tally(t2, k) by {
        lemma_has_key_ignores_order(s1, s2, key_of, k);
    }
    assert forall|i: int| 0 <= i < t2.len() implies (#[trigger] t2[i]).1 + t2[i].2 == vol(t2[i].0) by {
        lemma_key_volume_ignores_order(s1, s2, key_of, t2[i].0);
    }
    lemma_same_tallies_same_volumes(t1, t2, vol);
    let v1 = tally_volumes(t1);
    let v2 = tally_volumes(t2);
    lemma_sorted_desc_shape(v1);
    lemma_sorted_desc_shape(v2);
    lemma_descending_unique(sorted_desc(v1), sorted_desc(v2));
}

/// The integer statistics of a volume analysis do not depend on the order of
/// the trades: the same trades in any order have the same total, buy and sell
/// volume, the same number of trades and the same volume of the five most
/// active accounts.
pub proof fn law_volume_totals_ignore_order(s1: Seq<Trade>, s2: Seq<Trade>)
    requires
        s1.to_multiset() == s2.to_multiset(),
    ensures
        quantity_sum(s1) == quantity_sum(s2),
        side_sum(s1, true) == side_sum(s2, true),
        side_sum(s1, false) == side_sum(s2, false),
        s1.len() == s2.len(),
        top5_sum(s1) == top5_sum(s2),
{
    lemma_sums_ignore_order(s1, s2);
    lemma_top5_ignores_order(s1, s2);
}

} // verus!
