use market_surveillance::trades::{
    aggregate_activity, anomaly_window, average_volume_30d, checked_aggregate_activity, checked_quantity_sum, first_trade, merge_account_trades, total_quantity,
    volume_totals, Trade, TradeDataConfig, TradeDataContractState, DAY_MS,
};

fn tt(t: &str) -> String {
    t.to_string()
}

fn trade(id: &str, account: &str, symbol: &str, side: &str, quantity: u64, at: u64) -> Trade {
    Trade {
        trade_id: tt(id),
        symbol: tt(symbol),
        account_id: tt(account),
        trade_type: tt(side),
        quantity,
        price: tt("100.0"),
        value: tt("0"),
        exchange: tt("NSE"),
        segment: tt("EQ"),
        timestamp: at,
        order_id: tt(""),
    }
}

fn trade_service() -> TradeDataContractState {
    TradeDataContractState::new(TradeDataConfig {
        api_endpoint: tt("https://api.example"),
        api_key: tt("k123"),
        dashboard_contract_id: tt(""),
    })
    .unwrap()
}

#[test]
fn url_and_header() {
    let svc = trade_service();
    assert_eq!(svc.trades_url(&tt("trades/T1")), "https://api.example/trades/T1");
    assert_eq!(svc.bearer_header(), "Bearer k123");
}

#[test]
fn endpoints() {
    assert_eq!(TradeDataContractState::trade_endpoint(&tt("T9")), "trades/T9");
    assert_eq!(
        TradeDataContractState::symbol_endpoint(&tt("INFY"), 10, 20, 5),
        "trades?symbol=INFY&from=10&to=20&limit=5"
    );
    assert_eq!(
        TradeDataContractState::account_endpoint(&tt("A1"), 0, 7, 100000),
        "trades?account=A1&from=0&to=7&limit=100000"
    );
    assert_eq!(
        TradeDataContractState::large_orders_endpoint(1000000, 1, 2),
        "trades?min_value=1000000&from=1&to=2"
    );
}

#[test]
fn endpoints_per_account_are_trimmed() {
    let e = TradeDataContractState::accounts_endpoints(&tt("A1, B2 ,C3"), &tt("TCS"), 1, 2);
    assert_eq!(
        e,
        vec![
            tt("trades?account=A1&symbol=TCS&from=1&to=2"),
            tt("trades?account=B2&symbol=TCS&from=1&to=2"),
            tt("trades?account=C3&symbol=TCS&from=1&to=2"),
        ]
    );
    assert_eq!(TradeDataContractState::accounts_endpoints(&tt(""), &tt("TCS"), 1, 2).len(), 1);
}

#[test]
fn volume_totals_with_concentration() {
    let trades = vec![
        trade("1", "A", "X", "BUY", 10, 1),
        trade("2", "B", "X", "SELL", 20, 2),
        trade("3", "A", "X", "SELL", 5, 3),
        trade("4", "C", "X", "BUY", 1, 4),
        trade("5", "D", "X", "BUY", 2, 5),
        trade("6", "E", "X", "BUY", 3, 6),
        trade("7", "F", "X", "BUY", 4, 7),
    ];
    let v = volume_totals(&trades);
    assert_eq!(v.total_volume, 45);
    assert_eq!(v.buy_volume, 20);
    assert_eq!(v.sell_volume, 25);
    assert_eq!(v.buy_volume + v.sell_volume, v.total_volume);
    assert_eq!(v.trade_count, 7);
    // Accounts: B 20, A 15, F 4, E 3, D 2, C 1; the top five sum to 44.
    assert_eq!(v.top5_volume, 44);
    assert!(v.top5_volume <= v.total_volume);
}

#[test]
fn volume_totals_of_nothing() {
    let v = volume_totals(&Vec::new());
    assert_eq!(v.total_volume, 0);
    assert_eq!(v.top5_volume, 0);
    assert_eq!(v.trade_count, 0);
}

#[test]
fn quantities_sum() {
    let trades = vec![trade("1", "A", "X", "BUY", 7, 1), trade("2", "B", "X", "SELL", 8, 2)];
    assert_eq!(total_quantity(&trades), 15);
    assert_eq!(total_quantity(&Vec::new()), 0);
}

#[test]
fn anomaly_window_days() {
    let w = anomaly_window(40 * DAY_MS + 12345);
    assert_eq!(w.day_start, 40 * DAY_MS);
    assert_eq!(w.day_end, 41 * DAY_MS);
    assert_eq!(w.thirty_days_ago, 10 * DAY_MS);
}

#[test]
fn thirty_day_average() {
    assert_eq!(average_volume_30d(0), 1);
    assert_eq!(average_volume_30d(29), 0);
    assert_eq!(average_volume_30d(3000), 100);
}

#[test]
fn first_trade_or_error() {
    let got = first_trade(vec![trade("T1", "A", "X", "BUY", 1, 1), trade("T2", "A", "X", "BUY", 1, 1)], &tt("T1")).unwrap();
    assert_eq!(got.trade_id, "T1");
    assert_eq!(first_trade(Vec::new(), &tt("T5")).unwrap_err(), "Trade T5 not found");
}

#[test]
fn merged_trades_newest_first_and_failures_skipped() {
    let batches = vec![
        Ok(vec![trade("a1", "A", "X", "BUY", 1, 10), trade("a2", "A", "X", "BUY", 1, 30)]),
        Err(tt("HTTP request failed")),
        Ok(vec![trade("b1", "B", "X", "SELL", 1, 20), trade("b2", "B", "X", "SELL", 1, 30)]),
    ];
    let merged = merge_account_trades(batches);
    let ids: Vec<&str> = merged.iter().map(|t| t.trade_id.as_str()).collect();
    assert_eq!(ids, vec!["a2", "b2", "b1", "a1"]);
}

#[test]
fn activity_per_account() {
    let trades = vec![
        trade("1", "A", "X", "BUY", 10, 5),
        trade("2", "B", "X", "SELL", 3, 2),
        trade("3", "A", "X", "SELL", 4, 1),
        trade("4", "A", "X", "BUY", 1, 9),
    ];
    let acts = aggregate_activity(&trades, true, &tt("X"));
    assert_eq!(acts.len(), 2);
    assert_eq!(acts[0].account_id, "A");
    assert_eq!(acts[0].symbol, "X");
    assert_eq!(acts[0].buy_quantity, 11);
    assert_eq!(acts[0].sell_quantity, 4);
    assert_eq!(acts[0].net_position, 7);
    assert_eq!(acts[0].trade_count, 3);
    assert_eq!(acts[0].first_trade_time, 1);
    assert_eq!(acts[0].last_trade_time, 9);
    assert_eq!(acts[1].account_id, "B");
    assert_eq!(acts[1].net_position, -3);
}

#[test]
fn top_traders_by_volume_with_limit() {
    let trades = vec![
        trade("1", "A", "X", "BUY", 5, 1),
        trade("2", "B", "X", "SELL", 9, 2),
        trade("3", "C", "X", "BUY", 5, 3),
        trade("4", "D", "X", "BUY", 1, 4),
    ];
    let top = TradeDataContractState::top_traders(&tt("X"), &trades, 3);
    let ids: Vec<&str> = top.iter().map(|a| a.account_id.as_str()).collect();
    assert_eq!(ids, vec!["B", "A", "C"]);
    assert!(TradeDataContractState::top_traders(&tt("X"), &trades, 0).is_empty());
}

#[test]
fn account_profile_per_symbol() {
    let trades = vec![
        trade("1", "A", "INFY", "BUY", 5, 1),
        trade("2", "A", "TCS", "SELL", 2, 2),
        trade("3", "A", "INFY", "SELL", 1, 3),
    ];
    let p = TradeDataContractState::account_profile(&tt("A"), &trades);
    assert_eq!(p.len(), 2);
    assert_eq!(p[0].symbol, "INFY");
    assert_eq!(p[0].account_id, "A");
    assert_eq!(p[0].net_position, 4);
    assert_eq!(p[1].symbol, "TCS");
    assert_eq!(p[1].net_position, -2);
}

#[test]
fn profile_window_looks_back_whole_days() {
    assert_eq!(TradeDataContractState::account_profile_window(0, 0), (0, 0));
    assert_eq!(TradeDataContractState::account_profile_window(10 * DAY_MS + 5, 7), (3 * DAY_MS + 5, 10 * DAY_MS + 5));
    assert_eq!(TradeDataContractState::account_profile_window(DAY_MS, 1), (0, DAY_MS));
}

#[test]
fn checked_sum_detects_overflow() {
    let small = vec![trade("1", "A", "X", "BUY", 3, 1), trade("2", "A", "X", "BUY", 4, 1)];
    assert_eq!(checked_quantity_sum(&small), Some(7));
    assert_eq!(checked_quantity_sum(&Vec::new()), Some(0));
    let big = vec![trade("1", "A", "X", "BUY", u64::MAX, 1), trade("2", "A", "X", "BUY", 1, 1)];
    assert_eq!(checked_quantity_sum(&big), None);
    let edge = vec![trade("1", "A", "X", "BUY", u64::MAX - 1, 1), trade("2", "A", "X", "BUY", 1, 1)];
    assert_eq!(checked_quantity_sum(&edge), Some(u64::MAX));
}

#[test]
fn activity_bounds_are_per_account() {
    let big = i64::MAX as u64;
    let two_accounts = vec![trade("1", "A", "X", "BUY", big, 1), trade("2", "B", "X", "SELL", big, 2)];
    let acts = checked_aggregate_activity(&two_accounts, true, &tt("X")).unwrap();
    assert_eq!(acts[0].net_position, i64::MAX);
    assert_eq!(acts[1].net_position, -i64::MAX);
    let top = TradeDataContractState::top_traders(&tt("X"), &two_accounts, 5);
    assert_eq!(top.len(), 2);
    let one_account = vec![trade("1", "A", "X", "BUY", 1u64 << 62, 1), trade("2", "A", "X", "BUY", 1u64 << 62, 2)];
    assert!(checked_aggregate_activity(&one_account, true, &tt("X")).is_none());
    let per_symbol = vec![trade("1", "A", "X", "BUY", 1u64 << 62, 1), trade("2", "A", "Y", "BUY", 1u64 << 62, 2)];
    assert_eq!(checked_aggregate_activity(&per_symbol, false, &tt("A")).unwrap().len(), 2);
}

#[test]
fn totals_ignore_trade_order() {
    let a = vec![trade("1", "A", "X", "BUY", 3, 1), trade("2", "B", "X", "SELL", 4, 2), trade("3", "C", "X", "BUY", 5, 3)];
    let b = vec![a[2].clone(), a[0].clone(), a[1].clone()];
    let va = volume_totals(&a);
    let vb = volume_totals(&b);
    assert_eq!(va, vb);
}
