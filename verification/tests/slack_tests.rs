use market_surveillance::slack::{SlackNotifierConfig, SlackNotifierContractState};

fn sl(t: &str) -> String {
    t.to_string()
}

fn notifier(webhook: &str) -> SlackNotifierContractState {
    SlackNotifierContractState::new(SlackNotifierConfig { webhook_url: sl(webhook), default_channel: sl("#alerts") })
        .unwrap()
}

#[test]
fn severity_emojis() {
    let n = notifier("");
    assert_eq!(n.get_severity_emoji(&sl("CRITICAL")), "🚨");
    assert_eq!(n.get_severity_emoji(&sl("HIGH")), "🔴");
    assert_eq!(n.get_severity_emoji(&sl("MEDIUM")), "🟡");
    assert_eq!(n.get_severity_emoji(&sl("LOW")), "🟢");
    assert_eq!(n.get_severity_emoji(&sl("other")), "ℹ️");
}

#[test]
fn missing_webhook_gives_failed_result() {
    let r = notifier("").delivery_target(&sl("hi")).unwrap_err();
    assert!(!r.success);
    assert_eq!(r.message_id, "");
    assert_eq!(r.timestamp, 0);
    assert_eq!(r.error, "Webhook URL not configured");
}

#[test]
fn configured_webhook_is_the_target() {
    let t = notifier("https://hooks.example/x").delivery_target(&sl("say \"hi\"\nnow")).unwrap();
    assert_eq!(t.webhook_url, "https://hooks.example/x");
    assert_eq!(t.channel, "#alerts");
    assert_eq!(t.payload, "{\"channel\":\"#alerts\",\"text\":\"say \\\"hi\\\"\\nnow\"}");
}

#[test]
fn delivery_results() {
    let ok = SlackNotifierContractState::delivery_result(Ok(()));
    assert!(ok.success);
    assert_eq!(ok.message_id, "MSG-0");
    assert_eq!(ok.error, "");
    let bad = SlackNotifierContractState::delivery_result(Err(sl("refused")));
    assert!(!bad.success);
    assert_eq!(bad.message_id, "");
    assert_eq!(bad.error, "refused");
}

#[test]
fn message_and_alert_texts() {
    assert_eq!(SlackNotifierContractState::message_text(&sl("ops"), &sl("hello")), "📢 *ops*\nhello");
    let t = notifier("").alert_text(&sl("SPOOFING"), &sl("HIGH"), &sl("RELIANCE"), &sl("TRADER-001"), &sl("layering"), 85);
    assert_eq!(
        t,
        "🔴 *HIGH Alert - SPOOFING*\n\n*Symbol:* RELIANCE\n*Entity:* TRADER-001\n*Risk Score:* 85/100\n*Description:* layering"
    );
}

#[test]
fn case_update_texts() {
    assert_eq!(
        SlackNotifierContractState::case_update_text(&sl("CASE-1"), &sl("ESCALATED"), &sl("sent up"), &sl("alice")),
        "⚠️ *Case Update: CASE-1*\n\n*Status:* ESCALATED\n*Assigned To:* alice\n*Update:* sent up"
    );
    assert!(SlackNotifierContractState::case_update_text(&sl("C"), &sl("OPEN"), &sl(""), &sl("")).starts_with("📂"));
    assert!(SlackNotifierContractState::case_update_text(&sl("C"), &sl("INVESTIGATING"), &sl(""), &sl("")).starts_with("🔍"));
    assert!(SlackNotifierContractState::case_update_text(&sl("C"), &sl("CLOSED"), &sl(""), &sl("")).starts_with("✅"));
    assert!(SlackNotifierContractState::case_update_text(&sl("C"), &sl("NEW"), &sl(""), &sl("")).starts_with("📋"));
}

#[test]
fn workflow_texts() {
    assert_eq!(
        SlackNotifierContractState::workflow_complete_text(&sl("W1"), &sl("SCAN"), &sl("ok"), 0),
        "✅ *Workflow Complete: W1*\n\n*Type:* SCAN\n*Alerts Generated:* 0\n*Summary:* ok"
    );
    assert!(SlackNotifierContractState::workflow_complete_text(&sl("W1"), &sl("SCAN"), &sl("ok"), 3).starts_with("🚨"));
}

#[test]
fn daily_summary() {
    assert_eq!(
        SlackNotifierContractState::daily_summary_text(&sl("2026-01-10"), 12, 3, 4, 1),
        "📊 *Daily Surveillance Summary - 2026-01-10*\n\n• Total Alerts: 12\n• Critical Alerts: 3\n• Open Cases: 4\n• New Cases Today: 1"
    );
}
