//! Slack notifications: the texts of messages, alerts, case updates,
//! workflow completions and daily summaries, and the result recorded for a
//! delivery through the configured webhook.
use vstd::prelude::*;
use crate::json::{field_views, json_object_of, json_object_text};
use crate::text::{decimal, push_decimal, push_text, text, text_is};

verus! {

// ===== Configuration and data =====

#[derive(Debug, Clone, PartialEq, Eq)]
pub struct SlackNotifierConfig {
    pub webhook_url: String,
    pub default_channel: String,
}

#[derive(Debug, Clone, PartialEq, Eq)]
pub struct SlackMessage {
    pub channel: String,
    pub text: String,
    pub username: String,
    pub icon_emoji: String,
}

#[derive(Debug, Clone, PartialEq, Eq)]
pub struct AlertNotification {
    pub alert_id: String,
    pub alert_type: String,
    pub severity: String,
    pub symbol: String,
    pub entity_id: String,
    pub description: String,
    pub risk_score: u32,
}

#[derive(Debug, Clone, PartialEq, Eq)]
pub struct NotificationResult {
    pub success: bool,
    pub message_id: String,
    pub timestamp: u64,
    pub error: String,
}

/// A notification ready to post: the webhook, the channel, and the JSON
/// payload that carries the text and the channel.
#[derive(Debug, Clone, PartialEq, Eq)]
pub struct SlackTarget {
    pub webhook_url: String,
    pub channel: String,
    pub payload: String,
}

/// The state of the notifier.
#[derive(Debug)]
pub struct SlackNotifierContractState {
    config: SlackNotifierConfig,
}

// ===== Specifications =====

/// The emoji that marks a severity.
pub open spec fn severity_emoji(severity: Seq<char>) -> Seq<char> {
    if severity == "CRITICAL"@ {
        "🚨"@
    } else if severity == "HIGH"@ {
        "🔴"@
    } else if severity == "MEDIUM"@ {
        "🟡"@
    } else if severity == "LOW"@ {
        "🟢"@
    } else {
        "ℹ️"@
    }
}

/// The emoji that marks a case status.
pub open spec fn status_emoji(status: Seq<char>) -> Seq<char> {
    if status == "OPEN"@ {
        "📂"@
    } else if status == "INVESTIGATING"@ {
        "🔍"@
    } else if status == "ESCALATED"@ {
        "⚠️"@
    } else if status == "CLOSED"@ {
        "✅"@
    } else {
        "📋"@
    }
}

pub open spec fn message_text(channel: Seq<char>, message: Seq<char>) -> Seq<char> {
    "📢 *"@ + channel + "*\n"@ + message
}

pub open spec fn alert_text(
    alert_type: Seq<char>,
    severity: Seq<char>,
    symbol: Seq<char>,
    entity_id: Seq<char>,
    description: Seq<char>,
    risk_score: u32,
) -> Seq<char> {
    severity_emoji(severity) + " *"@ + severity + " Alert - "@ + alert_type + "*\n\n*Symbol:* "@ + symbol
        + "\n*Entity:* "@ + entity_id + "\n*Risk Score:* "@ + decimal(risk_score as nat) + "/100\n*Description:* "@
        + description
}

pub open spec fn case_update_text(case_id: Seq<char>, status: Seq<char>, update: Seq<char>, assigned_to: Seq<char>) -> Seq<char> {
    status_emoji(status) + " *Case Update: "@ + case_id + "*\n\n*Status:* "@ + status + "\n*Assigned To:* "@
        + assigned_to + "\n*Update:* "@ + update
}

pub open spec fn workflow_complete_text(workflow_id: Seq<char>, workflow_type: Seq<char>, summary: Seq<char>, alert_count: u32) -> Seq<char> {
    (if alert_count > 0 { "🚨"@ } else { "✅"@ }) + " *Workflow Complete: "@ + workflow_id + "*\n\n*Type:* "@
        + workflow_type + "\n*Alerts Generated:* "@ + decimal(alert_count as nat) + "\n*Summary:* "@ + summary
}

pub open spec fn daily_summary_text(date: Seq<char>, total: u32, critical: u32, open: u32, new: u32) -> Seq<char> {
    "📊 *Daily Surveillance Summary - "@ + date + "*\n\n• Total Alerts: "@ + decimal(total as nat)
        + "\n• Critical Alerts: "@ + decimal(critical as nat) + "\n• Open Cases: "@ + decimal(open as nat)
        + "\n• New Cases Today: "@ + decimal(new as nat)
}

// ===== Operations =====

fn failure(error: String) -> (r: NotificationResult)
    ensures
        !r.success,
        r.message_id@ == ""@,
        r.timestamp == 0,
        r.error == error,
{
    NotificationResult { success: false, message_id: text(""), timestamp: 0, error }
}

impl SlackNotifierContractState {
    pub closed spec fn configuration(self) -> SlackNotifierConfig {
        self.config
    }

    /// The notifier with its configuration.
    pub fn new(config: SlackNotifierConfig) -> (r: Result<SlackNotifierContractState, String>)
        ensures
            r is Ok,
            r->Ok_0.configuration() == config,
    {
        Ok(SlackNotifierContractState { config })
    }

    /// The emoji that marks a severity.
    pub fn get_severity_emoji(&self, severity: &String) -> (r: &'static str)
        ensures
            r@ == severity_emoji(severity@),
    {
        if text_is(severity, "CRITICAL") {
            "🚨"
        } else if text_is(severity, "HIGH") {
            "🔴"
        } else if text_is(severity, "MEDIUM") {
            "🟡"
        } else if text_is(severity, "LOW") {
            "🟢"
        } else {
            "ℹ️"
        }
    }

    /// Where and what to deliver for a message text: the webhook, the default
    /// channel and the JSON payload of the text and the channel, or the failed
    /// result recorded when no webhook is configured.
    pub fn delivery_target(&self, message: &String) -> (r: Result<SlackTarget, NotificationResult>)
        ensures
            self.configuration().webhook_url@.len() == 0 ==> (r matches Err(n) && !n.success
                && n.message_id@ == ""@ && n.timestamp == 0 && n.error@ == "Webhook URL not configured"@),
            self.configuration().webhook_url@.len() > 0 ==> (r matches Ok(t)
                && t.webhook_url == self.configuration().webhook_url
                && t.channel == self.configuration().default_channel
                && t.payload@ == json_object_of(seq![("text"@, message@), ("channel"@, self.configuration().default_channel@)])),
    {
        if self.config.webhook_url.as_str().is_empty() {
            Err(failure(text("Webhook URL not configured")))
        } else {
            let fields = vec![(text("text"), message.clone()), (text("channel"), self.config.default_channel.clone())];
            assert(field_views(fields@) =~= seq![("text"@, message@), ("channel"@, self.config.default_channel@)]);
            let payload = json_object_text(&fields);
            Ok(SlackTarget {
                webhook_url: self.config.webhook_url.clone(),
                channel: self.config.default_channel.clone(),
                payload,
            })
        }
    }

    /// The result recorded for a delivery: success with message id `MSG-0`, or
    /// failure carrying the error's text.
    pub fn delivery_result(outcome: Result<(), String>) -> (r: NotificationResult)
        ensures
            match outcome {
                Ok(()) => r.success && r.message_id@ == "MSG-"@ + decimal(0) && r.timestamp == 0 && r.error@ == ""@,
                Err(e) => !r.success && r.message_id@ == ""@ && r.timestamp == 0 && r.error == e,
            },
    {
        match outcome {
            Ok(()) => {
                let mut id = text("MSG-");
                push_decimal(&mut id, 0);
                NotificationResult { success: true, message_id: id, timestamp: 0, error: text("") }
            },
            Err(e) => failure(e),
        }
    }

    /// The text of a plain message to a channel.
    pub fn message_text(channel: &String, message: &String) -> (r: String)
        ensures
            r@ == message_text(channel@, message@),
    {
        let mut t = text("📢 *");
        push_text(&mut t, channel);
        t.append("*\n");
        push_text(&mut t, message);
        t
    }

    /// The text of an alert notification.
    pub fn alert_text(&self, alert_type: &String, severity: &String, symbol: &String, entity_id: &String,
        description: &String, risk_score: u32) -> (r: String)
        ensures
            r@ == alert_text(alert_type@, severity@, symbol@, entity_id@, description@, risk_score),
    {
        let mut t = text(self.get_severity_emoji(severity));
        t.append(" *");
        push_text(&mut t, severity);
        t.append(" Alert - ");
        push_text(&mut t, alert_type);
        t.append("*\n\n*Symbol:* ");
        push_text(&mut t, symbol);
        t.append("\n*Entity:* ");
        push_text(&mut t, entity_id);
        t.append("\n*Risk Score:* ");
        push_decimal(&mut t, risk_score as u64);
        t.append("/100\n*Description:* ");
        push_text(&mut t, description);
        t
    }

    /// The text of a case update.
    pub fn case_update_text(case_id: &String, status: &String, update_message: &String, assigned_to: &String) -> (r: String)
        ensures
            r@ == case_update_text(case_id@, status@, update_message@, assigned_to@),
    {
        let emoji = if text_is(status, "OPEN") {
            "📂"
        } else if text_is(status, "INVESTIGATING") {
            "🔍"
        } else if text_is(status, "ESCALATED") {
            "⚠️"
        } else if text_is(status, "CLOSED") {
            "✅"
        } else {
            "📋"
        };
        let mut t = text(emoji);
        t.append(" *Case Update: ");
        push_text(&mut t, case_id);
        t.append("*\n\n*Status:* ");
        push_text(&mut t, status);
        t.append("\n*Assigned To:* ");
        push_text(&mut t, assigned_to);
        t.append("\n*Update:* ");
        push_text(&mut t, update_message);
        t
    }

    /// The text of a workflow completion.
    pub fn workflow_complete_text(workflow_id: &String, workflow_type: &String, result_summary: &String, alert_count: u32) -> (r: String)
        ensures
            r@ == workflow_complete_text(workflow_id@, workflow_type@, result_summary@, alert_count),
    {
        let mut t = if alert_count > 0 { text("🚨") } else { text("✅") };
        t.append(" *Workflow Complete: ");
        push_text(&mut t, workflow_id);
        t.append("*\n\n*Type:* ");
        push_text(&mut t, workflow_type);
        t.append("\n*Alerts Generated:* ");
        push_decimal(&mut t, alert_count as u64);
        t.append("\n*Summary:* ");
        push_text(&mut t, result_summary);
        t
    }

    /// The text of the daily summary.
    pub fn daily_summary_text(date: &String, total_alerts: u32, critical_alerts: u32, open_cases: u32, new_cases: u32) -> (r: String)
        ensures
            r@ == daily_summary_text(date@, total_alerts, critical_alerts, open_cases, new_cases),
    {
        let mut t = text("📊 *Daily Surveillance Summary - ");
        push_text(&mut t, date);
        t.append("*\n\n• Total Alerts: ");
        push_decimal(&mut t, total_alerts as u64);
        t.append("\n• Critical Alerts: ");
        push_decimal(&mut t, critical_alerts as u64);
        t.append("\n• Open Cases: ");
        push_decimal(&mut t, open_cases as u64);
        t.append("\n• New Cases Today: ");
        push_decimal(&mut t, new_cases as u64);
        t
    }
}

} // verus!
