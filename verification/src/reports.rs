//! Regulatory reports: suspicious transaction reports, periodic surveillance
//! reports built from the dashboard's statistics, compliance scorecards, and
//! the GSM, ESM, submission and investigation report records.
use vstd::prelude::*;
use crate::json::{field_views, json_object_of, json_object_text};
use crate::text::{contains_seq, contains_str, decimal, push_decimal, push_text, text};

verus! {

// ===== Configuration and data =====

#[derive(Debug, Clone, PartialEq, Eq)]
pub struct RegulatoryReportsConfig {
    pub report_storage_path: String,
    pub sebi_api_endpoint: String,
    pub dashboard_contract_id: String,
    pub case_management_contract_id: String,
}

#[derive(Debug, Clone, PartialEq, Eq)]
pub struct STRReport {
    pub str_id: String,
    pub report_date: String,
    pub suspicious_entity_id: String,
    pub suspicious_entity_name: String,
    pub suspicious_activity_type: String,
    pub transaction_details: String,
    pub total_value: String,
    pub suspicion_reason: String,
    pub investigation_summary: String,
    pub recommendation: String,
    pub generated_at: u64,
}

#[derive(Debug, Clone, PartialEq, Eq)]
pub struct MarketSurveillanceReport {
    pub report_id: String,
    pub report_period: String,
    pub total_alerts: u32,
    pub critical_alerts: u32,
    pub investigations_opened: u32,
    pub investigations_closed: u32,
    pub manipulation_cases: u32,
    pub insider_trading_cases: u32,
    pub enforcement_actions: u32,
    pub summary: String,
}

#[derive(Debug, Clone, PartialEq, Eq)]
pub struct ComplianceScorecard {
    pub entity_id: String,
    pub entity_name: String,
    pub reporting_period: String,
    pub overall_score: u32,
    pub kyc_compliance: u32,
    pub aml_compliance: u32,
    pub surveillance_compliance: u32,
    pub reporting_compliance: u32,
    pub violations_count: u32,
    pub last_updated: u64,
}

#[derive(Debug, Clone, PartialEq, Eq)]
pub struct ReportGenerationResult {
    pub report_id: String,
    pub report_type: String,
    pub file_path: String,
    pub generated_at: u64,
    pub success: bool,
    pub error: String,
}

/// The statistics the dashboard answers with.
#[derive(Debug, Clone, PartialEq, Eq)]
pub struct SurveillanceStats {
    pub total_alerts: u32,
    pub critical_alerts: u32,
    pub open_cases: u32,
    pub resolved_cases: u32,
}

/// Where the statistics of a surveillance report come from.
#[derive(Debug, Clone, PartialEq, Eq)]
pub enum StatsSource {
    /// Ask the dashboard contract: call `method` with the JSON `args`.
    Dashboard { contract_id: String, method: String, args: String },
    /// The dashboard is not configured: use these demonstration figures.
    Fallback(SurveillanceStats),
}

/// The state of the regulatory reports service.
#[derive(Debug)]
pub struct RegulatoryReportsContractState {
    config: RegulatoryReportsConfig,
}

// ===== Specifications =====

/// A dashboard id still holding the configuration placeholder.
pub open spec fn is_placeholder(id: Seq<char>) -> bool {
    contains_seq(id, "<PASTE"@)
}

pub open spec fn path_in(storage: Seq<char>, name: Seq<char>) -> Seq<char> {
    storage + "/"@ + name
}

// ===== Operations =====

impl RegulatoryReportsContractState {
    pub closed spec fn configuration(self) -> RegulatoryReportsConfig {
        self.config
    }

    /// The service with its configuration.
    pub fn new(config: RegulatoryReportsConfig) -> (r: Result<RegulatoryReportsContractState, String>)
        ensures
            r is Ok,
            r->Ok_0.configuration() == config,
    {
        Ok(RegulatoryReportsContractState { config })
    }

    /// A suspicious transaction report for a case and an entity.
    pub fn generate_str(&self, case_id: String, entity_id: String, suspicious_activity_type: String,
        transaction_details: String, total_value: String, suspicion_reason: String) -> (r: Result<STRReport, String>)
        ensures
            r is Ok,
            r->Ok_0.str_id@ == "STR-"@ + case_id@ + "-"@ + entity_id@,
            r->Ok_0.report_date@ == "2026-01-10"@,
            r->Ok_0.suspicious_entity_id == entity_id,
            r->Ok_0.suspicious_entity_name@ == "Entity "@ + entity_id@,
            r->Ok_0.suspicious_activity_type == suspicious_activity_type,
            r->Ok_0.transaction_details == transaction_details,
            r->Ok_0.total_value == total_value,
            r->Ok_0.suspicion_reason == suspicion_reason,
            r->Ok_0.investigation_summary@ == "Investigation based on case "@ + case_id@,
            r->Ok_0.recommendation@ == "Submit to FIU for further action"@,
            r->Ok_0.generated_at == 0,
    {
        let mut str_id = text("STR-");
        push_text(&mut str_id, &case_id);
        str_id.append("-");
        push_text(&mut str_id, &entity_id);
        let mut name = text("Entity ");
        push_text(&mut name, &entity_id);
        let mut summary = text("Investigation based on case ");
        push_text(&mut summary, &case_id);
        Ok(STRReport {
            str_id,
            report_date: text("2026-01-10"),
            suspicious_entity_id: entity_id,
            suspicious_entity_name: name,
            suspicious_activity_type,
            transaction_details,
            total_value,
            suspicion_reason,
            investigation_summary: summary,
            recommendation: text("Submit to FIU for further action"),
            generated_at: 0,
        })
    }

    /// Where a surveillance report's statistics come from: the dashboard's
    /// `get_stats` for the day, unless its id is still the placeholder.
    pub fn stats_source(&self) -> (r: StatsSource)
        ensures
            !is_placeholder(self.configuration().dashboard_contract_id@) ==> (r matches StatsSource::Dashboard { contract_id, method, args }
                && contract_id == self.configuration().dashboard_contract_id && method@ == "get_stats"@
                && args@ == json_object_of(seq![("period"@, "day"@)])),
            is_placeholder(self.configuration().dashboard_contract_id@) ==> (r matches StatsSource::Fallback(s)
                && s.total_alerts == 15 && s.critical_alerts == 2 && s.open_cases == 5 && s.resolved_cases == 3),
    {
        if !contains_str(&self.config.dashboard_contract_id, "<PASTE") {
            let fields = vec![(text("period"), text("day"))];
            assert(field_views(fields@) =~= seq![("period"@, "day"@)]);
            StatsSource::Dashboard {
                contract_id: self.config.dashboard_contract_id.clone(),
                method: text("get_stats"),
                args: json_object_text(&fields),
            }
        } else {
            StatsSource::Fallback(SurveillanceStats { total_alerts: 15, critical_alerts: 2, open_cases: 5, resolved_cases: 3 })
        }
    }

    /// A periodic surveillance report from the statistics obtained, or an
    /// error that names why they could not be fetched.
    pub fn surveillance_report_from(from_date: String, to_date: String, report_type: String, stats: Result<SurveillanceStats, String>)
        -> (r: Result<MarketSurveillanceReport, String>)
        ensures
            match stats {
                Ok(s) => r matches Ok(m)
                    && m.report_id@ == "MSR-"@ + report_type@ + "-"@ + from_date@
                    && m.report_period@ == from_date@ + " to "@ + to_date@
                    && m.total_alerts == s.total_alerts
                    && m.critical_alerts == s.critical_alerts
                    && m.investigations_opened == s.open_cases
                    && m.investigations_closed == s.resolved_cases
                    && m.manipulation_cases == 3
                    && m.insider_trading_cases == 2
                    && m.enforcement_actions == 1
                    && m.summary@ == report_type@ + " surveillance report generated with live data from dashboard"@,
                Err(e) => r is Err && r->Err_0@ == "Failed to fetch dashboard stats: "@ + e@,
            },
    {
        match stats {
            Ok(s) => {
                let mut report_id = text("MSR-");
                push_text(&mut report_id, &report_type);
                report_id.append("-");
                push_text(&mut report_id, &from_date);
                let mut period = from_date.clone();
                period.append(" to ");
                push_text(&mut period, &to_date);
                let mut summary = report_type.clone();
                summary.append(" surveillance report generated with live data from dashboard");
                Ok(MarketSurveillanceReport {
                    report_id,
                    report_period: period,
                    total_alerts: s.total_alerts,
                    critical_alerts: s.critical_alerts,
                    investigations_opened: s.open_cases,
                    investigations_closed: s.resolved_cases,
                    manipulation_cases: 3,
                    insider_trading_cases: 2,
                    enforcement_actions: 1,
                    summary,
                })
            },
            Err(e) => {
                let mut msg = text("Failed to fetch dashboard stats: ");
                push_text(&mut msg, &e);
                Err(msg)
            },
        }
    }

    /// A compliance scorecard for an entity and period.
    pub fn generate_compliance_scorecard(&self, entity_id: String, period: String, year: u32) -> (r: Result<ComplianceScorecard, String>)
        ensures
            r is Ok,
            r->Ok_0.entity_id == entity_id,
            r->Ok_0.entity_name@ == "Entity "@ + entity_id@,
            r->Ok_0.reporting_period@ == period@ + " "@ + decimal(year as nat),
            r->Ok_0.overall_score == 85,
            r->Ok_0.kyc_compliance == 90,
            r->Ok_0.aml_compliance == 82,
            r->Ok_0.surveillance_compliance == 88,
            r->Ok_0.reporting_compliance == 80,
            r->Ok_0.violations_count == 2,
            r->Ok_0.last_updated == 0,
    {
        let mut name = text("Entity ");
        push_text(&mut name, &entity_id);
        let mut reporting = period.clone();
        reporting.append(" ");
        push_decimal(&mut reporting, year as u64);
        Ok(ComplianceScorecard {
            entity_id,
            entity_name: name,
            reporting_period: reporting,
            overall_score: 85,
            kyc_compliance: 90,
            aml_compliance: 82,
            surveillance_compliance: 88,
            reporting_compliance: 80,
            violations_count: 2,
            last_updated: 0,
        })
    }

    /// The Graded Surveillance Measure report for a date.
    pub fn generate_gsm_report(&self, report_date: String) -> (r: Result<ReportGenerationResult, String>)
        ensures
            r is Ok,
            r->Ok_0.report_id@ == "GSM-"@ + report_date@,
            r->Ok_0.report_type@ == "GSM"@,
            r->Ok_0.file_path@ == path_in(self.configuration().report_storage_path@, "gsm_"@ + report_date@ + ".pdf"@),
            r->Ok_0.generated_at == 0,
            r->Ok_0.success,
            r->Ok_0.error@ == ""@,
    {
        let mut id = text("GSM-");
        push_text(&mut id, &report_date);
        let mut path = self.config.report_storage_path.clone();
        path.append("/");
        path.append("gsm_");
        push_text(&mut path, &report_date);
        path.append(".pdf");
        Ok(ReportGenerationResult {
            report_id: id,
            report_type: text("GSM"),
            file_path: path,
            generated_at: 0,
            success: true,
            error: text(""),
        })
    }

    /// The Enhanced Surveillance Measure report for a date.
    pub fn generate_esm_report(&self, report_date: String) -> (r: Result<ReportGenerationResult, String>)
        ensures
            r is Ok,
            r->Ok_0.report_id@ == "ESM-"@ + report_date@,
            r->Ok_0.report_type@ == "ESM"@,
            r->Ok_0.file_path@ == path_in(self.configuration().report_storage_path@, "esm_"@ + report_date@ + ".pdf"@),
            r->Ok_0.generated_at == 0,
            r->Ok_0.success,
            r->Ok_0.error@ == ""@,
    {
        let mut id = text("ESM-");
        push_text(&mut id, &report_date);
        let mut path = self.config.report_storage_path.clone();
        path.append("/");
        path.append("esm_");
        push_text(&mut path, &report_date);
        path.append(".pdf");
        Ok(ReportGenerationResult {
            report_id: id,
            report_type: text("ESM"),
            file_path: path,
            generated_at: 0,
            success: true,
            error: text(""),
        })
    }

    /// The pending suspicious transaction reports: none are kept.
    pub fn get_pending_strs(&self, limit: u32) -> (r: Result<Vec<STRReport>, String>)
        ensures
            r is Ok,
            r->Ok_0@.len() == 0,
    {
        let _ = limit;
        Ok(Vec::new())
    }

    /// The record of submitting a suspicious transaction report.
    pub fn submit_str(&self, str_id: String) -> (r: Result<ReportGenerationResult, String>)
        ensures
            r is Ok,
            r->Ok_0.report_id == str_id,
            r->Ok_0.report_type@ == "STR_SUBMISSION"@,
            r->Ok_0.file_path@ == ""@,
            r->Ok_0.generated_at == 0,
            r->Ok_0.success,
            r->Ok_0.error@ == ""@,
    {
        Ok(ReportGenerationResult {
            report_id: str_id,
            report_type: text("STR_SUBMISSION"),
            file_path: text(""),
            generated_at: 0,
            success: true,
            error: text(""),
        })
    }

    /// An ad-hoc investigation report for a case, with or without evidence.
    pub fn generate_investigation_report(&self, case_id: String, include_evidence: bool) -> (r: Result<ReportGenerationResult, String>)
        ensures
            r is Ok,
            r->Ok_0.report_id@ == "INV-"@ + case_id@,
            r->Ok_0.report_type@ == "INVESTIGATION"@,
            r->Ok_0.file_path@ == path_in(self.configuration().report_storage_path@,
                "investigation_"@ + case_id@ + (if include_evidence { "_with_evidence"@ } else { ""@ }) + ".pdf"@),
            r->Ok_0.generated_at == 0,
            r->Ok_0.success,
            r->Ok_0.error@ == ""@,
    {
        let mut id = text("INV-");
        push_text(&mut id, &case_id);
        let suffix = if include_evidence { text("_with_evidence") } else { text("") };
        let mut path = self.config.report_storage_path.clone();
        path.append("/");
        path.append("investigation_");
        push_text(&mut path, &case_id);
        push_text(&mut path, &suffix);
        path.append(".pdf");
        Ok(ReportGenerationResult {
            report_id: id,
            report_type: text("INVESTIGATION"),
            file_path: path,
            generated_at: 0,
            success: true,
            error: text(""),
        })
    }
}

} // verus!
