//! Early-warning report for the known Mercedes-Benz cascading failure modes: the
//! identifiers, severities, alerts, the overall severity of a set of alerts, and the
//! Markdown rendering of a report.

use crate::text::{push_decimal, push_str};
use vstd::prelude::*;

verus! {

/// The known cascading failure modes.
#[derive(Debug, Clone, Copy, PartialEq, Eq, Hash)]
pub enum CascadeId {
    SbcAccumulatorExhaustion,
    CommonRailBlackDeath,
    TransmissionPilotBushingWicking,
    TccLockupSlip,
    DpfDifferentialDriftM55,
    CamshaftMagnetOilWicking,
    SuspensionCompressorBurnout,
    AbcPulsationDamperSurge,
    EslMotorLockout,
    M272BalanceShaftChainWear,
    ValeoRadiatorGlycolContamination,
    SamWaterIngressParasiticDrain,
    Om642OilCoolerValleyLeak,
}

/// Snake-case identifier of each cascade.
pub open spec fn cascade_key(c: CascadeId) -> Seq<char> {
    match c {
        CascadeId::SbcAccumulatorExhaustion => "sbc_accumulator_exhaustion"@,
        CascadeId::CommonRailBlackDeath => "common_rail_black_death"@,
        CascadeId::TransmissionPilotBushingWicking => "transmission_pilot_bushing_wicking"@,
        CascadeId::TccLockupSlip => "tcc_lockup_slip"@,
        CascadeId::DpfDifferentialDriftM55 => "dpf_differential_drift_m55"@,
        CascadeId::CamshaftMagnetOilWicking => "camshaft_magnet_oil_wicking"@,
        CascadeId::SuspensionCompressorBurnout => "suspension_compressor_burnout"@,
        CascadeId::AbcPulsationDamperSurge => "abc_pulsation_damper_surge"@,
        CascadeId::EslMotorLockout => "esl_motor_lockout"@,
        CascadeId::M272BalanceShaftChainWear => "m272_balance_shaft_chain_wear"@,
        CascadeId::ValeoRadiatorGlycolContamination => "valeo_radiator_glycol_contamination"@,
        CascadeId::SamWaterIngressParasiticDrain => "sam_water_ingress_parasitic_drain"@,
        CascadeId::Om642OilCoolerValleyLeak => "om642_oil_cooler_valley_leak"@,
    }
}

impl CascadeId {
    /// Snake-case identifier.
    pub fn as_str(&self) -> (r: &'static str)
        ensures
            r@ == cascade_key(*self),
    {
        match self {
            CascadeId::SbcAccumulatorExhaustion => "sbc_accumulator_exhaustion",
            CascadeId::CommonRailBlackDeath => "common_rail_black_death",
            CascadeId::TransmissionPilotBushingWicking => "transmission_pilot_bushing_wicking",
            CascadeId::TccLockupSlip => "tcc_lockup_slip",
            CascadeId::DpfDifferentialDriftM55 => "dpf_differential_drift_m55",
            CascadeId::CamshaftMagnetOilWicking => "camshaft_magnet_oil_wicking",
            CascadeId::SuspensionCompressorBurnout => "suspension_compressor_burnout",
            CascadeId::AbcPulsationDamperSurge => "abc_pulsation_damper_surge",
            CascadeId::EslMotorLockout => "esl_motor_lockout",
            CascadeId::M272BalanceShaftChainWear => "m272_balance_shaft_chain_wear",
            CascadeId::ValeoRadiatorGlycolContamination => "valeo_radiator_glycol_contamination",
            CascadeId::SamWaterIngressParasiticDrain => "sam_water_ingress_parasitic_drain",
            CascadeId::Om642OilCoolerValleyLeak => "om642_oil_cooler_valley_leak",
        }
    }
}

/// Risk classification of a cascade, from least to most severe.
#[derive(Debug, Clone, Copy, PartialEq, Eq, PartialOrd, Ord)]
pub enum CascadeSeverity {
    Normal,
    Watchlist,
    ImminentDanger,
}

/// Rank of a severity: 0, 1, 2 from least to most severe.
pub open spec fn severity_rank(s: CascadeSeverity) -> nat {
    match s {
        CascadeSeverity::Normal => 0,
        CascadeSeverity::Watchlist => 1,
        CascadeSeverity::ImminentDanger => 2,
    }
}

/// Name of each severity.
pub open spec fn severity_name(s: CascadeSeverity) -> Seq<char> {
    match s {
        CascadeSeverity::Normal => "Normal"@,
        CascadeSeverity::Watchlist => "Watchlist"@,
        CascadeSeverity::ImminentDanger => "ImminentDanger"@,
    }
}

impl CascadeSeverity {
    /// Name of the severity.
    pub fn as_str(&self) -> (r: &'static str)
        ensures
            r@ == severity_name(*self),
    {
        match self {
            CascadeSeverity::Normal => "Normal",
            CascadeSeverity::Watchlist => "Watchlist",
            CascadeSeverity::ImminentDanger => "ImminentDanger",
        }
    }

    /// Rank from least (0) to most (2) severe.
    pub fn rank(&self) -> (r: u8)
        ensures
            r == severity_rank(*self),
    {
        match self {
            CascadeSeverity::Normal => 0,
            CascadeSeverity::Watchlist => 1,
            CascadeSeverity::ImminentDanger => 2,
        }
    }
}

/// Alert for one evaluated cascade.
#[derive(Debug, Clone, PartialEq)]
pub struct CascadeAlert {
    pub id: CascadeId,
    pub name: String,
    pub severity: CascadeSeverity,
    pub root_cause_part: String,
    pub catastrophic_outcome: String,
    pub telemetry_evidence: String,
    pub recommendation: String,
    pub oem_part_numbers: Vec<String>,
    pub affected_chassis: Vec<String>,
}

/// Report over all checked cascades.
#[derive(Debug, Clone, PartialEq)]
pub struct CascadeReport {
    pub timestamp: String,
    pub overall_severity: CascadeSeverity,
    pub alerts: Vec<CascadeAlert>,
    pub total_cascades_checked: usize,
}

/// The most severe severity among the alerts, `Normal` when there are none.
pub open spec fn max_severity(alerts: Seq<CascadeAlert>) -> CascadeSeverity
    decreases alerts.len(),
{
    if alerts.len() == 0 {
        CascadeSeverity::Normal
    } else {
        let rest = max_severity(alerts.drop_last());
        if severity_rank(alerts.last().severity) >= severity_rank(rest) {
            alerts.last().severity
        } else {
            rest
        }
    }
}

/// The overall severity of a set of alerts: the most severe of them, or `Normal`.
pub fn overall_severity(alerts: &Vec<CascadeAlert>) -> (r: CascadeSeverity)
    ensures
        r == max_severity(alerts@),
        forall|i: int| 0 <= i < alerts@.len() ==> severity_rank(alerts@[i].severity)
            <= severity_rank(r),
        alerts@.len() == 0 ==> r == CascadeSeverity::Normal,
        alerts@.len() > 0 ==> exists|i: int| 0 <= i < alerts@.len() && alerts@[i].severity == r,
{
    let mut r = CascadeSeverity::Normal;
    let mut i: usize = 0;
    while i < alerts.len()
        invariant
            i <= alerts@.len(),
            r == max_severity(alerts@.take(i as int)),
            forall|k: int| 0 <= k < i ==> severity_rank(alerts@[k].severity) <= severity_rank(r),
            i == 0 ==> r == CascadeSeverity::Normal,
            i > 0 ==> exists|k: int| 0 <= k < i && alerts@[k].severity == r,
        decreases alerts@.len() - i,
    {
        proof {
            assert(alerts@.take(i + 1).drop_last() =~= alerts@.take(i as int));
        }
        let s = alerts[i].severity;
        if s.rank() >= r.rank() {
            r = s;
        }
        i = i + 1;
    }
    proof {
        assert(alerts@.take(i as int) =~= alerts@);
    }
    r
}

/// The items joined with `sep`.
pub open spec fn join_with(items: Seq<Seq<char>>, sep: Seq<char>) -> Seq<char>
    decreases items.len(),
{
    if items.len() == 0 {
        Seq::empty()
    } else if items.len() == 1 {
        items[0]
    } else {
        join_with(items.drop_last(), sep) + sep + items.last()
    }
}

/// The text of each string.
pub open spec fn texts(v: Seq<String>) -> Seq<Seq<char>> {
    v.map_values(|s: String| s@)
}

fn push_joined(md: &mut String, items: &Vec<String>, sep: &str)
    ensures
        final(md)@ == old(md)@ + join_with(texts(items@), sep@),
{
    let ghost start = md@;
    let mut i: usize = 0;
    while i < items.len()
        invariant
            i <= items@.len(),
            md@ == start + join_with(texts(items@.take(i as int)), sep@),
        decreases items@.len() - i,
    {
        proof {
            assert(texts(items@.take(i + 1)).drop_last() =~= texts(items@.take(i as int)));
            assert(texts(items@.take(i + 1)).last() == items@[i as int]@);
        }
        if i > 0 {
            push_str(md, sep);
        }
        push_str(md, items[i].as_str());
        proof {
            if i == 0 {
                assert(texts(items@.take(1)) =~= seq![items@[0]@]);
            }
            assert(md@ =~= start + join_with(texts(items@.take(i + 1)), sep@));
        }
        i = i + 1;
    }
    proof {
        assert(items@.take(i as int) =~= items@);
    }
}

/// Overall status line text of each severity.
pub open spec fn status_text(s: CascadeSeverity) -> Seq<char> {
    match s {
        CascadeSeverity::Normal => "✅ ALL SYSTEMS HEALTHY"@,
        CascadeSeverity::Watchlist => "⚠️ PREVENTIVE WATCHLIST ITEMS DETECTED"@,
        CascadeSeverity::ImminentDanger => "🚨 CRITICAL: IMMINENT CASCADE FAILURE DETECTED"@,
    }
}

/// Icon of each severity.
pub open spec fn severity_icon(s: CascadeSeverity) -> Seq<char> {
    match s {
        CascadeSeverity::Normal => "✅"@,
        CascadeSeverity::Watchlist => "⚠️"@,
        CascadeSeverity::ImminentDanger => "🚨"@,
    }
}

/// Heading line of an alert.
pub open spec fn alert_heading(a: CascadeAlert) -> Seq<char> {
    "### "@ + severity_icon(a.severity) + " "@ + a.name@ + " ("@ + severity_name(a.severity)
        + ")\n"@
}

/// Evidence, root trigger, outcome and action lines of an alert.
pub open spec fn alert_details(a: CascadeAlert) -> Seq<char> {
    "- **Telemetry Evidence:** "@ + a.telemetry_evidence@ + "\n"@
        + "- **Inexpensive Root Trigger:** "@ + a.root_cause_part@ + "\n"@
        + "- **Catastrophic Outcome if Ignored:** "@ + a.catastrophic_outcome@ + "\n"@
        + "- **Recommended Action:** "@ + a.recommendation@ + "\n"@
}

/// A labelled, comma-separated list line, or nothing for an empty list.
pub open spec fn list_line(label: Seq<char>, items: Seq<String>) -> Seq<char> {
    if items.len() > 0 {
        label + join_with(texts(items), ", "@) + "\n"@
    } else {
        Seq::empty()
    }
}

/// Markdown section of one alert.
pub open spec fn alert_markdown(a: CascadeAlert) -> Seq<char> {
    alert_heading(a) + alert_details(a) + list_line("- **OEM Part Numbers:** "@, a.oem_part_numbers@)
        + list_line("- **Affected Models:** "@, a.affected_chassis@) + "\n"@
}

/// Markdown sections of the alerts, in order.
pub open spec fn alerts_markdown(alerts: Seq<CascadeAlert>) -> Seq<char>
    decreases alerts.len(),
{
    if alerts.len() == 0 {
        Seq::empty()
    } else {
        alerts_markdown(alerts.drop_last()) + alert_markdown(alerts.last())
    }
}

/// The Markdown rendering of a report.
pub open spec fn report_markdown(r: CascadeReport) -> Seq<char> {
    let head = "# Mercedes-Benz 'Cascade of Death' Early Warning Report\n\n"@
        + "- **Scan Timestamp:** `"@ + r.timestamp@ + "`\n"@ + "- **Overall Status:** "@
        + status_text(r.overall_severity) + "\n"@ + "- **Total Cascades Evaluated:** "@
        + crate::text::decimal(r.total_cascades_checked as nat) + "\n\n"@;
    if r.alerts@.len() == 0 {
        head + "No active cascade warnings or mechanical anomalies detected.\n"@
    } else {
        head + "## Active Cascade Warnings & Intervention Guide\n\n"@ + alerts_markdown(r.alerts@)
    }
}

fn push_heading(md: &mut String, a: &CascadeAlert)
    ensures
        final(md)@ == old(md)@ + alert_heading(*a),
{
    push_str(md, "### ");
    let icon = match a.severity {
        CascadeSeverity::Normal => "✅",
        CascadeSeverity::Watchlist => "⚠️",
        CascadeSeverity::ImminentDanger => "🚨",
    };
    push_str(md, icon);
    push_str(md, " ");
    push_str(md, a.name.as_str());
    push_str(md, " (");
    push_str(md, a.severity.as_str());
    push_str(md, ")\n");
    proof {
        assert(md@ =~= old(md)@ + alert_heading(*a));
    }
}

fn push_line(md: &mut String, label: &str, value: &String)
    ensures
        final(md)@ == old(md)@ + label@ + value@ + "\n"@,
{
    push_str(md, label);
    push_str(md, value.as_str());
    push_str(md, "\n");
}

fn push_details(md: &mut String, a: &CascadeAlert)
    ensures
        final(md)@ == old(md)@ + alert_details(*a),
{
    push_line(md, "- **Telemetry Evidence:** ", &a.telemetry_evidence);
    push_line(md, "- **Inexpensive Root Trigger:** ", &a.root_cause_part);
    push_line(md, "- **Catastrophic Outcome if Ignored:** ", &a.catastrophic_outcome);
    push_line(md, "- **Recommended Action:** ", &a.recommendation);
    proof {
        assert(md@ =~= old(md)@ + alert_details(*a));
    }
}

fn push_list_line(md: &mut String, label: &str, items: &Vec<String>)
    ensures
        final(md)@ == old(md)@ + list_line(label@, items@),
{
    if items.len() > 0 {
        push_str(md, label);
        push_joined(md, items, ", ");
        push_str(md, "\n");
        proof {
            assert(md@ =~= old(md)@ + list_line(label@, items@));
        }
    } else {
        proof {
            assert(md@ =~= old(md)@ + list_line(label@, items@));
        }
    }
}

fn push_alert(md: &mut String, a: &CascadeAlert)
    ensures
        final(md)@ == old(md)@ + alert_markdown(*a),
{
    push_heading(md, a);
    push_details(md, a);
    push_list_line(md, "- **OEM Part Numbers:** ", &a.oem_part_numbers);
    push_list_line(md, "- **Affected Models:** ", &a.affected_chassis);
    push_str(md, "\n");
    proof {
        assert(md@ =~= old(md)@ + alert_markdown(*a));
    }
}

impl CascadeReport {
    /// The report as human-readable Markdown.
    pub fn to_markdown(&self) -> (md: String)
        ensures
            md@ == report_markdown(*self),
    {
        let mut md = String::new();
        push_str(&mut md, "# Mercedes-Benz 'Cascade of Death' Early Warning Report\n\n");
        push_str(&mut md, "- **Scan Timestamp:** `");
        push_str(&mut md, self.timestamp.as_str());
        push_str(&mut md, "`\n");
        push_str(&mut md, "- **Overall Status:** ");
        let status = match self.overall_severity {
            CascadeSeverity::Normal => "✅ ALL SYSTEMS HEALTHY",
            CascadeSeverity::Watchlist => "⚠️ PREVENTIVE WATCHLIST ITEMS DETECTED",
            CascadeSeverity::ImminentDanger => "🚨 CRITICAL: IMMINENT CASCADE FAILURE DETECTED",
        };
        push_str(&mut md, status);
        push_str(&mut md, "\n");
        push_str(&mut md, "- **Total Cascades Evaluated:** ");
        push_decimal(&mut md, self.total_cascades_checked as u64);
        push_str(&mut md, "\n\n");
        let ghost head = md@;
        if self.alerts.len() == 0 {
            push_str(&mut md, "No active cascade warnings or mechanical anomalies detected.\n");
            proof {
                assert(md@ =~= report_markdown(*self));
            }
            return md;
        }
        push_str(&mut md, "## Active Cascade Warnings & Intervention Guide\n\n");
        let ghost body_start = md@;
        let mut i: usize = 0;
        while i < self.alerts.len()
            invariant
                i <= self.alerts@.len(),
                md@ == body_start + alerts_markdown(self.alerts@.take(i as int)),
            decreases self.alerts@.len() - i,
        {
            proof {
                assert(self.alerts@.take(i + 1).drop_last() =~= self.alerts@.take(i as int));
            }
            push_alert(&mut md, &self.alerts[i]);
            proof {
                assert(md@ =~= body_start + alerts_markdown(self.alerts@.take(i + 1)));
            }
            i = i + 1;
        }
        proof {
            assert(self.alerts@.take(i as int) =~= self.alerts@);
            assert(md@ =~= report_markdown(*self));
        }
        md
    }
}

} // verus!
