use sterngate::cascades::{overall_severity, CascadeAlert, CascadeId, CascadeReport, CascadeSeverity};

fn alert(sev: CascadeSeverity) -> CascadeAlert {
    CascadeAlert {
        id: CascadeId::TccLockupSlip,
        name: "TCC Slip".to_string(),
        severity: sev,
        root_cause_part: "Valve".to_string(),
        catastrophic_outcome: "Failure".to_string(),
        telemetry_evidence: "slip 80 rpm".to_string(),
        recommendation: "Service".to_string(),
        oem_part_numbers: vec!["A 1".to_string(), "A 2".to_string()],
        affected_chassis: vec![],
    }
}

#[test]
fn overall_severity_is_the_maximum() {
    assert_eq!(overall_severity(&vec![]), CascadeSeverity::Normal);
    let v = vec![alert(CascadeSeverity::Watchlist), alert(CascadeSeverity::ImminentDanger), alert(CascadeSeverity::Watchlist)];
    assert_eq!(overall_severity(&v), CascadeSeverity::ImminentDanger);
    assert_eq!(CascadeId::EslMotorLockout.as_str(), "esl_motor_lockout");
    assert_eq!(CascadeSeverity::Watchlist.as_str(), "Watchlist");
}

#[test]
fn markdown_of_empty_and_alerting_reports() {
    let empty = CascadeReport {
        timestamp: "T0".to_string(),
        overall_severity: CascadeSeverity::Normal,
        alerts: vec![],
        total_cascades_checked: 13,
    };
    assert_eq!(
        empty.to_markdown(),
        "# Mercedes-Benz 'Cascade of Death' Early Warning Report\n\n- **Scan Timestamp:** `T0`\n- **Overall Status:** ✅ ALL SYSTEMS HEALTHY\n- **Total Cascades Evaluated:** 13\n\nNo active cascade warnings or mechanical anomalies detected.\n"
    );
    let r = CascadeReport {
        timestamp: "T1".to_string(),
        overall_severity: CascadeSeverity::Watchlist,
        alerts: vec![alert(CascadeSeverity::Watchlist)],
        total_cascades_checked: 13,
    };
    let md = r.to_markdown();
    assert!(md.contains("## Active Cascade Warnings & Intervention Guide\n\n### ⚠️ TCC Slip (Watchlist)\n"));
    assert!(md.contains("- **OEM Part Numbers:** A 1, A 2\n"));
    assert!(!md.contains("Affected Models"));
    assert!(md.ends_with("- **Recommended Action:** Service\n- **OEM Part Numbers:** A 1, A 2\n\n"));
}
