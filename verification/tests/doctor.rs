use fleetops::discovery::ScanStats;
use fleetops::doctor::{render_report, set_insert, DoctorFacts};
use fleetops::platform::{PaneDiscoveryStats, PlatformStats};

#[test]
fn report_covers_clean_state() {
    let facts = DoctorFacts {
        scan: ScanStats { total_files: 36, parse_failed: 0, stale_dead: 20, live: 16, ..ScanStats::default() },
        versions: vec!["2.1.206".to_string()],
        sessions: vec![("fleetops".to_string(), true, true, true)],
        exact_panes: 1,
        wezterm: Ok(23),
        instances: 2,
        ..DoctorFacts::default()
    };
    let report = render_report(&facts);
    assert!(report.contains("36 total · 16 live · 20 stale-dead · 0 parse-failed"));
    assert!(report.contains("all known"));
    assert!(report.contains("2.1.206"));
    assert!(report.contains("pane identity: 1 of 1 sessions exact (WSLENV WEZTERM_PANE)"));
    assert!(report.contains("2 instances · 23 agent panes"));
    assert!(report.contains("✓ transcript · ✓ account · ✓ pane — fleetops"));
    assert!(!report.contains('⚠'));
}

#[test]
fn report_flags_every_drift_class() {
    let facts = DoctorFacts {
        scan: ScanStats { total_files: 3, parse_failed: 2, stale_dead: 0, live: 1, dir_unreadable: false },
        unknown_statuses: vec!["pondering".to_string()],
        sessions: vec![("mystery".to_string(), false, false, false)],
        wezterm: Err("wezterm.exe: timed out after 5s".to_string()),
        instance_error: Some("gui-sock-3428: timed out after 5s".to_string()),
        ..DoctorFacts::default()
    };
    let report = render_report(&facts);
    assert!(report.contains("parse failures"));
    assert!(report.contains("pondering"));
    assert!(report.contains("wezterm unreachable"));
    assert!(report.contains("instance degraded"), "partial pane list is a drift class");
    assert!(report.contains("✗ transcript · ✗ account · ✗ pane — mystery"));
}

#[test]
fn missing_proc_prints_a_wsl2_platform_hint() {
    let facts = DoctorFacts { proc_missing: true, ..DoctorFacts::default() };
    let report = render_report(&facts);
    assert!(report.contains("/proc not found"), "missing /proc must surface a platform hint");
}

#[test]
fn report_flags_platform_acquisition_drift() {
    let facts = DoctorFacts {
        platform: PlatformStats {
            date_parse_failed: 1,
            start_mismatch: 3,
            start_mismatch_near: 2,
            env_denied: 1,
            env_unavailable: 1,
            env_malformed: 0,
            fd1_denied: 2,
            identity_raced: 1,
        },
        ..DoctorFacts::default()
    };
    let report = render_report(&facts);
    assert!(report.contains("procStart date-parse failures: 1"));
    assert!(report.contains("start-identity mismatches: 3 (2 within 2s)"));
    assert!(report.contains("1 denied · 1 unavailable"));
    assert!(report.contains("fd-1 info denied for 2"));
    assert!(report.contains("PID-reuse races: 1"));
}

#[test]
fn unreadable_dir_is_flagged_not_an_empty_fleet() {
    let facts = DoctorFacts { scan: ScanStats { dir_unreadable: true, ..ScanStats::default() }, ..DoctorFacts::default() };
    let report = render_report(&facts);
    assert!(report.contains("sessions dir unreadable"));
}

#[test]
fn default_facts_render_the_exact_empty_report() {
    let report = render_report(&DoctorFacts::default());
    assert_eq!(
        report,
        "fleet doctor — read-only drift report\n\n\
session files: 0 total · 0 live · 0 stale-dead · 0 parse-failed\n\
native statuses: all known (busy/idle/shell/waiting)\n\
cc versions in live files: none\n\
pane identity: 0 of 0 sessions exact (WSLENV WEZTERM_PANE)\n  \
⚠ wezterm unreachable: not checked — jump lane degraded (A2)\n\
\nlive sessions (0):\n"
    );
}

#[test]
fn sets_render_as_debug_sets_and_versions_join() {
    let mut unknown = Vec::new();
    set_insert(&mut unknown, "zeta".to_string());
    set_insert(&mut unknown, "alpha \"q\"".to_string());
    set_insert(&mut unknown, "zeta".to_string());
    assert_eq!(unknown, vec!["alpha \"q\"".to_string(), "zeta".to_string()]);
    let facts = DoctorFacts {
        unknown_statuses: unknown,
        versions: vec!["1.0".to_string(), "2.0".to_string()],
        pane_stats: PaneDiscoveryStats { sockets_found: 3, sockets_stale: 1, sockets_foreign_uid: 2, instances_failed: 0 },
        ..DoctorFacts::default()
    };
    let report = render_report(&facts);
    assert!(report.contains("unknown native statuses: {\"alpha \\\"q\\\"\", \"zeta\"} — fold shows these as Unknown"));
    assert!(report.contains("cc versions in live files: 1.0, 2.0\n"));
    assert!(report.contains("sockets skipped: 1 stale (dead instance — would hang) · 2 foreign-uid"));
}
