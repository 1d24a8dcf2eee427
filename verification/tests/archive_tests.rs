use evtx_archiver::archive::{
    archive_event_logs, archive_file_name, archive_init, verify_archive_contents, ArchiveAction,
    ArchiveEvent, ArchiveState,
};

#[test]
fn archive_name_substitutes_colons() {
    assert_eq!(
        archive_file_name("2024-01-02T03:04:05Z"),
        "event_logs_2024-01-02T03_04_05Z.tar.xz"
    );
}

#[test]
fn archive_name_without_colons_is_kept() {
    assert_eq!(
        archive_file_name("2024-01-02T03_04_05Z"),
        "event_logs_2024-01-02T03_04_05Z.tar.xz"
    );
}

#[test]
fn verify_reports_exactly_the_missing_candidate() {
    let originals = vec![
        "/in/a.evtx".to_string(),
        "/in/b.evtx".to_string(),
        "/in/c.evtx".to_string(),
    ];
    let entries = vec!["a.evtx".to_string(), "c.evtx".to_string()];
    let missing = verify_archive_contents(&originals, &entries);
    assert_eq!(missing, vec!["/in/b.evtx".to_string()]);
}

#[test]
fn verify_compares_base_names_not_full_paths() {
    let originals = vec!["/deep/dir/a.evtx".to_string()];
    let entries = vec!["a.evtx".to_string()];
    assert!(verify_archive_contents(&originals, &entries).is_empty());
}

#[test]
fn verification_failure_preserves_all_originals() {
    let candidates = vec![
        "/in/a.evtx".to_string(),
        "/in/b.evtx".to_string(),
        "/in/c.evtx".to_string(),
    ];
    let st = archive_init(false);
    let (st, a) = archive_event_logs(
        st,
        ArchiveEvent::Start {
            timestamp: "2024-01-02T03:04:05Z".to_string(),
        },
    );
    assert_eq!(a, ArchiveAction::EnsureOutputDir);
    let (st, a) = archive_event_logs(st, ArchiveEvent::Prepared);
    assert_eq!(a, ArchiveAction::Scan);
    let (st, a) = archive_event_logs(
        st,
        ArchiveEvent::Discovered {
            candidates: candidates.clone(),
        },
    );
    assert_eq!(a, ArchiveAction::BuildContainer);
    let (st, a) = archive_event_logs(st, ArchiveEvent::Built { ok: true });
    assert_eq!(a, ArchiveAction::ListContainer);
    // the container came out with one candidate omitted
    let listed = vec!["a.evtx".to_string(), "c.evtx".to_string()];
    let (st, a) = archive_event_logs(
        st,
        ArchiveEvent::Listed {
            entries: Some(listed),
        },
    );
    assert_eq!(a, ArchiveAction::PreserveOriginals);
    match st {
        ArchiveState::Aborted { missing } => {
            assert_eq!(missing, vec!["/in/b.evtx".to_string()]);
        }
        _ => panic!("expected the run to abort with the missing file reported"),
    }
}

#[test]
fn complete_verification_deletes_all_originals() {
    let candidates = vec!["/in/a.evtx".to_string(), "/in/b.evtx".to_string()];
    let st = archive_init(false);
    let (st, _) = archive_event_logs(
        st,
        ArchiveEvent::Start {
            timestamp: "2024-06-30T23:59:09Z".to_string(),
        },
    );
    let (st, _) = archive_event_logs(st, ArchiveEvent::Prepared);
    let (st, a) = archive_event_logs(
        st,
        ArchiveEvent::Discovered {
            candidates: candidates.clone(),
        },
    );
    assert_eq!(a, ArchiveAction::BuildContainer);
    match &st {
        ArchiveState::Building {
            archive_name,
            candidates: c,
        } => {
            assert_eq!(archive_name, "event_logs_2024-06-30T23_59_09Z.tar.xz");
            assert!(archive_name.starts_with("event_logs_"));
            assert!(archive_name.ends_with(".tar.xz"));
            assert_eq!(c, &candidates);
        }
        _ => panic!("expected the machine to be building"),
    }
    let (st, a) = archive_event_logs(st, ArchiveEvent::Built { ok: true });
    assert_eq!(a, ArchiveAction::ListContainer);
    let listed = vec!["b.evtx".to_string(), "a.evtx".to_string()];
    let (st, a) = archive_event_logs(
        st,
        ArchiveEvent::Listed {
            entries: Some(listed),
        },
    );
    assert_eq!(a, ArchiveAction::DeleteOriginals);
    match st {
        ArchiveState::Deleting { files } => assert_eq!(files, candidates),
        _ => panic!("expected the machine to move on to deletion"),
    }
}

#[test]
fn dry_run_asks_for_no_mutation() {
    let mutating = |a: &ArchiveAction| {
        matches!(
            a,
            ArchiveAction::EnsureOutputDir
                | ArchiveAction::BuildContainer
                | ArchiveAction::DeleteOriginals
        )
    };
    let st = archive_init(true);
    let (st, a) = archive_event_logs(
        st,
        ArchiveEvent::Start {
            timestamp: "2024-01-02T03:04:05Z".to_string(),
        },
    );
    assert_eq!(a, ArchiveAction::Scan);
    assert!(!mutating(&a));
    let candidates = vec!["/in/a.evtx".to_string(), "/in/b.evtx".to_string()];
    let (st, a) = archive_event_logs(
        st,
        ArchiveEvent::Discovered {
            candidates: candidates.clone(),
        },
    );
    assert_eq!(a, ArchiveAction::ReportPlan);
    assert!(!mutating(&a));
    match st {
        ArchiveState::DryRunReport {
            archive_name,
            candidates: c,
        } => {
            assert_eq!(archive_name, "event_logs_2024-01-02T03_04_05Z.tar.xz");
            assert_eq!(c, candidates);
        }
        _ => panic!("expected the dry run to end in its report"),
    }
}

#[test]
fn unopenable_container_preserves_originals() {
    let st = ArchiveState::Verifying {
        archive_name: "event_logs_x.tar.xz".to_string(),
        candidates: vec!["/in/a.evtx".to_string()],
    };
    let (st, a) = archive_event_logs(st, ArchiveEvent::Listed { entries: None });
    assert_eq!(a, ArchiveAction::PreserveOriginals);
    assert!(matches!(st, ArchiveState::Aborted { .. }));
}

#[test]
fn build_failure_preserves_originals() {
    let st = ArchiveState::Building {
        archive_name: "event_logs_x.tar.xz".to_string(),
        candidates: vec!["/in/a.evtx".to_string()],
    };
    let (st, a) = archive_event_logs(st, ArchiveEvent::Built { ok: false });
    assert_eq!(a, ArchiveAction::ReportBuildFailure);
    assert!(matches!(st, ArchiveState::BuildFailed));
}
