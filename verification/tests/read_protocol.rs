use bulls::{
    AdvisoryEvaluator, Branch, FsPath, Knowledge, LocationAvailability, LocationId,
    LocationProjection, ObservationAttemptOutcomeProjection, ObservationAttemptProjection,
    ObservationCoverage, ObservationStatusProjection, ObservationSuccessProjection,
    OverviewProjection, ProtocolAdvisoryCode, ProtocolAdvisoryProjection, ProtocolAdvisorySubject,
    ProtocolBuildError, ProtocolDocument, ProtocolHead, ProtocolKnowledgeBool,
    ProtocolOverviewView, ProtocolPath, ProtocolRepositoryDetailView, ProtocolRepositoryList,
    ProtocolResultCompleteness, ProtocolTimestamp, ProtocolUpstreamRelation,
    ProtocolUpstreamState, ProtocolWorkspaceMirror, Remote, RepositoryDetailProjection,
    RepositoryId, RepositoryListItemProjection, RepositoryListProjection, Timestamp, Upstream,
    UpstreamDivergence, UpstreamState, WorkspaceMirror, WorkspaceRevision, WorktreeChanges,
    WorktreeGitState, WorktreeId, WorktreeProjection, READ_PROTOCOL_SCHEMA_VERSION,
};

fn complete_status(seconds: i64) -> ObservationStatusProjection {
    let observed_at = Timestamp::from_unix_seconds(seconds);
    ObservationStatusProjection::new(
        Some(ObservationAttemptProjection::new(
            observed_at,
            ObservationCoverage::Complete,
            ObservationAttemptOutcomeProjection::Succeeded,
        )),
        Some(ObservationSuccessProjection::new(observed_at, ObservationCoverage::Complete)),
    )
}

fn mirror() -> WorkspaceMirror {
    let revision = WorkspaceRevision::new(7);
    let location = LocationProjection::new(
        LocationId::new("location-1"),
        FsPath::new("/workspace/repository"),
        LocationAvailability::Available,
    );
    let worktree = WorktreeProjection::new(
        revision,
        WorktreeId::new("worktree-1"),
        RepositoryId::new("repository-1"),
        location.clone(),
        Some(
            WorktreeGitState::branch(
                Branch::new("main"),
                UpstreamState::Tracking {
                    upstream: Upstream::new(Remote::new("origin"), Branch::new("main")),
                    divergence: UpstreamDivergence::new(2, 1),
                },
            )
            .with_changes(WorktreeChanges::new(true, false, true)),
        ),
        complete_status(42),
    );
    let repository = RepositoryDetailProjection::new(
        revision,
        RepositoryId::new("repository-1"),
        vec![location],
        Some(vec![Remote::new("origin")]),
        complete_status(41),
        vec![worktree],
    );
    let overview = OverviewProjection::new(revision, 1, 1, 1, 1, 0, 0, 0);

    WorkspaceMirror::new(revision, overview, vec![repository])
}

#[test]
fn mirror_protocol_is_versioned_and_preserves_machine_semantics() {
    let document =
        ProtocolDocument::<ProtocolWorkspaceMirror>::try_from(&mirror()).expect("mirror protocol must build");

    assert_eq!(document.schema_version, READ_PROTOCOL_SCHEMA_VERSION);
    assert_eq!(document.workspace_revision, 7);
    assert_eq!(document.result.completeness, ProtocolResultCompleteness::Complete);
    assert_eq!(document.result.unknown_evidence_count, 0);
    assert_eq!(document.payload.repositories[0].id, "repository-1");
    assert_eq!(
        document.payload.repositories[0].locations[0].path,
        ProtocolPath::Utf8("/workspace/repository".to_owned())
    );
    assert_eq!(
        document.payload.repositories[0].worktrees[0].git_state.as_ref().expect("git state must be present").head,
        ProtocolHead::Branch { branch: "main".to_owned() }
    );
    assert!(matches!(
        document.payload.repositories[0].worktrees[0].git_state.as_ref().expect("git state must be present").upstream,
        Some(ProtocolUpstreamState::Tracking {
            ahead: 2,
            behind: 1,
            relation: ProtocolUpstreamRelation::Diverged,
            ..
        })
    ));
}

#[test]
fn list_protocol_marks_unknown_evidence_as_partial() {
    let projection = RepositoryListProjection::new(
        WorkspaceRevision::new(9),
        1,
        0,
        vec![RepositoryListItemProjection::new(
            RepositoryId::new("repository-1"),
            vec![LocationProjection::new(
                LocationId::new("location-1"),
                FsPath::new("/workspace/repository"),
                LocationAvailability::Available,
            )],
            1,
            Knowledge::Unknown,
            Knowledge::Known(false),
        )],
    );

    let document =
        ProtocolDocument::<ProtocolRepositoryList>::try_from(&projection).expect("list protocol must build");

    assert_eq!(document.result.completeness, ProtocolResultCompleteness::Partial);
    assert_eq!(document.result.unknown_evidence_count, 1);
    assert_eq!(document.payload.items[0].has_remotes, ProtocolKnowledgeBool::Unknown);
    assert_eq!(document.payload.items[0].has_local_work, ProtocolKnowledgeBool::Known(false));
    assert_eq!(
        document.payload.items[0].locations[0].path,
        ProtocolPath::Utf8("/workspace/repository".to_owned())
    );
}

#[test]
fn advisory_protocol_keeps_codes_evidence_and_unknown_rules_structured() {
    let mirror = mirror();
    let projection = AdvisoryEvaluator::evaluate(&mirror);
    let document = ProtocolDocument::<ProtocolAdvisoryProjection>::try_from(&projection)
        .expect("advisory protocol must build");

    assert!(document
        .payload
        .advisories
        .iter()
        .any(|advisory| advisory.code == ProtocolAdvisoryCode::LocalCommitsAheadOfKnownUpstream));
    assert!(document.payload.unknown_rules.is_empty());
    assert_eq!(document.result.completeness, ProtocolResultCompleteness::Complete);
}

#[test]
fn combined_overview_protocol_preserves_advisories_in_one_revisioned_document() {
    let mirror = mirror();
    let advisories = AdvisoryEvaluator::evaluate(&mirror);
    let document = ProtocolDocument::<ProtocolOverviewView>::try_from((mirror.overview(), &advisories))
        .expect("combined overview protocol must build");

    assert_eq!(document.workspace_revision, mirror.revision().value());
    assert_eq!(document.payload.overview.repository_count, 1);
    assert!(document
        .payload
        .advisories
        .advisories
        .iter()
        .any(|advisory| advisory.code == ProtocolAdvisoryCode::LocalCommitsAheadOfKnownUpstream));
}

#[test]
fn combined_repository_protocol_filters_advisories_to_the_inspected_repository() {
    let mirror = mirror();
    let advisories = AdvisoryEvaluator::evaluate(&mirror);
    let repository = &mirror.repositories()[0];
    let document = ProtocolDocument::<ProtocolRepositoryDetailView>::try_from((repository, &advisories))
        .expect("combined repository protocol must build");

    assert_eq!(document.payload.repository.id, "repository-1");
    assert!(document
        .payload
        .advisories
        .advisories
        .iter()
        .all(|advisory| !matches!(&advisory.subject, ProtocolAdvisorySubject::Workspace)));
}

#[test]
fn combined_protocol_rejects_projection_revision_mismatch() {
    let mirror = mirror();
    let advisories = AdvisoryEvaluator::evaluate(&WorkspaceMirror::new(
        WorkspaceRevision::new(8),
        OverviewProjection::new(WorkspaceRevision::new(8), 0, 0, 0, 0, 0, 0, 0),
        Vec::new(),
    ));

    assert_eq!(
        ProtocolDocument::<ProtocolOverviewView>::try_from((mirror.overview(), &advisories)),
        Err(ProtocolBuildError::InconsistentWorkspaceRevision)
    );
    assert_eq!(
        ProtocolDocument::<ProtocolRepositoryDetailView>::try_from((&mirror.repositories()[0], &advisories)),
        Err(ProtocolBuildError::InconsistentWorkspaceRevision)
    );
}

#[test]
fn timestamp_protocol_normalizes_values_before_unix_epoch() {
    let timestamp = ProtocolTimestamp::try_from(Timestamp::from_unix_nanos(-500_000_000))
        .expect("timestamp must build");

    assert_eq!(timestamp.unix_seconds, -1);
    assert_eq!(timestamp.nanoseconds, 500_000_000);
}

#[test]
fn mirror_protocol_rejects_mixed_workspace_revisions() {
    let mirror = WorkspaceMirror::new(
        WorkspaceRevision::new(7),
        OverviewProjection::new(WorkspaceRevision::new(8), 0, 0, 0, 0, 0, 0, 0),
        Vec::new(),
    );

    assert_eq!(
        ProtocolDocument::<ProtocolWorkspaceMirror>::try_from(&mirror),
        Err(ProtocolBuildError::InconsistentWorkspaceRevision)
    );
}

#[test]
fn protocol_path_preserves_non_utf8_unix_paths_without_loss() {
    let path = FsPath::from_bytes(vec![b'/', b't', b'm', b'p', b'/', 0xff]);

    assert_eq!(ProtocolPath::from_path(&path), ProtocolPath::UnixBytes(vec![b'/', b't', b'm', b'p', b'/', 0xff]));
}
