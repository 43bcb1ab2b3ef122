use skip_if_tree_ok_in_past::jobs::{GitlabCommit, GitlabJob};
use skip_if_tree_ok_in_past::process::{
    exit_code_of, process_step, store_value_for, ProcessEvent, ProcessResult, ProcessState,
    EXIT_CONFIG_ERROR, EXIT_PROCESS_ERROR,
};

fn matched_job() -> GitlabJob {
    GitlabJob {
        artifacts_expire_at: Some("2023-03-12T19:59:33.250Z".to_string()),
        id: 42,
        commit: GitlabCommit {
            id: "5e694dadd2979a2680c98c88a2f98df9787947d2".to_string(),
        },
        job_ref: "main".to_string(),
        name: "test".to_string(),
        status: "success".to_string(),
        web_url: "https://gitlab.localhost/p/-/jobs/42".to_string(),
    }
}

#[test]
fn a_stored_verdict_short_circuits_the_decision() {
    let state = process_step(
        ProcessState::CheckStore,
        ProcessEvent::StoreRead(Some(true)),
        false,
    );
    assert_eq!(
        state,
        ProcessState::Done(ProcessResult::SkipCiFileExists(true))
    );
    assert_eq!(exit_code_of(&ProcessResult::SkipCiFileExists(true)), 0);
    assert_eq!(exit_code_of(&ProcessResult::SkipCiFileExists(false)), 3);
}

#[test]
fn an_operator_bypass_ends_the_decision_without_persisting() {
    let state = process_step(ProcessState::CheckStore, ProcessEvent::StoreRead(None), true);
    assert_eq!(state, ProcessState::Done(ProcessResult::Skip));
    assert_eq!(exit_code_of(&ProcessResult::Skip), 3);
}

#[test]
fn a_found_job_walks_recovery_trace_and_persistence_to_exit_zero() {
    let job = matched_job();
    let mut state = process_step(ProcessState::CheckStore, ProcessEvent::StoreRead(None), false);
    assert_eq!(state, ProcessState::RunSearch);
    state = process_step(state, ProcessEvent::SearchDone(Some(job.clone())), false);
    assert_eq!(state, ProcessState::RecoverArtifact(job.clone()));
    state = process_step(state, ProcessEvent::ArtifactDone(true), false);
    assert_eq!(state, ProcessState::ResolveAncestor(job.clone()));
    state = process_step(
        state,
        ProcessEvent::AncestorResolved(Some(
            "http://gitlab-fake-api/api/projects/123/jobs/11".to_string(),
        )),
        false,
    );
    let verdict = ProcessResult::JobFound(
        job.clone(),
        "http://gitlab-fake-api/api/projects/123/jobs/11".to_string(),
    );
    assert_eq!(state, ProcessState::Persist(verdict.clone()));
    assert!(store_value_for(&verdict));
    state = process_step(state, ProcessEvent::Persisted, false);
    assert_eq!(state, ProcessState::Done(verdict.clone()));
    assert_eq!(exit_code_of(&verdict), 0);
}

#[test]
fn a_trace_without_the_marker_falls_back_to_the_job_url() {
    let job = matched_job();
    let state = process_step(
        ProcessState::ResolveAncestor(job.clone()),
        ProcessEvent::AncestorResolved(None),
        false,
    );
    assert_eq!(
        state,
        ProcessState::Persist(ProcessResult::JobFound(
            job.clone(),
            job.web_url.clone()
        ))
    );
}

#[test]
fn no_match_persists_false_and_exits_one() {
    let mut state = process_step(ProcessState::CheckStore, ProcessEvent::StoreRead(None), false);
    state = process_step(state, ProcessEvent::SearchDone(None), false);
    assert_eq!(state, ProcessState::Persist(ProcessResult::JobNotFound));
    assert!(!store_value_for(&ProcessResult::JobNotFound));
    state = process_step(state, ProcessEvent::Persisted, false);
    assert_eq!(state, ProcessState::Done(ProcessResult::JobNotFound));
    assert_eq!(exit_code_of(&ProcessResult::JobNotFound), 1);
}

#[test]
fn an_event_that_does_not_belong_changes_nothing() {
    let state = process_step(ProcessState::RunSearch, ProcessEvent::Persisted, false);
    assert_eq!(state, ProcessState::RunSearch);
}

#[test]
fn the_error_exit_codes_are_fixed() {
    assert_eq!(EXIT_PROCESS_ERROR, 2);
    assert_eq!(EXIT_CONFIG_ERROR, 6);
}
