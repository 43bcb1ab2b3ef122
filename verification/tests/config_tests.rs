use skip_if_tree_ok_in_past::config::{
    build_ci_skip_path, build_jobs_api_url, get_project_path, parse_bound, Config,
    DEFAULT_COMMIT_TO_CHECK_SAME_JOB_MAX, DEFAULT_PAGE_TO_FETCH_MAX,
};

#[test]
fn a_bound_falls_back_to_its_default_on_bad_text() {
    assert_eq!(parse_bound("3", DEFAULT_PAGE_TO_FETCH_MAX), 3);
    assert_eq!(parse_bound("A", DEFAULT_PAGE_TO_FETCH_MAX), DEFAULT_PAGE_TO_FETCH_MAX);
    assert_eq!(
        parse_bound("", DEFAULT_COMMIT_TO_CHECK_SAME_JOB_MAX),
        DEFAULT_COMMIT_TO_CHECK_SAME_JOB_MAX
    );
    assert_eq!(parse_bound("100", DEFAULT_COMMIT_TO_CHECK_SAME_JOB_MAX), 100);
}

#[test]
fn test_get_project_path() {
    assert_eq!(get_project_path("/aa/bb", "/bb/cc").unwrap(), "/aa/bb/cc/");
}

#[test]
fn test_get_project_path_same_prefix() {
    assert_eq!(get_project_path("/aa/bb", "/aa/bb/cc").unwrap(), "/aa/bb/cc/");
}

#[test]
fn get_project_path_no_parent_is_an_error() {
    let err = get_project_path("/", "bb/cc").err().unwrap();
    assert_eq!(err.message(), "no ci_builds_dir parent ?");
}

#[test]
fn get_project_path_root_builds_dir_has_no_parent() {
    let err = get_project_path("///", "bb/cc").err().unwrap();
    assert_eq!(err.message(), "no ci_builds_dir parent ?");
}

#[test]
fn jobs_api_url_joins_base_project_and_jobs() {
    assert_eq!(
        build_jobs_api_url("http://localhost/gitlab/api", "123"),
        "http://localhost/gitlab/api/projects/123/jobs"
    );
}

#[test]
fn ci_skip_path_carries_project_and_job_ids() {
    assert_eq!(
        build_ci_skip_path("/aa/bb/cc/", "123", "456"),
        "/aa/bb/cc/ci-skip-123-456"
    );
}

#[test]
fn test_config_display() {
    let config = Config {
        api_read_token: "__API_READ_TOKEN__".to_string(),
        ci_commit_ref_name: Some("__CI_COMMIT_REF_NAME__".to_string()),
        ci_job_name: "".to_string(),
        ci_job_token: Some("__CI_JOB_TOKEN__".to_string()),
        verbose: false,
        files_to_check: "__files_to_check__".to_string(),
        project_path: "__project_path__".to_string(),
        jobs_api_url: "__jobs_api_url__".to_string(),
        ci_skip_path: "__ci_skip_path__".to_string(),
        page_to_fetch_max: 0,
        commit_to_check_same_ref_max: 0,
        commit_to_check_same_job_max: 0,
        skip: false,
    };
    let out = config.to_text();
    let expected = "\n  project_path                 = __project_path__\
                    \n  ci_commit_ref_name           = __CI_COMMIT_REF_NAME__\
                    \n  ci_job_name                  = \
                    \n  verbose                      = false\
                    \n  files_to_check               = __files_to_check__\
                    \n  project_path                 = __project_path__\
                    \n  jobs_api_url                 = __jobs_api_url__\
                    \n  ci_skip_path                 = __ci_skip_path__\
                    \n  api_read_token               = __API_READ_TOKEN__\
                    \n  ci_job_token                 = __CI_JOB_TOKEN__\
                    \n  page_to_fetch_max            = 0\
                    \n  commit_to_check_same_ref_max = 0\
                    \n  commit_to_check_same_job_max = 0";
    assert_eq!(out, expected);
}

#[test]
fn config_display_without_tokens_leaves_their_lines_empty() {
    let config = Config {
        api_read_token: "".to_string(),
        ci_commit_ref_name: Some("__CI_COMMIT_REF_NAME__".to_string()),
        ci_job_name: "".to_string(),
        ci_job_token: None,
        verbose: true,
        files_to_check: "__files_to_check__".to_string(),
        project_path: "__project_path__".to_string(),
        jobs_api_url: "__jobs_api_url__".to_string(),
        ci_skip_path: "__ci_skip_path__".to_string(),
        page_to_fetch_max: 5,
        commit_to_check_same_ref_max: 3,
        commit_to_check_same_job_max: 100,
        skip: false,
    };
    let out = config.to_text();
    let expected = "\n  project_path                 = __project_path__\
                    \n  ci_commit_ref_name           = __CI_COMMIT_REF_NAME__\
                    \n  ci_job_name                  = \
                    \n  verbose                      = true\
                    \n  files_to_check               = __files_to_check__\
                    \n  project_path                 = __project_path__\
                    \n  jobs_api_url                 = __jobs_api_url__\
                    \n  ci_skip_path                 = __ci_skip_path__\
                    \n  api_read_token               = \
                    \n  ci_job_token                 = \
                    \n  page_to_fetch_max            = 5\
                    \n  commit_to_check_same_ref_max = 3\
                    \n  commit_to_check_same_job_max = 100";
    assert_eq!(out, expected);
}
