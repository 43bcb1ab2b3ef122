//! The immutable per-invocation configuration, and the pure derivations the
//! loader performs on it: the project path, the job-list endpoint and the
//! flag-file path. Reading the process environment is I/O and stays outside
//! the library; everything derived from the raw values is verified here.

use crate::text;
use vstd::prelude::*;
use vstd::string::StrSliceExecFns;
use vstd::string::StringExecFns;

verus! {

/// The default number of job-history pages to fetch before giving up.
pub const DEFAULT_PAGE_TO_FETCH_MAX: u32 = 5;

/// The default bound on candidates examined on the configured ref.
pub const DEFAULT_COMMIT_TO_CHECK_SAME_REF_MAX: u32 = 3;

/// The default bound on candidates examined across all refs.
pub const DEFAULT_COMMIT_TO_CHECK_SAME_JOB_MAX: u32 = 100;

/// Everything one invocation needs, collected once at process start and
/// threaded explicitly through every component.
pub struct Config {
    pub api_read_token: String,
    pub ci_commit_ref_name: Option<String>,
    pub ci_job_name: String,
    pub ci_job_token: Option<String>,
    pub verbose: bool,
    pub files_to_check: String,
    pub project_path: String,
    pub jobs_api_url: String,
    pub ci_skip_path: String,
    pub page_to_fetch_max: u32,
    pub commit_to_check_same_ref_max: u32,
    pub commit_to_check_same_job_max: u32,
    pub skip: bool,
}

/// A failure while deriving configuration values.
#[derive(Debug)]
pub enum ConfigError {
    /// The builds directory has no parent to resolve the project path against.
    NoBuildsDirParent,
}

impl ConfigError {
    /// The error's text, as the process reports it.
    pub fn message(&self) -> (r: String)
        ensures
            r@ == "no ci_builds_dir parent ?"@,
    {
        "no ci_builds_dir parent ?".to_owned()
    }
}

/// Where the repository is cloned: the project directory itself when it
/// already lies under the builds directory, otherwise the project directory
/// re-rooted beside the builds directory; either way with a trailing
/// separator. `None` when the builds directory has no parent to re-root
/// against.
pub open spec fn project_path_of(builds: Seq<char>, project: Seq<char>) -> Option<Seq<char>> {
    if text::is_prefix_of(builds, project) {
        Some(project.push('/'))
    } else {
        match text::parent_dir_of(builds) {
            None => None,
            Some(parent) => Some(text::join_path(parent, project.skip(1)).push('/')),
        }
    }
}

/// Resolves the path the repository is cloned to (see [`project_path_of`]).
pub fn get_project_path(ci_builds_dir: &str, ci_project_dir: &str) -> (r: Result<
    String,
    ConfigError,
>)
    requires
        ci_project_dir@.len() >= 1 || text::is_prefix_of(ci_builds_dir@, ci_project_dir@),
    ensures
        match r {
            Ok(p) => project_path_of(ci_builds_dir@, ci_project_dir@) == Some(p@),
            Err(e) => project_path_of(ci_builds_dir@, ci_project_dir@) is None && e
                is NoBuildsDirParent,
        },
{
    if text::str_starts_with(ci_project_dir, ci_builds_dir) {
        let mut p = ci_project_dir.to_owned();
        p.append("/");
        proof {
            reveal_strlit("/");
            assert(p@ =~= ci_project_dir@.push('/'));
        }
        Ok(p)
    } else {
        match text::parent_dir(ci_builds_dir) {
            None => Err(ConfigError::NoBuildsDirParent),
            Some(parent) => {
                let rel = ci_project_dir.substring_char(1, ci_project_dir.unicode_len());
                proof {
                    assert(rel@ =~= ci_project_dir@.skip(1));
                }
                let mut p = text::join_path_str(parent.as_str(), rel);
                p.append("/");
                proof {
                    reveal_strlit("/");
                    assert(p@ =~= text::join_path(parent@, ci_project_dir@.skip(1)).push('/'));
                }
                Ok(p)
            },
        }
    }
}

/// Builds the job-list endpoint for a project.
pub fn build_jobs_api_url(ci_api_v4_url: &str, ci_project_id: &str) -> (r: String)
    ensures
        r@ == ci_api_v4_url@ + "/projects/"@ + ci_project_id@ + "/jobs"@,
{
    let mut r = ci_api_v4_url.to_owned();
    r.append("/projects/");
    r.append(ci_project_id);
    r.append("/jobs");
    proof {
        assert(r@ =~= ci_api_v4_url@ + "/projects/"@ + ci_project_id@ + "/jobs"@);
    }
    r
}

/// Builds the flag-file path for one job execution context; `project_path`
/// already carries its trailing separator.
pub fn build_ci_skip_path(project_path: &str, ci_project_id: &str, ci_job_id: &str) -> (r: String)
    ensures
        r@ == project_path@ + "ci-skip-"@ + ci_project_id@ + "-"@ + ci_job_id@,
{
    let mut r = project_path.to_owned();
    r.append("ci-skip-");
    r.append(ci_project_id);
    r.append("-");
    r.append(ci_job_id);
    proof {
        assert(r@ =~= project_path@ + "ci-skip-"@ + ci_project_id@ + "-"@ + ci_job_id@);
    }
    r
}

/// A search bound as its environment text gives it: the parsed decimal value,
/// or the default when the text is not an unsigned decimal in range.
pub fn parse_bound(s: &str, default: u32) -> (r: u32)
    ensures
        r == match text::parsed_u32(s@) {
            Some(v) => v,
            None => default,
        },
{
    match text::parse_u32(s) {
        Some(v) => v,
        None => default,
    }
}

/// An optional value's text: the value, or nothing.
pub open spec fn opt_text(o: Option<String>) -> Seq<char> {
    match o {
        Some(s) => s@,
        None => Seq::<char>::empty(),
    }
}

/// The configuration report, one `label = value` line per field.
pub open spec fn config_text(c: &Config) -> Seq<char> {
    "\n  project_path                 = "@ + c.project_path@
        + "\n  ci_commit_ref_name           = "@ + opt_text(c.ci_commit_ref_name)
        + "\n  ci_job_name                  = "@ + c.ci_job_name@
        + "\n  verbose                      = "@ + (if c.verbose {
        "true"@
    } else {
        "false"@
    }) + "\n  files_to_check               = "@ + c.files_to_check@
        + "\n  project_path                 = "@ + c.project_path@
        + "\n  jobs_api_url                 = "@ + c.jobs_api_url@
        + "\n  ci_skip_path                 = "@ + c.ci_skip_path@
        + "\n  api_read_token               = "@ + c.api_read_token@
        + "\n  ci_job_token                 = "@ + opt_text(c.ci_job_token)
        + "\n  page_to_fetch_max            = "@ + text::dec_digits(c.page_to_fetch_max as int)
        + "\n  commit_to_check_same_ref_max = "@ + text::dec_digits(
        c.commit_to_check_same_ref_max as int,
    ) + "\n  commit_to_check_same_job_max = "@ + text::dec_digits(
        c.commit_to_check_same_job_max as int,
    )
}

impl Config {
    /// Renders the configuration report (see [`config_text`]).
    pub fn to_text(&self) -> (r: String)
        ensures
            r@ == config_text(self),
    {
        let mut r = String::new();
        r.append("\n  project_path                 = ");
        r.append(self.project_path.as_str());
        r.append("\n  ci_commit_ref_name           = ");
        match &self.ci_commit_ref_name {
            Some(s) => r.append(s.as_str()),
            None => (),
        }
        r.append("\n  ci_job_name                  = ");
        r.append(self.ci_job_name.as_str());
        r.append("\n  verbose                      = ");
        r.append(text::bool_str(self.verbose));
        r.append("\n  files_to_check               = ");
        r.append(self.files_to_check.as_str());
        r.append("\n  project_path                 = ");
        r.append(self.project_path.as_str());
        r.append("\n  jobs_api_url                 = ");
        r.append(self.jobs_api_url.as_str());
        r.append("\n  ci_skip_path                 = ");
        r.append(self.ci_skip_path.as_str());
        r.append("\n  api_read_token               = ");
        r.append(self.api_read_token.as_str());
        r.append("\n  ci_job_token                 = ");
        match &self.ci_job_token {
            Some(s) => r.append(s.as_str()),
            None => (),
        }
        r.append("\n  page_to_fetch_max            = ");
        let pages = text::u32_string(self.page_to_fetch_max);
        r.append(pages.as_str());
        r.append("\n  commit_to_check_same_ref_max = ");
        let same_ref = text::u32_string(self.commit_to_check_same_ref_max);
        r.append(same_ref.as_str());
        r.append("\n  commit_to_check_same_job_max = ");
        let same_job = text::u32_string(self.commit_to_check_same_job_max);
        r.append(same_job.as_str());
        proof {
            assert(r@ =~= config_text(self));
        }
        r
    }
}

} // verus!
