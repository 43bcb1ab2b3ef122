//! Artifact Recovery's decisions: whether a matched job's artifact may be
//! requested at all, the URL it is requested from, and the validation the
//! extraction step performs. Downloading and unpacking the archive are I/O
//! and live outside the library.

use crate::jobs::GitlabJob;
use crate::text;
use vstd::prelude::*;
use vstd::string::StrSliceExecFns;
use vstd::string::StringExecFns;

verus! {

/// A failure while planning artifact recovery.
#[derive(Debug)]
pub enum ArtifactError {
    /// The matched job still has an artifact but no job token is configured.
    JobTokenUndefined,
    /// The archive path handed to extraction is empty.
    ArchivePathEmpty,
    /// The output path handed to extraction is empty.
    OutputPathEmpty,
}

/// The error's text, as the process reports it.
pub open spec fn artifact_error_message(e: &ArtifactError) -> Seq<char> {
    match e {
        ArtifactError::JobTokenUndefined => "CI_JOB_TOKEN undefined"@,
        ArtifactError::ArchivePathEmpty => "archive_path is empty"@,
        ArtifactError::OutputPathEmpty => "output_path is empty"@,
    }
}

impl ArtifactError {
    /// Renders the error (see [`artifact_error_message`]).
    pub fn message(&self) -> (r: String)
        ensures
            r@ == artifact_error_message(self),
    {
        match self {
            ArtifactError::JobTokenUndefined => "CI_JOB_TOKEN undefined".to_owned(),
            ArtifactError::ArchivePathEmpty => "archive_path is empty".to_owned(),
            ArtifactError::OutputPathEmpty => "output_path is empty".to_owned(),
        }
    }
}

/// The URL a job's artifact archive is requested from.
pub open spec fn artifact_url_text(
    jobs_api_url: Seq<char>,
    job_id: u32,
    token: Seq<char>,
) -> Seq<char> {
    jobs_api_url + "/"@ + text::dec_digits(job_id as int) + "/artifacts?job_token="@ + token
}

/// Decides what artifact recovery does for a matched job: nothing when the
/// job carries no artifact-expiry value (the artifact already expired
/// server-side and must not be requested); otherwise the download URL, which
/// needs the job token; an artifact without a token is the error.
pub fn plan_artifact_download(
    job: &GitlabJob,
    jobs_api_url: &str,
    ci_job_token: &Option<String>,
) -> (r: Result<Option<String>, ArtifactError>)
    ensures
        match r {
            Ok(None) => job.artifacts_expire_at is None,
            Ok(Some(url)) => job.artifacts_expire_at is Some && ci_job_token is Some && url@
                == artifact_url_text(
                jobs_api_url@,
                job.id,
                match *ci_job_token {
                    Some(t) => t@,
                    None => Seq::<char>::empty(),
                },
            ),
            Err(e) => job.artifacts_expire_at is Some && ci_job_token is None && e
                is JobTokenUndefined,
        },
{
    match &job.artifacts_expire_at {
        None => Ok(None),
        Some(_) => {
            match ci_job_token {
                None => Err(ArtifactError::JobTokenUndefined),
                Some(token) => {
                    let mut url = jobs_api_url.to_owned();
                    url.append("/");
                    let id = text::u32_string(job.id);
                    url.append(id.as_str());
                    url.append("/artifacts?job_token=");
                    url.append(token.as_str());
                    proof {
                        assert(url@ =~= artifact_url_text(jobs_api_url@, job.id, token@));
                    }
                    Ok(Some(url))
                },
            }
        },
    }
}

/// The validation extraction performs before the archive decoder runs: both
/// paths must be nonempty, the archive path checked first.
pub fn check_archive_paths(archive_path: &str, output_path: &str) -> (r: Result<
    (),
    ArtifactError,
>)
    ensures
        match r {
            Ok(_) => archive_path@.len() > 0 && output_path@.len() > 0,
            Err(e) => match e {
                ArtifactError::ArchivePathEmpty => archive_path@.len() == 0,
                ArtifactError::OutputPathEmpty => archive_path@.len() > 0 && output_path@.len()
                    == 0,
                _ => false,
            },
        },
{
    if archive_path.unicode_len() == 0 {
        Err(ArtifactError::ArchivePathEmpty)
    } else if output_path.unicode_len() == 0 {
        Err(ArtifactError::OutputPathEmpty)
    } else {
        Ok(())
    }
}

} // verus!
