//! The error taxonomy of the client.
//!
//! Every failure is a value of [`CrowdmarkError`]; nothing in this crate
//! panics or aborts.  Transport failures arise only in the caller's I/O
//! layer and are carried here as their message text.

use vstd::prelude::*;

verus! {

/// Everything that can go wrong between a request and a decoded answer.
#[derive(Clone, Debug)]
pub enum CrowdmarkError {
    /// The session credential cannot be encoded as an HTTP header value.
    InvalidHeaderValue,
    /// The platform answered as it does for a logged-out browser.
    NotAuthenticated(String),
    /// A network or HTTP-level failure, with the transport's message.
    Transport(String),
    /// A response body that does not have the promised shape.
    DecodeError(String),
    /// The queried course id is unknown to the platform.
    InvalidCourseID,
    /// The queried assessment id is unknown to the platform.
    InvalidAssessmentID,
    /// More pages were rendered than the assessment declares questions.
    TooManyPages,
    /// A presigned-upload answer without the promised fields.
    S3PolicyError,
    /// The storage endpoint refused an upload, with its status text.
    S3UploadError(String),
    /// The platform refused a page registration, with its status text.
    AssignmentUploadError(String),
    /// The platform refused the final submission, with its status text.
    AssignmentSubmitError(String),
}

impl CrowdmarkError {
    /// A short human-readable description, for callers that report errors.
    pub fn describe(&self) -> (r: &'static str)
        ensures
            r@ == match self {
                CrowdmarkError::InvalidHeaderValue => "Invalid header value"@,
                CrowdmarkError::NotAuthenticated(_) => "Not authenticated"@,
                CrowdmarkError::Transport(_) => "Request error"@,
                CrowdmarkError::DecodeError(_) => "JSON error"@,
                CrowdmarkError::InvalidCourseID => "Invalid course ID"@,
                CrowdmarkError::InvalidAssessmentID => "Invalid assessment ID"@,
                CrowdmarkError::TooManyPages => "Too many pages submitted"@,
                CrowdmarkError::S3PolicyError => "Invalid S3 Policy Response"@,
                CrowdmarkError::S3UploadError(_) => "Failed to upload to S3"@,
                CrowdmarkError::AssignmentUploadError(_) => {
                    "Failed to upload to Crowdmark assignment"@
                },
                CrowdmarkError::AssignmentSubmitError(_) => {
                    "Failed to submit Crowdmark assignment"@
                },
            },
    {
        match self {
            CrowdmarkError::InvalidHeaderValue => "Invalid header value",
            CrowdmarkError::NotAuthenticated(_) => "Not authenticated",
            CrowdmarkError::Transport(_) => "Request error",
            CrowdmarkError::DecodeError(_) => "JSON error",
            CrowdmarkError::InvalidCourseID => "Invalid course ID",
            CrowdmarkError::InvalidAssessmentID => "Invalid assessment ID",
            CrowdmarkError::TooManyPages => "Too many pages submitted",
            CrowdmarkError::S3PolicyError => "Invalid S3 Policy Response",
            CrowdmarkError::S3UploadError(_) => "Failed to upload to S3",
            CrowdmarkError::AssignmentUploadError(_) => {
                "Failed to upload to Crowdmark assignment"
            },
            CrowdmarkError::AssignmentSubmitError(_) => {
                "Failed to submit Crowdmark assignment"
            },
        }
    }
}

} // verus!
