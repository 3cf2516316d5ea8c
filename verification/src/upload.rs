//! The upload step, described as plain values: the request that carries the
//! script identifier and the context archive to the build endpoint, and the
//! reading of the response. The network transport lives outside this crate.
use vstd::prelude::*;
use vstd::string::*;
use crate::DeployError;

verus! {

/// What the upload request must say: the full endpoint URL, the script
/// identifier for the text field, and the authorization header value.
pub struct UploadRequest {
    pub url: String,
    pub script_id: String,
    pub authorization: String,
}

/// The name of the multipart text field carrying the script identifier.
pub fn script_field_name() -> (r: &'static str)
    ensures
        r@ == "script_id"@,
{
    "script_id"
}

/// The name of the multipart file part carrying the context archive.
pub fn context_field_name() -> (r: &'static str)
    ensures
        r@ == "context"@,
{
    "context"
}

/// The fixed filename of the context archive part.
pub fn context_file_name() -> (r: &'static str)
    ensures
        r@ == "context.tar.gz"@,
{
    "context.tar.gz"
}

/// The fixed content type of the context archive part.
pub fn context_content_type() -> (r: &'static str)
    ensures
        r@ == "application/gzip"@,
{
    "application/gzip"
}

/// Describes the single POST that ships the archive: the build endpoint
/// below the configured base URL, the script identifier, and a bearer
/// authorization carrying the token.
pub fn build_upload_request(base_url: &str, script_id: &str, token: &str) -> (r: UploadRequest)
    ensures
        r.url@ == base_url@ + "/script/build"@,
        r.script_id@ == script_id@,
        r.authorization@ == "Bearer "@ + token@,
{
    UploadRequest {
        url: String::from_str(base_url).concat("/script/build"),
        script_id: String::from_str(script_id),
        authorization: String::from_str("Bearer ").concat(token),
    }
}

/// Reads the upload response: success for a success status (`2xx`),
/// otherwise `UpstreamError` carrying the response status and body. Exactly
/// one attempt is ever made; no retry follows a failure.
pub fn classify_response(status: u16, body: String) -> (r: Result<(), DeployError>)
    ensures
        (r is Ok) <==> (200 <= status < 300),
        r matches Err(e) ==> (e matches DeployError::UpstreamError { status: s, body: b }
            && s == status && b@ == body@),
{
    if 200 <= status && status < 300 {
        Ok(())
    } else {
        Err(DeployError::UpstreamError { status, body })
    }
}

} // verus!
