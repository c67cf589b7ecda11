use crate::json::json_of;
use crate::json::parse_json;
use crate::json::release_from_json;
use crate::json::release_list_from_json;
use crate::json::release_list_of_json;
use crate::json::release_of_json;
use crate::model::GithubError;
use crate::model::GithubRelease;
use crate::model::ReleaseView;
use crate::text::lossy_decoded;
use crate::text::lossy_string;
use vstd::prelude::*;
use vstd::string::StringExecFns;

verus! {

/// The sink that receives full diagnostic detail on a decode failure. The
/// caller brings an implementation; nothing is assumed of what it does.
pub trait DiagnosticsSink {
    /// Receives a short context line, the failure's detail (the JSON
    /// parser's error text, or a description of the shape mismatch), and
    /// the raw response body whose decode failed.
    fn log_decode_failure(&mut self, context: &str, detail: &str, body: &Vec<u8>);
}

/// Whether a status code is a client error.
pub open spec fn client_error_status(status: u16) -> bool {
    400 <= status < 500
}

/// The releases a response body decodes to, where it is one JSON array of
/// releases.
pub open spec fn decoded_release_list(bytes: Seq<u8>) -> Option<Seq<ReleaseView>> {
    match json_of(bytes) {
        Some(doc) => release_list_of_json(doc),
        None => None,
    }
}

/// The release a response body decodes to, where it is one JSON release
/// object.
pub open spec fn decoded_release(bytes: Seq<u8>) -> Option<ReleaseView> {
    match json_of(bytes) {
        Some(doc) => release_of_json(doc),
        None => None,
    }
}

/// Decodes a releases-listing response. The status is read first: a 4xx
/// fails with `ClientError` carrying the raw body as text, before any parse
/// attempt. Otherwise the body must be a JSON array of releases; where it is
/// not, the raw body goes to the diagnostics sink and the caller receives
/// only the terse context line in a `DecodeError`.
pub fn decode_release_list<S: DiagnosticsSink>(
    status: u16,
    body: &Vec<u8>,
    context: &str,
    sink: &mut S,
) -> (r: Result<Vec<GithubRelease>, GithubError>)
    ensures
        client_error_status(status) ==> (r matches Err(e) && (e matches GithubError::ClientError {
            status: s,
            body_text,
        } && s == status && body_text@ == lossy_decoded(body@))),
        !client_error_status(status) ==> match r {
            Ok(rels) => decoded_release_list(body@) == Some(rels.deep_view()),
            Err(e) => decoded_release_list(body@) is None && (e
                matches GithubError::DecodeError { context: c } && c@ == context@),
        },
{
    if 400 <= status && status < 500 {
        let text = lossy_string(body);
        return Err(GithubError::ClientError { status, body_text: text });
    }
    match parse_json(body) {
        Ok(doc) => match release_list_from_json(&doc) {
            Some(rels) => Ok(rels),
            None => {
                sink.log_decode_failure(
                    context,
                    "response JSON is not an array of release objects",
                    body,
                );
                Err(GithubError::DecodeError { context: String::from_str(context) })
            },
        },
        Err(detail) => {
            sink.log_decode_failure(context, detail.as_str(), body);
            Err(GithubError::DecodeError { context: String::from_str(context) })
        },
    }
}

/// Decodes a single-release response, under the same pattern as the listing
/// decoder: status first, then one JSON release object.
pub fn decode_release<S: DiagnosticsSink>(
    status: u16,
    body: &Vec<u8>,
    context: &str,
    sink: &mut S,
) -> (r: Result<GithubRelease, GithubError>)
    ensures
        client_error_status(status) ==> (r matches Err(e) && (e matches GithubError::ClientError {
            status: s,
            body_text,
        } && s == status && body_text@ == lossy_decoded(body@))),
        !client_error_status(status) ==> match r {
            Ok(rel) => decoded_release(body@) == Some(rel.deep_view()),
            Err(e) => decoded_release(body@) is None && (e matches GithubError::DecodeError {
                context: c,
            } && c@ == context@),
        },
{
    if 400 <= status && status < 500 {
        let text = lossy_string(body);
        return Err(GithubError::ClientError { status, body_text: text });
    }
    match parse_json(body) {
        Ok(doc) => match release_from_json(&doc) {
            Some(rel) => Ok(rel),
            None => {
                sink.log_decode_failure(context, "response JSON is not a release object", body);
                Err(GithubError::DecodeError { context: String::from_str(context) })
            },
        },
        Err(detail) => {
            sink.log_decode_failure(context, detail.as_str(), body);
            Err(GithubError::DecodeError { context: String::from_str(context) })
        },
    }
}

} // verus!
