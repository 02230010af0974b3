//! Request building for the two external collaborators: the enrichment
//! service (bearer-token authenticated, addressed by model identifier) and
//! the content store (basic-auth authenticated, addressed by entry
//! identifier). The network calls themselves live outside the core; the
//! core computes every value those calls send.

use vstd::prelude::*;
use vstd::string::StringExecFns;
use base64::Engine;
use crate::entry::{dec_str, u64_to_dec};

verus! {

/// The fixed summary length limit sent with every enrichment request.
pub const SUMMARY_MAX_LENGTH: u64 = 512;

/// How one enrichment call turned out: a failure diagnostic, or the
/// generated summary text.
#[derive(Debug)]
pub enum EnrichOutcome {
    Failed,
    Summary(String),
}

/// How one commit call turned out: any non-success response counts as a
/// failure.
#[derive(Clone, Copy, PartialEq, Eq, Structural, Debug)]
pub enum CommitOutcome {
    Failed,
    Committed,
}

/// The padded standard-alphabet base64 rendering of a byte string: a pure
/// function of the input bytes.
pub uninterp spec fn base64_std_of(bytes: Seq<u8>) -> Seq<char>;

/// Relies on base64's `STANDARD` engine: padded encoding under the standard
/// alphabet, four output characters for every three input bytes rounded up,
/// a function of the input bytes alone.
#[verifier::external_body]
fn base64_encode(bytes: &[u8]) -> (r: String)
    ensures
        r@ == base64_std_of(bytes@),
        r@.len() == 4 * ((bytes@.len() + 2) / 3),
{
    base64::engine::general_purpose::STANDARD.encode(bytes)
}

/// The basic-authorization header value for the content store's
/// credentials.
pub open spec fn basic_auth_header(username: Seq<char>, password: Seq<char>) -> Seq<char> {
    "Basic "@ + base64_std_of(vstd::utf8::encode_utf8(username + ":"@ + password))
}

/// Builds the `Basic` authorization header: the base64 of
/// `username:password`.
pub fn build_basic_auth(username: &String, password: &String) -> (r: String)
    ensures
        r@ == basic_auth_header(username@, password@),
{
    let mut creds = username.clone();
    creds.append(":");
    creds.append(password.as_str());
    let encoded = base64_encode(creds.as_str().as_bytes());
    let mut r = "Basic ".to_owned();
    r.append(encoded.as_str());
    r
}

/// The bearer-authorization header value for the enrichment service's
/// token.
pub open spec fn bearer_auth_header(token: Seq<char>) -> Seq<char> {
    "Bearer "@ + token
}

/// Builds the `Bearer` authorization header for the enrichment service.
pub fn build_bearer_auth(token: &String) -> (r: String)
    ensures
        r@ == bearer_auth_header(token@),
{
    let mut r = "Bearer ".to_owned();
    r.append(token.as_str());
    r
}

/// The content-store update endpoint for one entry identifier.
pub open spec fn update_url(base: Seq<char>, id: u64) -> Seq<char> {
    base + "/v1/entries/"@ + dec_str(id as nat)
}

/// Builds the update URL `<base>/v1/entries/<id>`.
pub fn build_update_url(base: &String, id: u64) -> (r: String)
    ensures
        r@ == update_url(base@, id),
{
    let mut r = base.clone();
    r.append("/v1/entries/");
    let digits = u64_to_dec(id);
    r.append(digits.as_str());
    r
}

/// The enrichment-service run endpoint for one model identifier.
pub open spec fn run_url(base: Seq<char>, model: Seq<char>) -> Seq<char> {
    base + "/run/"@ + model
}

/// Builds the run URL `<base>/run/<model>`.
pub fn build_run_url(base: &String, model: &String) -> (r: String)
    ensures
        r@ == run_url(base@, model@),
{
    let mut r = base.clone();
    r.append("/run/");
    r.append(model.as_str());
    r
}

} // verus!
