//! Decisions over backend replies.
//!
//! Every remote operation is a single request/response round trip performed
//! outside this library; what is verified here is what the gateway decides
//! from a reply: which statuses short-circuit a load, which make an unload a
//! legitimate no-op, when a reply body marks a failure, and the exact
//! request paths used.

use vstd::prelude::*;

verus! {

/// A backend reply reduced to what the gateway reads: the HTTP status code
/// and the response body text.
#[derive(Clone, Debug)]
pub struct HttpReply {
    pub status: u16,
    pub body: String,
}

/// An HTTP status that counts as success.
pub open spec fn spec_is_success(status: u16) -> bool {
    200 <= status < 300
}

/// An HTTP status that counts as success.
pub fn is_success(status: u16) -> (r: bool)
    ensures
        r == spec_is_success(status),
{
    200 <= status && status < 300
}

/// What a model-status probe means before an unload.
#[derive(Clone, Copy, Debug, PartialEq, Eq, Structural)]
pub enum UnloadPrecheck {
    /// `404`: the model was never loaded; the unload is a legitimate no-op.
    NotLoaded,
    /// A success status: the model is loaded and the unload call follows.
    Loaded,
    /// Any other status: the probe itself failed.
    StatusError,
}

/// Interpret the status probe made before an unload: `404` makes the unload
/// a no-op, a success status lets it proceed, anything else is an error.
pub fn interpret_unload_precheck(status: u16) -> (r: UnloadPrecheck)
    ensures
        r == UnloadPrecheck::NotLoaded <==> status == 404,
        r == UnloadPrecheck::Loaded <==> (status != 404 && spec_is_success(status)),
        r == UnloadPrecheck::StatusError <==> (status != 404 && !spec_is_success(status)),
{
    if status == 404 {
        UnloadPrecheck::NotLoaded
    } else if is_success(status) {
        UnloadPrecheck::Loaded
    } else {
        UnloadPrecheck::StatusError
    }
}

/// The body contains the word "error" in any letter case (the letters are
/// ASCII, so folding each of the five positions covers every casing).
pub open spec fn spec_body_reports_error(s: Seq<char>) -> bool {
    exists|i: int|
        0 <= i && i + 5 <= s.len() && (#[trigger] s[i] == 'e' || s[i] == 'E') && (s[i + 1] == 'r'
            || s[i + 1] == 'R') && (s[i + 2] == 'r' || s[i + 2] == 'R') && (s[i + 3] == 'o' || s[i
            + 3] == 'O') && (s[i + 4] == 'r' || s[i + 4] == 'R')
}

/// Whether the reply body contains the word "error", case-insensitively.
pub fn body_reports_error(s: &str) -> (r: bool)
    ensures
        r == spec_body_reports_error(s@),
{
    let n = s.unicode_len();
    if n < 5 {
        proof {
            assert(!spec_body_reports_error(s@));
        }
        return false;
    }
    let mut i: usize = 0;
    while i <= n - 5
        invariant
            n == s@.len(),
            n >= 5,
            i <= n - 5 + 1,
            forall|j: int|
                0 <= j < i ==> !((#[trigger] s@[j] == 'e' || s@[j] == 'E') && (s@[j + 1] == 'r'
                    || s@[j + 1] == 'R') && (s@[j + 2] == 'r' || s@[j + 2] == 'R') && (s@[j + 3]
                    == 'o' || s@[j + 3] == 'O') && (s@[j + 4] == 'r' || s@[j + 4] == 'R')),
        decreases n - i,
    {
        let c0 = s.get_char(i);
        let c1 = s.get_char(i + 1);
        let c2 = s.get_char(i + 2);
        let c3 = s.get_char(i + 3);
        let c4 = s.get_char(i + 4);
        if (c0 == 'e' || c0 == 'E') && (c1 == 'r' || c1 == 'R') && (c2 == 'r' || c2 == 'R') && (c3
            == 'o' || c3 == 'O') && (c4 == 'r' || c4 == 'R') {
            return true;
        }
        i = i + 1;
    }
    proof {
        assert(!spec_body_reports_error(s@));
    }
    false
}

/// What the unload call itself came to.
#[derive(Clone, Copy, Debug, PartialEq, Eq, Structural)]
pub enum UnloadResult {
    /// Success status and a body without an error marker.
    Unloaded,
    /// Success status but the body reports an error.
    BodyError,
    /// A non-success status.
    HttpError,
}

/// Interpret the unload call's reply: a success status whose body carries
/// no error marker is the only way the unload counts as done.
pub fn interpret_unload_reply(reply: &HttpReply) -> (r: UnloadResult)
    ensures
        r == UnloadResult::Unloaded <==> (spec_is_success(reply.status)
            && !spec_body_reports_error(reply.body@)),
        r == UnloadResult::BodyError <==> (spec_is_success(reply.status)
            && spec_body_reports_error(reply.body@)),
        r == UnloadResult::HttpError <==> !spec_is_success(reply.status),
{
    if !is_success(reply.status) {
        UnloadResult::HttpError
    } else if body_reports_error(reply.body.as_str()) {
        UnloadResult::BodyError
    } else {
        UnloadResult::Unloaded
    }
}

/// `base` + `"/models/"` + `model`: the model status and metadata path.
pub fn model_url(base: &str, model: &str) -> (r: String)
    ensures
        r@ == base@ + "/models/"@ + model@,
{
    let mut r = String::from_str(base);
    r.append("/models/");
    r.append(model);
    r
}

/// `base` + `"/models/"` + `model` + `"/stats"`: the model statistics path.
pub fn model_stats_url(base: &str, model: &str) -> (r: String)
    ensures
        r@ == base@ + "/models/"@ + model@ + "/stats"@,
{
    let mut r = String::from_str(base);
    r.append("/models/");
    r.append(model);
    r.append("/stats");
    r
}

/// `base` + `"/models/"` + `model` + `"/infer"`: the inference path.
pub fn model_infer_url(base: &str, model: &str) -> (r: String)
    ensures
        r@ == base@ + "/models/"@ + model@ + "/infer"@,
{
    let mut r = String::from_str(base);
    r.append("/models/");
    r.append(model);
    r.append("/infer");
    r
}

/// `base` + `"/repository/models/"` + `model` + `"/load"`: the load path.
pub fn model_load_url(base: &str, model: &str) -> (r: String)
    ensures
        r@ == base@ + "/repository/models/"@ + model@ + "/load"@,
{
    let mut r = String::from_str(base);
    r.append("/repository/models/");
    r.append(model);
    r.append("/load");
    r
}

/// `base` + `"/repository/models/"` + `model` + `"/unload"`: the unload path.
pub fn model_unload_url(base: &str, model: &str) -> (r: String)
    ensures
        r@ == base@ + "/repository/models/"@ + model@ + "/unload"@,
{
    let mut r = String::from_str(base);
    r.append("/repository/models/");
    r.append(model);
    r.append("/unload");
    r
}

/// `base` + `"/repository/index"`: the model listing path.
pub fn repository_index_url(base: &str) -> (r: String)
    ensures
        r@ == base@ + "/repository/index"@,
{
    let mut r = String::from_str(base);
    r.append("/repository/index");
    r
}

/// `base` + `"/health/live"`: the liveness path.
pub fn health_live_url(base: &str) -> (r: String)
    ensures
        r@ == base@ + "/health/live"@,
{
    let mut r = String::from_str(base);
    r.append("/health/live");
    r
}

/// `base` + `"/health/ready"`: the readiness path.
pub fn health_ready_url(base: &str) -> (r: String)
    ensures
        r@ == base@ + "/health/ready"@,
{
    let mut r = String::from_str(base);
    r.append("/health/ready");
    r
}

} // verus!
