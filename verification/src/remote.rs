//! Request lines and response decisions for the remote storage service.
//! The HTTP traffic itself runs outside; this module builds every URL and
//! header the client sends and decides what to make of what came back.

use vstd::prelude::*;
use crate::textfmt::{bool_str, dec_str, u64_to_string};

verus! {

/// The percent-encoding of `s` with every non-alphanumeric character
/// escaped, named: it is a function of the characters alone, computed by an
/// outside crate.
pub uninterp spec fn percent_enc(s: Seq<char>) -> Seq<char>;

/// Relies on `percent_encoding::utf8_percent_encode` with the
/// `NON_ALPHANUMERIC` set: the escaping depends on the input alone, and an
/// empty input stays empty.
#[verifier::external_body]
fn percent_encode_str(s: &str) -> (r: String)
    ensures
        r@ == percent_enc(s@),
        s@.len() == 0 ==> r@.len() == 0,
{
    percent_encoding::utf8_percent_encode(s, percent_encoding::NON_ALPHANUMERIC).to_string()
}

/// The resource listing request for `path`, percent-encoded.
pub fn resources_url(base: &str, path: &str) -> (r: String)
    ensures
        r@ == base@ + "/resources?path="@ + percent_enc(path@),
{
    let mut u = base.to_owned();
    u.append("/resources?path=");
    let enc = percent_encode_str(path);
    u.append(enc.as_str());
    u
}

/// The resource information request for `path`, passed through verbatim.
pub fn resource_info_url(base: &str, path: &str) -> (r: String)
    ensures
        r@ == base@ + "/resources?path="@ + path@,
{
    let mut u = base.to_owned();
    u.append("/resources?path=");
    u.append(path);
    u
}

/// The request for the `limit` most recently uploaded resources.
pub fn last_uploaded_url(base: &str, limit: u64) -> (r: String)
    ensures
        r@ == base@ + "/resources/last-uploaded?limit="@ + dec_str(limit as nat),
{
    let mut u = base.to_owned();
    u.append("/resources/last-uploaded?limit=");
    let n = u64_to_string(limit);
    u.append(n.as_str());
    u
}

/// The upload-target request for `remote_path`, percent-encoded, with the
/// overwrite flag spelled out.
pub fn upload_url(base: &str, remote_path: &str, overwrite: bool) -> (r: String)
    ensures
        r@ == base@ + "/resources/upload?path="@ + percent_enc(remote_path@) + "&overwrite="@ + (
        if overwrite {
            "true"@
        } else {
            "false"@
        }),
{
    let mut u = base.to_owned();
    u.append("/resources/upload?path=");
    let enc = percent_encode_str(remote_path);
    u.append(enc.as_str());
    u.append("&overwrite=");
    u.append(bool_str(overwrite));
    u
}

/// The deletion request for `remote_path`, percent-encoded, synchronous,
/// with the permanence flag spelled out.
pub fn delete_url(base: &str, remote_path: &str, permanently: bool) -> (r: String)
    ensures
        r@ == base@ + "/resources?path="@ + percent_enc(remote_path@)
            + "&force_async=false&permanently="@ + (if permanently {
            "true"@
        } else {
            "false"@
        }),
{
    let mut u = base.to_owned();
    u.append("/resources?path=");
    let enc = percent_encode_str(remote_path);
    u.append(enc.as_str());
    u.append("&force_async=false&permanently=");
    u.append(bool_str(permanently));
    u
}

/// The download-source request for `path`, percent-encoded.
pub fn download_url(base: &str, path: &str) -> (r: String)
    ensures
        r@ == base@ + "/resources/download?path="@ + percent_enc(path@),
{
    let mut u = base.to_owned();
    u.append("/resources/download?path=");
    let enc = percent_encode_str(path);
    u.append(enc.as_str());
    u
}

/// The authorization header sent with every request.
pub fn auth_header_value(token: &str) -> (r: String)
    ensures
        r@ == "OAuth "@ + token@,
{
    let mut h = "OAuth ".to_owned();
    h.append(token);
    h
}

/// A content type naming the JSON media type: `application/json` exactly,
/// either the whole value or followed by a parameter or a space.
pub open spec fn is_json_content_type(s: Seq<char>) -> bool {
    let p = "application/json"@;
    s.len() >= p.len() && s.take(p.len() as int) == p && (s.len() == p.len() || s[p.len() as int]
        == ';' || s[p.len() as int] == ' ')
}

/// Decide whether `ct` names the JSON media type.
#[verifier::loop_isolation(false)]
pub fn content_type_is_json(ct: &str) -> (r: bool)
    ensures
        r == is_json_content_type(ct@),
{
    proof {
        reveal_strlit("application/json");
    }
    let pattern: &str = "application/json";
    let n: usize = ct.unicode_len();
    if n < 16 {
        return false;
    }
    if n > 16 {
        let boundary = ct.get_char(16);
        if !(boundary == ';' || boundary == ' ') {
            return false;
        }
    }
    let mut i: usize = 0;
    while i < 16
        invariant
            0 <= i <= 16,
            forall|j: int| 0 <= j < i ==> ct@[j] == "application/json"@[j],
        decreases 16 - i,
    {
        if ct.get_char(i) != pattern.get_char(i) {
            proof {
                assert(ct@.take(16)[i as int] != "application/json"@[i as int]);
            }
            return false;
        }
        i += 1;
    }
    proof {
        assert(ct@.take(16) =~= "application/json"@);
    }
    true
}

/// Why a response was turned away.
#[derive(PartialEq, Eq, Structural, Clone, Copy, Debug)]
pub enum ApiError {
    /// The response status was not OK.
    StatusNotOk,
    /// The response did not carry the JSON media type.
    NotJson,
}

impl ApiError {
    /// The diagnostic line reported for this error.
    pub fn message(&self) -> (r: &'static str)
        ensures
            *self == ApiError::StatusNotOk ==> r@ == "Responce status is not OK"@,
            *self == ApiError::NotJson ==> r@ == "Mime type is not application/json"@,
    {
        match self {
            ApiError::StatusNotOk => "Responce status is not OK",
            ApiError::NotJson => "Mime type is not application/json",
        }
    }
}

/// Accept a response body exactly when the status was OK and the content
/// type named JSON; otherwise say which of the two was wrong.
pub fn accept_api_response(status_ok: bool, content_type: &str, body: String) -> (r: Result<
    String,
    ApiError,
>)
    ensures
        !status_ok ==> r == Result::<String, ApiError>::Err(ApiError::StatusNotOk),
        status_ok && !is_json_content_type(content_type@) ==> r == Result::<
            String,
            ApiError,
        >::Err(ApiError::NotJson),
        status_ok && is_json_content_type(content_type@) ==> r == Result::<
            String,
            ApiError,
        >::Ok(body),
{
    if !status_ok {
        Result::Err(ApiError::StatusNotOk)
    } else if !content_type_is_json(content_type) {
        Result::Err(ApiError::NotJson)
    } else {
        Result::Ok(body)
    }
}

/// Accept a token response body exactly when the status was OK.
pub fn accept_token_response(status_ok: bool, body: String) -> (r: Result<String, ApiError>)
    ensures
        !status_ok ==> r == Result::<String, ApiError>::Err(ApiError::StatusNotOk),
        status_ok ==> r == Result::<String, ApiError>::Ok(body),
{
    if status_ok {
        Result::Ok(body)
    } else {
        Result::Err(ApiError::StatusNotOk)
    }
}

/// Everything after the last slash of `s`; empty when `s` ends in a slash
/// or is empty.
pub open spec fn after_last_slash(s: Seq<char>) -> Seq<char>
    decreases s.len(),
{
    if s.len() == 0 {
        s
    } else if s.last() == '/' {
        Seq::<char>::empty()
    } else {
        after_last_slash(s.drop_last()).push(s.last())
    }
}

/// The local name a download is written to: the given target when one was
/// named, otherwise the remote path's base name.
pub fn download_target(path: &str, target: Option<&str>) -> (r: String)
    ensures
        target matches Some(t) ==> r@ == t@,
        target is None ==> r@ == after_last_slash(path@),
{
    match target {
        Option::Some(t) => t.to_owned(),
        Option::None => base_name(path),
    }
}

/// The base name of `path`: everything after its last slash.
#[verifier::loop_isolation(false)]
pub fn base_name(path: &str) -> (r: String)
    ensures
        r@ == after_last_slash(path@),
{
    let n: usize = path.unicode_len();
    let mut start: usize = 0;
    let mut i: usize = 0;
    while i < n
        invariant
            0 <= start <= i <= n,
            forall|j: int| start <= j < i ==> path@[j] != '/',
            start > 0 ==> path@[start - 1] == '/',
        decreases n - i,
    {
        if path.get_char(i) == '/' {
            start = i + 1;
        }
        i += 1;
    }
    proof {
        lemma_after_last_slash(path@, start as int);
    }
    path.substring_char(start, n).to_owned()
}

/// When no slash follows position `start`, and `start` sits right after a
/// slash (or at the very beginning of a slash-free string), the base name
/// is the suffix from `start` on.
proof fn lemma_after_last_slash(s: Seq<char>, start: int)
    requires
        0 <= start <= s.len(),
        forall|j: int| start <= j < s.len() ==> s[j] != '/',
        start > 0 ==> s[start - 1] == '/',
    ensures
        after_last_slash(s) == s.subrange(start, s.len() as int),
    decreases s.len(),
{
    if s.len() == 0 {
        assert(s.subrange(0, 0) =~= s);
    } else if s.last() == '/' {
        assert(start == s.len());
        assert(s.subrange(start, s.len() as int) =~= Seq::<char>::empty());
    } else {
        assert(start < s.len());
        let dl = s.drop_last();
        lemma_after_last_slash(dl, start);
        assert(dl.subrange(start, dl.len() as int).push(s.last()) =~= s.subrange(
            start,
            s.len() as int,
        ));
    }
}

} // verus!
