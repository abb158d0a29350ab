//! Outbound operation requests: the immutable description of one REST call,
//! and the encoding of its query parameters through the form-urlencoding
//! serializer.

use vstd::prelude::*;

verus! {

/// HTTP method of an operation request.
#[derive(Debug, Clone, Copy, PartialEq, Eq, Structural)]
pub enum Method {
    Get,
    Post,
    Put,
    Delete,
}

/// What `serde_html_form::to_string` returns for a list of key/value pairs:
/// the `application/x-www-form-urlencoded` text; it depends on the pairs
/// alone.
pub uninterp spec fn form_encoding_of(pairs: Seq<(Seq<char>, Seq<char>)>) -> Seq<char>;

/// The views of a list of key/value pairs.
pub open spec fn pair_views(pairs: Seq<(String, String)>) -> Seq<(Seq<char>, Seq<char>)> {
    pairs.map_values(|p: (String, String)| (p.0@, p.1@))
}

/// Relies on `serde_html_form::to_string`: percent-encodes key/value pairs as
/// `application/x-www-form-urlencoded` text (`"a=1&b=2"`), deterministically
/// in the pairs alone.  On a list of string pairs it always succeeds: the
/// serializer takes the sequence path for the list and the pair path for each
/// tuple, and its key and value sinks accept every string, so no failure path
/// is reachable.  A refusal on other input shapes would come back as the text
/// of the native cause, through its `Display` impl.
#[verifier::external_body]
fn form_encode_pairs(pairs: &Vec<(String, String)>) -> (r: Result<String, String>)
    ensures
        r is Ok,
        r matches Ok(s) ==> s@ == form_encoding_of(pair_views(pairs@)),
{
    match serde_html_form::to_string(pairs) {
        Ok(s) => Ok(s),
        Err(e) => Err(e.to_string()),
    }
}

/// Encodes query parameters as form-urlencoded text.  String pairs always
/// encode, so success is owed on every input; the error type stays in the
/// signature because callers funnel it into the shared result surface, and a
/// refusal of the encoder would be classified as an encode fault carrying the
/// native cause.
pub fn encode_query(pairs: &Vec<(String, String)>) -> (r: Result<String, crate::error::Error>)
    ensures
        r matches Ok(s) && s@ == form_encoding_of(pair_views(pairs@)),
{
    match form_encode_pairs(pairs) {
        Ok(s) => Ok(s),
        Err(cause) => Err(crate::error::Error::Encode(cause)),
    }
}

/// A well-formed endpoint path: non-empty and absolute.
pub open spec fn valid_path(p: Seq<char>) -> bool {
    p.len() > 0 && p[0] == '/'
}

/// An outbound operation request: method, endpoint path, query parameters
/// and optional body text.  Immutable once constructed; created per call and
/// discarded when the call completes.
#[derive(Debug, Clone)]
pub struct Request {
    pub method: Method,
    pub path: String,
    pub query: Vec<(String, String)>,
    pub body: Option<String>,
}

impl Request {
    /// Builds a request; a malformed path is refused as invalid usage before
    /// any network activity.
    pub fn new(method: Method, path: String, query: Vec<(String, String)>, body: Option<
        String,
    >) -> (r: Result<Request, crate::error::Error>)
        ensures
            valid_path(path@) ==> (r matches Ok(q) && q.method == method && q.path@ == path@
                && q.query == query && q.body == body),
            !valid_path(path@) ==> (r matches Err(e) && e matches crate::error::Error::InvalidUsage(_)),
    {
        if path.as_str().is_empty() {
            return Err(crate::error::Error::InvalidUsage("the endpoint path is empty".to_owned()));
        }
        let c = path.as_str().get_char(0);
        if c != '/' {
            return Err(crate::error::Error::InvalidUsage("the endpoint path is not absolute".to_owned()));
        }
        Ok(Request { method, path, query, body })
    }

    /// The form-urlencoded query string of this request; always delivered.
    pub fn query_string(&self) -> (r: Result<String, crate::error::Error>)
        ensures
            r matches Ok(s) && s@ == form_encoding_of(pair_views(self.query@)),
    {
        encode_query(&self.query)
    }
}

} // verus!
