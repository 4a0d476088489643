//! Target resolution: parsing a location string of the form
//! `s3://bucket/key` into a bucket and an object key.
//!
//! The parse itself is done by the `url` crate behind a trusted wrapper;
//! the checks on its outcome (the scheme, the presence of a bucket, the
//! trimming of the key) are verified here.

use vstd::prelude::*;
use vstd::string::StrSliceExecFns;

verus! {

/// Whether `url::Url::parse` accepts the string as an absolute URL.
pub uninterp spec fn uri_is_valid(s: Seq<char>) -> bool;

/// The scheme that `url::Url::scheme` returns for the parsed string.
pub uninterp spec fn uri_scheme(s: Seq<char>) -> Seq<char>;

/// The host that `url::Url::host_str` returns for the parsed string.
pub uninterp spec fn uri_host(s: Seq<char>) -> Option<Seq<char>>;

/// The path that `url::Url::path` returns for the parsed string.
pub uninterp spec fn uri_path(s: Seq<char>) -> Seq<char>;

/// Relies on `url::Url::parse` and the accessors `Url::scheme`,
/// `Url::host_str` and `Url::path`: parsing either fails or yields a URL
/// whose scheme, host and path are functions of the input string alone.
#[verifier::external_body]
fn parse_uri_parts(uri: &str) -> (r: Option<(String, Option<String>, String)>)
    ensures
        r is Some <==> uri_is_valid(uri@),
        r matches Some(p) ==> p.0@ == uri_scheme(uri@),
        r matches Some(p) ==> match (p.1, uri_host(uri@)) {
            (Some(h), Some(hs)) => h@ == hs,
            (None, None) => true,
            _ => false,
        },
        r matches Some(p) ==> p.2@ == uri_path(uri@),
{
    match url::Url::parse(uri) {
        Ok(u) => Some((
            u.scheme().to_string(),
            u.host_str().map(|h| h.to_string()),
            u.path().to_string(),
        )),
        Err(_) => None,
    }
}

/// A resolved upload target: bucket and object key, fixed at
/// construction.
#[derive(Debug, Clone)]
pub struct Location {
    pub bucket: String,
    pub key: String,
}

/// A configuration error, surfaced at construction.
#[derive(Debug, Clone, Copy, PartialEq, Eq, Structural)]
pub enum WriterError {
    /// The location string is not a parseable URI.
    InvalidUri,
    /// The URI's scheme is not the object-store scheme.
    UnexpectedScheme,
    /// The URI has no host component to serve as the bucket.
    MissingBucket,
}

impl WriterError {
    /// A short description of the error, for callers that report it.
    pub fn message(&self) -> (r: &'static str)
        ensures
            *self == WriterError::InvalidUri ==> r@ == "invalid object-store uri"@,
            *self == WriterError::UnexpectedScheme ==> r@ == "expected an s3:// uri"@,
            *self == WriterError::MissingBucket ==> r@ == "uri is missing a bucket name"@,
    {
        match self {
            WriterError::InvalidUri => "invalid object-store uri",
            WriterError::UnexpectedScheme => "expected an s3:// uri",
            WriterError::MissingBucket => "uri is missing a bucket name",
        }
    }
}

/// The string with every leading '/' removed.
pub open spec fn trim_slashes(s: Seq<char>) -> Seq<char>
    decreases s.len(),
{
    if s.len() > 0 && s[0] == '/' {
        trim_slashes(s.drop_first())
    } else {
        s
    }
}

proof fn lemma_trim_slashes_skip(s: Seq<char>, i: int)
    requires
        0 <= i <= s.len(),
        forall|j: int| 0 <= j < i ==> s[j] == '/',
        i == s.len() || s[i] != '/',
    ensures
        trim_slashes(s) == s.subrange(i, s.len() as int),
    decreases i,
{
    if i == 0 {
        assert(s.subrange(0, s.len() as int) =~= s);
    } else {
        assert(s[0] == '/');
        let t = s.drop_first();
        assert forall|j: int| 0 <= j < i - 1 implies t[j] == '/' by {
            assert(t[j] == s[j + 1]);
        }
        assert(i - 1 == t.len() || t[i - 1] != '/');
        lemma_trim_slashes_skip(t, i - 1);
        assert(t.subrange(i - 1, t.len() as int) =~= s.subrange(i, s.len() as int));
    }
}

/// Remove every leading '/' from a string.
fn trim_leading_slashes(s: &str) -> (r: String)
    ensures
        r@ == trim_slashes(s@),
{
    let n = s.unicode_len();
    let mut i: usize = 0;
    while i < n && s.get_char(i) == '/'
        invariant
            n == s@.len(),
            i <= n,
            forall|j: int| 0 <= j < i ==> s@[j] == '/',
        decreases n - i,
    {
        i = i + 1;
    }
    proof {
        lemma_trim_slashes_skip(s@, i as int);
    }
    let sub = s.substring_char(i, n);
    sub.to_owned()
}

/// Resolve a location string into a bucket and an object key.
///
/// The string must be a parseable URI with the `s3` scheme and a host
/// component; the host is the bucket and the path, with its leading
/// slashes removed, is the key.
pub fn parse_location(uri: &str) -> (r: Result<Location, WriterError>)
    ensures
        !uri_is_valid(uri@) ==> (r matches Err(e) && e == WriterError::InvalidUri),
        uri_is_valid(uri@) && uri_scheme(uri@) != "s3"@ ==> (r matches Err(e) && e
            == WriterError::UnexpectedScheme),
        uri_is_valid(uri@) && uri_scheme(uri@) == "s3"@ && uri_host(uri@) is None ==> (r matches
            Err(e) && e == WriterError::MissingBucket),
        uri_is_valid(uri@) && uri_scheme(uri@) == "s3"@ ==> (uri_host(uri@) matches Some(h) ==> (r
            matches Ok(loc) && loc.bucket@ == h && loc.key@ == trim_slashes(uri_path(uri@)))),
{
    match parse_uri_parts(uri) {
        None => Err(WriterError::InvalidUri),
        Some((scheme, host, path)) => {
            if scheme == "s3".to_owned() {
                match host {
                    None => Err(WriterError::MissingBucket),
                    Some(bucket) => {
                        let key = trim_leading_slashes(path.as_str());
                        Ok(Location { bucket, key })
                    },
                }
            } else {
                Err(WriterError::UnexpectedScheme)
            }
        },
    }
}

} // verus!
