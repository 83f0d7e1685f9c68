//! Where the objects are: the URL of the object store and of each object
//! in it.
//!
//! URLs are read and resolved by the `url` crate. What it makes of a text is
//! not restated here: its results carry names, and the contracts say which
//! result is asked for and what is done with it.

use crate::text::chars_of;
use url::{ParseError, Url};
use vstd::prelude::*;
use vstd::string::StringExecFns;

verus! {

/// Why the `url` crate refused a text.
#[verifier::external_type_specification]
#[verifier::external_body]
pub struct ExParseError(ParseError);

/// The URL that `input` is read as, written out again; where `input` is
/// not an absolute URL, the reason.
pub uninterp spec fn url_parsed(input: Seq<char>) -> Result<Seq<char>, ParseError>;

/// The URL that `reference` means when it is found in a document at the URL
/// `base`, written out; where `base` is not an absolute URL or `reference`
/// cannot be resolved against it, the reason.
pub uninterp spec fn url_joined(base: Seq<char>, reference: Seq<char>) -> Result<
    Seq<char>,
    ParseError,
>;

/// Whether `r` is `named` with its text held in a `String`.
pub open spec fn is_url_text(
    r: Result<String, ParseError>,
    named: Result<Seq<char>, ParseError>,
) -> bool {
    match named {
        Ok(text) => r is Ok && r->Ok_0@ == text,
        Err(cause) => r == Err::<String, ParseError>(cause),
    }
}

/// Calls `Url::parse` and writes the URL out. Claimed of it: what comes
/// back depends on `input` alone; it is the URL's serialization where the
/// crate accepts `input`, and the crate's error where it does not.
#[verifier::external_body]
fn parse_url(input: &str) -> (r: Result<String, ParseError>)
    ensures
        is_url_text(r, url_parsed(input@)),
{
    Url::parse(input).map(String::from)
}

/// Calls `Url::join` on the URL that `Url::parse` reads `base` as, and
/// writes the URL out. Claimed of it: what comes back depends on `base` and
/// `reference` alone; it is the serialization of what `reference` resolves
/// to, or the error of the crate where it refuses `base` or cannot resolve
/// `reference`.
#[verifier::external_body]
fn join_url(base: &str, reference: &str) -> (r: Result<String, ParseError>)
    ensures
        is_url_text(r, url_joined(base@, reference@)),
{
    Url::parse(base)?.join(reference).map(String::from)
}

/// A text that is no URL, with the reason.
#[derive(Debug, PartialEq, Eq)]
pub struct UrlError {
    /// What the `url` crate said of the text.
    pub cause: ParseError,
}

/// `base` with a `/` added at its end unless it ends with one.
pub open spec fn with_trailing_slash(base: Seq<char>) -> Seq<char> {
    if base.len() > 0 && base.last() == '/' {
        base
    } else {
        base.push('/')
    }
}

/// The path under the base URL below which the objects are found.
pub open spec fn object_path() -> Seq<char> {
    "object/"@
}

/// The URL below which the objects of the store at `base` are found:
/// `base`, ended by a `/`, read as a URL, with the object path resolved
/// against it.
pub open spec fn objects_url(base: Seq<char>) -> Result<Seq<char>, ParseError> {
    match url_parsed(with_trailing_slash(base)) {
        Err(cause) => Err(cause),
        Ok(root) => match url_joined(root, Seq::<char>::empty()) {
            Err(cause) => Err(cause),
            Ok(root_again) => url_joined(root_again, object_path()),
        },
    }
}

/// Whether `r` is the endpoint or the error that `named` gives.
pub open spec fn is_endpoint(
    r: Result<Endpoint, UrlError>,
    named: Result<Seq<char>, ParseError>,
) -> bool {
    match named {
        Ok(text) => r is Ok && r->Ok_0@ == text,
        Err(cause) => r == Err::<Endpoint, UrlError>(UrlError { cause }),
    }
}

/// Whether `r` is the URL or the error that `named` gives.
pub open spec fn is_location(
    r: Result<String, UrlError>,
    named: Result<Seq<char>, ParseError>,
) -> bool {
    match named {
        Ok(text) => r is Ok && r->Ok_0@ == text,
        Err(cause) => r == Err::<String, UrlError>(UrlError { cause }),
    }
}

/// `base` with a `/` added at its end unless it ends with one.
pub fn ensure_trailing_slash(base: &str) -> (r: String)
    ensures
        r@ == with_trailing_slash(base@),
{
    let text = chars_of(base);
    let n = text.len();
    let mut r = base.to_owned();
    if n == 0 || text[n - 1] != '/' {
        proof {
            reveal_strlit("/");
            assert("/"@ =~= seq!['/']);
            assert(base@ + seq!['/'] =~= base@.push('/'));
        }
        r.append("/");
    }
    r
}

/// The store of objects: the URL below which every object is found.
#[derive(Debug, PartialEq, Eq)]
pub struct Endpoint {
    objects: String,
}

impl View for Endpoint {
    type V = Seq<char>;

    /// The URL below which the objects are found, written out.
    closed spec fn view(&self) -> Seq<char> {
        self.objects@
    }
}

impl Endpoint {
    /// Turns what the `url` crate made of a text into an endpoint or an
    /// error.
    pub fn from_resolved(resolved: Result<String, ParseError>) -> (r: Result<Endpoint, UrlError>)
        ensures
            match resolved {
                Ok(text) => r is Ok && r->Ok_0@ == text@,
                Err(cause) => r == Err::<Endpoint, UrlError>(UrlError { cause }),
            },
    {
        match resolved {
            Ok(text) => Ok(Endpoint { objects: text }),
            Err(cause) => Err(UrlError { cause }),
        }
    }

    /// The endpoint of the store at `base`. It fails exactly where `base`,
    /// ended by a `/`, is no URL or the object path cannot be resolved
    /// against it, and then gives the reason.
    pub fn resolve(base: &str) -> (r: Result<Endpoint, UrlError>)
        ensures
            is_endpoint(r, objects_url(base@)),
    {
        let normalized = ensure_trailing_slash(base);
        let root = match parse_url(normalized.as_str()) {
            Ok(root) => root,
            Err(cause) => {
                return Endpoint::from_resolved(Err(cause));
            },
        };
        proof {
            reveal_strlit("");
            assert(""@ =~= Seq::<char>::empty());
        }
        let root_again = match join_url(root.as_str(), "") {
            Ok(root_again) => root_again,
            Err(cause) => {
                return Endpoint::from_resolved(Err(cause));
            },
        };
        Endpoint::from_resolved(join_url(root_again.as_str(), "object/"))
    }

    /// The URL below which the objects are found, written out.
    pub fn as_str(&self) -> (text: &str)
        ensures
            text@ == self@,
    {
        self.objects.as_str()
    }

    /// Turns what the `url` crate made of an object's identifier into the
    /// object's URL or an error.
    pub fn located(joined: Result<String, ParseError>) -> (r: Result<String, UrlError>)
        ensures
            match joined {
                Ok(text) => r == Ok::<String, UrlError>(text),
                Err(cause) => r == Err::<String, UrlError>(UrlError { cause }),
            },
    {
        match joined {
            Ok(text) => Ok(text),
            Err(cause) => Err(UrlError { cause }),
        }
    }

    /// The URL of the object with the identifier `content_id`: the
    /// identifier resolved against the endpoint. It fails exactly where the
    /// identifier cannot be resolved, and then gives the reason.
    pub fn object_url(&self, content_id: &str) -> (r: Result<String, UrlError>)
        ensures
            is_location(r, url_joined(self@, content_id@)),
    {
        Endpoint::located(join_url(self.objects.as_str(), content_id))
    }
}

} // verus!
