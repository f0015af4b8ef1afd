//! Source locations: the URL under which a package, or the repository that
//! holds it, is found.

use vstd::prelude::*;

verus! {

/// What the library reads out of a URL, as plain values.
pub struct UrlView {
    /// The whole URL in its normal form.
    pub text: Seq<char>,
    /// The scheme, without the colon.
    pub scheme: Seq<char>,
    /// The path component.
    pub path: Seq<char>,
}

/// A parsed URL.
#[derive(Debug)]
pub struct Url {
    text: String,
    scheme: String,
    path: String,
}

impl View for Url {
    type V = UrlView;

    closed spec fn view(&self) -> UrlView {
        UrlView { text: self.text@, scheme: self.scheme@, path: self.path@ }
    }
}

/// What `url::Url::parse` makes of a text: the normal form, the scheme and
/// the path of the URL it reads, or nothing where it rejects the text.
pub uninterp spec fn url_parts(text: Seq<char>) -> Option<UrlView>;

/// Calls `url::Url::parse` and copies out of the URL it returns what
/// `as_str`, `scheme` and `path` give. The contract only names the outcome:
/// the three strings are those of `url_parts` on the same text, and there
/// are none where the parser reports an error.
#[verifier::external_body]
fn parse_url(text: &str) -> (r: Option<Url>)
    ensures
        match r {
            Some(u) => url_parts(text@) == Some(u@),
            None => url_parts(text@) is None,
        },
{
    match ::url::Url::parse(text) {
        Ok(u) => Some(
            Url {
                text: u.as_str().to_owned(),
                scheme: u.scheme().to_owned(),
                path: u.path().to_owned(),
            },
        ),
        Err(_) => None,
    }
}

impl Url {
    /// Reads an absolute URL. The answer is `None` exactly where the text
    /// is none.
    pub fn parse(text: &str) -> (r: Option<Url>)
        ensures
            match r {
                Some(u) => url_parts(text@) == Some(u@),
                None => url_parts(text@) is None,
            },
    {
        parse_url(text)
    }

    /// The whole URL in its normal form.
    pub fn as_str(&self) -> (r: &str)
        ensures
            r@ == self@.text,
    {
        self.text.as_str()
    }

    pub fn get_scheme(&self) -> (r: &str)
        ensures
            r@ == self@.scheme,
    {
        self.scheme.as_str()
    }

    pub fn get_path(&self) -> (r: &str)
        ensures
            r@ == self@.path,
    {
        self.path.as_str()
    }
}

impl Clone for Url {
    fn clone(&self) -> (r: Url)
        ensures
            r@ == self@,
    {
        Url { text: self.text.clone(), scheme: self.scheme.clone(), path: self.path.clone() }
    }
}

impl PartialEq for Url {
    fn eq(&self, other: &Url) -> (r: bool) {
        self.text == other.text && self.scheme == other.scheme && self.path == other.path
    }
}

impl vstd::std_specs::cmp::PartialEqSpecImpl for Url {
    open spec fn obeys_eq_spec() -> bool {
        true
    }

    open spec fn eq_spec(&self, other: &Url) -> bool {
        self@ == other@
    }
}

impl Eq for Url {

}

} // verus!
