//! The address of the search service that receives decoded frames.
use vstd::prelude::*;
use url::{ParseError, Url};

verus! {

#[verifier::external_type_specification]
#[verifier::external_body]
pub struct ExUrl(Url);

#[verifier::external_type_specification]
#[verifier::external_body]
pub struct ExParseError(ParseError);

/// Whether `url::Url::parse` reads an absolute URL from a text.
pub uninterp spec fn url_parses(s: Seq<char>) -> bool;

/// Relies on `url::Url::parse`: it accepts or refuses a text by the text alone.
pub assume_specification[ Url::parse ](input: &str) -> (r: Result<Url, ParseError>)
    ensures
        r is Ok <==> url_parses(input@),
;

/// Relies on `url::Url::cannot_be_a_base`: whether the scheme's `:` is not followed by `/`.
pub assume_specification[ Url::cannot_be_a_base ](u: &Url) -> bool;

/// Relies on `url::Url::scheme`: the URL's scheme, without its `:`.
pub assume_specification<'a>[ Url::scheme ](u: &'a Url) -> &'a str;

/// Why an address of the search service is refused.
#[derive(Debug)]
pub enum EsUrlError {
    /// The text is no absolute URL.
    Invalid(ParseError),
    /// The URL has no path of its own to build on (as `data:` and `mailto:` URLs).
    CannotBeABase,
    /// The scheme is neither `http` nor `https`.
    NotHttp,
}

/// Whether a scheme is `http` or `https`.
pub open spec fn is_http_scheme(scheme: Seq<char>) -> bool {
    scheme == "http"@ || scheme == "https"@
}

/// Judges a parsed address by whether it can be a base and by its scheme: it is accepted
/// when it can be a base and speaks `http` or `https`.
pub fn judge_es_url(cannot_be_a_base: bool, scheme: &str) -> (r: Result<(), EsUrlError>)
    ensures
        cannot_be_a_base ==> r matches Err(EsUrlError::CannotBeABase),
        !cannot_be_a_base && !is_http_scheme(scheme@) ==> r matches Err(EsUrlError::NotHttp),
        !cannot_be_a_base && is_http_scheme(scheme@) ==> r is Ok,
{
    if cannot_be_a_base {
        Err(EsUrlError::CannotBeABase)
    } else if crate::text::same_text(scheme, "http") || crate::text::same_text(scheme, "https") {
        Ok(())
    } else {
        Err(EsUrlError::NotHttp)
    }
}

/// Reads and checks the address of the search service. A text that `Url::parse` refuses is
/// `Invalid`; an accepted one is then judged as `judge_es_url` says.
pub fn check_es_url(text: &str) -> (r: Result<Url, EsUrlError>)
    ensures
        r matches Err(EsUrlError::Invalid(_)) <==> !url_parses(text@),
{
    match Url::parse(text) {
        Ok(u) => {
            let opaque = u.cannot_be_a_base();
            match judge_es_url(opaque, u.scheme()) {
                Ok(()) => Ok(u),
                Err(e) => Err(e),
            }
        },
        Err(e) => Err(EsUrlError::Invalid(e)),
    }
}

} // verus!
