//! Web addresses, as the `url` crate parses and resolves them.
//!
//! An address is held as a `url::Url`. All that is known of one is its
//! text, and that the same input gives the same outcome every time.

use vstd::prelude::*;

verus! {

#[verifier::external_type_specification]
#[verifier::external_body]
pub struct ExUrl(url::Url);

#[verifier::external_type_specification]
#[verifier::external_body]
pub struct ExUrlParseError(url::ParseError);

/// The text of an address: its serialization.
pub uninterp spec fn url_text(address: url::Url) -> Seq<char>;

/// What parsing a text as an absolute address gives: the text of the
/// address, or the reason why there is none.
pub uninterp spec fn url_parse_outcome(input: Seq<char>) -> Result<Seq<char>, url::ParseError>;

/// What resolving a reference against a base address gives: the text of the
/// resulting address, or the reason why there is none.
pub uninterp spec fn url_join_outcome(base: Seq<char>, reference: Seq<char>) -> Result<
    Seq<char>,
    url::ParseError,
>;

/// `Url::parse`: parses an absolute address. The contract only names the
/// outcome.
#[verifier::external_body]
pub(crate) fn parse_url(input: &str) -> (r: Result<url::Url, url::ParseError>)
    ensures
        match r {
            Ok(address) => url_parse_outcome(input@) == Ok::<Seq<char>, url::ParseError>(
                url_text(address),
            ),
            Err(e) => url_parse_outcome(input@) == Err::<Seq<char>, url::ParseError>(e),
        },
{
    url::Url::parse(input)
}

/// `Url::join`: resolves a reference against a base address. The contract
/// only names the outcome, which the base address enters by its text.
#[verifier::external_body]
pub(crate) fn join_url(base: &url::Url, reference: &str) -> (r: Result<url::Url, url::ParseError>)
    ensures
        match r {
            Ok(address) => url_join_outcome(url_text(*base), reference@) == Ok::<
                Seq<char>,
                url::ParseError,
            >(url_text(address)),
            Err(e) => url_join_outcome(url_text(*base), reference@) == Err::<
                Seq<char>,
                url::ParseError,
            >(e),
        },
{
    base.join(reference)
}

/// `Url::as_str`: the text of an address.
#[verifier::external_body]
pub(crate) fn url_as_str(address: &url::Url) -> (r: &str)
    ensures
        r@ == url_text(*address),
{
    address.as_str()
}

} // verus!
