//! Links: addresses and what they are relative to.

use crate::text;
use crate::text::concat3;
use url::Url;
use vstd::prelude::*;

verus! {

/// The address that `Url::parse` reads from a text, in its normal form.
pub uninterp spec fn parsed_url(text: Seq<char>) -> Option<Seq<char>>;

/// The address that `Url::join` makes of a reference, relative to the address `base`.
pub uninterp spec fn joined_url(base: Seq<char>, reference: Seq<char>) -> Option<Seq<char>>;

/// `Url::parse` reads an absolute address, or fails; the address is handed on in its normal form.
#[verifier::external_body]
fn url_from_text(text: &str) -> (r: Option<String>)
    ensures
        r.deep_view() == parsed_url(text@),
{
    Url::parse(text).ok().map(String::from)
}

/// `Url::join` on the address that `base` is, in its normal form.
#[verifier::external_body]
fn join_urls(base: &str, reference: &str) -> (r: Option<String>)
    ensures
        r.deep_view() == joined_url(base@, reference@),
{
    Url::parse(base).ok().and_then(|url| url.join(reference).ok()).map(String::from)
}

/// An address in its normal form, or the message that it is none.
pub open spec fn base_address(base_url: Seq<char>) -> Result<Seq<char>, Seq<char>> {
    match parsed_url(base_url) {
        Some(address) => Ok(address),
        None => Err("invalid base URL"@),
    }
}

/// An address in its normal form, or the message that it is none.
pub fn parse_base_url(base_url: &str) -> (r: Result<String, String>)
    ensures
        text::outcome(r) == base_address(base_url@),
{
    match url_from_text(base_url) {
        Some(address) => Ok(address),
        None => Err("invalid base URL".to_owned()),
    }
}

/// A path of the site as an address, or the message given.
pub open spec fn site_address(
    base: Seq<char>,
    path: Seq<char>,
    message: Seq<char>,
) -> Result<Seq<char>, Seq<char>> {
    match joined_url(base, path) {
        Some(address) => Ok(address),
        None => Err(message),
    }
}

/// A path of the site as an address, or the message given.
pub fn site_url(base: &str, path: &str, message: &str) -> (r: Result<String, String>)
    ensures
        text::outcome(r) == site_address(base@, path@, message@),
{
    match join_urls(base, path) {
        Some(address) => Ok(address),
        None => Err(message.to_owned()),
    }
}

/// A reference as an address, relative to the page `base`; the white space around it does not
/// count.
pub open spec fn absolute(base: Seq<char>, raw: Seq<char>) -> Result<Seq<char>, Seq<char>> {
    match joined_url(base, text::trimmed(raw)) {
        Some(address) => Ok(address),
        None => Err("failed to resolve URL '"@ + text::trimmed(raw) + "'"@),
    }
}

/// A reference as an address, relative to the page `base`.
pub fn absolutize_url(base: &str, raw: &str) -> (r: Result<String, String>)
    ensures
        text::outcome(r) == absolute(base@, raw@),
{
    match join_urls(base, raw.trim()) {
        Some(address) => Ok(address),
        None => Err(concat3("failed to resolve URL '", raw.trim(), "'")),
    }
}

/// A reference is resolved against the page that it stands on; the white space around it makes no
/// difference, and the message where it cannot be resolved names it.
pub proof fn law_absolute(base: Seq<char>, raw: Seq<char>, address: Seq<char>)
    ensures
        absolute(base, raw) == absolute(base, text::trimmed(raw)),
        absolute(base, raw) == Ok::<Seq<char>, Seq<char>>(address) <==> joined_url(
            base,
            text::trimmed(raw),
        ) == Some(address),
        joined_url(base, text::trimmed(raw)) is None ==> absolute(base, raw) == Err::<
            Seq<char>,
            Seq<char>,
        >("failed to resolve URL '"@ + text::trimmed(raw) + "'"@),
{
    text::lemma_trimmed_twice(raw);
}

/// The address of a site is the one that its text is in normal form, and a path of the site is
/// resolved against it, as it is. Each is refused exactly where there is no such address, with
/// its own message.
pub proof fn law_site(
    base: Seq<char>,
    path: Seq<char>,
    message: Seq<char>,
    address: Seq<char>,
)
    ensures
        base_address(base) == Ok::<Seq<char>, Seq<char>>(address) <==> parsed_url(base) == Some(
            address,
        ),
        parsed_url(base) is None ==> base_address(base) == Err::<Seq<char>, Seq<char>>(
            "invalid base URL"@,
        ),
        site_address(base, path, message) == Ok::<Seq<char>, Seq<char>>(address) <==> joined_url(
            base,
            path,
        ) == Some(address),
        joined_url(base, path) is None ==> site_address(base, path, message) == Err::<
            Seq<char>,
            Seq<char>,
        >(message),
{
}

} // verus!
