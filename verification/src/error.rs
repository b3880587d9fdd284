//! Error types of the library.

use vstd::prelude::*;

verus! {

#[verifier::external_type_specification]
#[verifier::external_body]
pub struct ExUrlParseError(url::ParseError);

/// Why a scraped link was rejected by URL resolution.
#[derive(Debug)]
pub enum UrlParseError {
    /// The target could not be parsed or joined against the base.
    Parse(url::ParseError),
    /// The resolved URL's (scheme, host, port) triple differs from the base's.
    BadOrigin,
}

/// The link-extraction machinery itself failed (not any single link).
/// This is fatal for the task it happened in, unlike a failed fetch,
/// which is absorbed silently.
#[derive(Debug)]
pub struct ExtractError;

} // verus!
