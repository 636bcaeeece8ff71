//! The document scanner: one value, after blanks.

use crate::classes::{blank_delimiters, lemma_class_patterns, WHITESPACE};
use crate::error::{fail, failed, ErrorKind, ParseError};
use crate::text::{blanks, chars_of, skip_blanks};
use crate::types::{Document, Json};
use crate::value::{scan_value, value_at};
use vstd::prelude::*;

verus! {

/// The document that `s` starts with: the first value after leading blanks.
/// A number at this level ends at a blank or at the end of `s`. The
/// document's `skip` counts the blanks, the root's `skip` does not; what
/// follows the value is not looked at.
///
/// Fails with `ExpectedValue` where `s` holds nothing but blanks, and as the
/// scan of the value fails.
pub open spec fn scan_document(s: Seq<char>) -> Result<Document, ParseError> {
    let first = blanks(s, 0) as int;
    if first >= s.len() {
        failed(ErrorKind::ExpectedValue, first)
    } else {
        match scan_value(s, first, blank_delimiters()) {
            Ok(token) => Ok(Document { skip: first as nat + token.skip(), token }),
            Err(e) => Err(e),
        }
    }
}

/// What scanning a document produced, with the document replaced by its model.
pub open spec fn document_outcome(r: Result<Json, ParseError>) -> Result<Document, ParseError> {
    match r {
        Ok(document) => Ok(document@),
        Err(e) => Err(e),
    }
}

/// Scans the document that `json` starts with.
pub fn parse(json: &str) -> (r: Result<Json, ParseError>)
    ensures
        document_outcome(r) == scan_document(json@),
{
    let chars = chars_of(json);
    let first = skip_blanks(chars.as_slice(), 0);
    if first >= chars.len() {
        return fail(ErrorKind::ExpectedValue, first);
    }
    proof {
        lemma_class_patterns();
    }
    match value_at(chars.as_slice(), first, WHITESPACE) {
        Ok(token) => Ok(Json { skip: first + token.skip(), token: Box::new(token) }),
        Err(e) => Err(e),
    }
}

} // verus!
