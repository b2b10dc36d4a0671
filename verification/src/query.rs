//! The query pipeline's checks and page preparation: whether the stored
//! index may serve a query at all, whether a query embedding fits it, and
//! how a rendered page is cleaned for the prompt.

use vstd::prelude::*;
use crate::config::Config;
use crate::config;
use crate::text;

verus! {

/// Byte budget for the manpage text handed to the model.
pub const MAX_CONTENT_LENGTH: usize = 8000;

/// Prepares a rendered page for the prompt: ANSI escapes removed,
/// whitespace runs collapsed, and the text cut to the content budget on a
/// character boundary with the cut marked.
pub fn sanitize_page_content(content: &str) -> (r: String)
    ensures
        r@ == text::spec_truncate_with_marker(
            text::spec_clean_page(content@),
            MAX_CONTENT_LENGTH as int,
            "\n\n[Content truncated...]"@,
        ),
{
    let cleaned = text::clean_escape_sequences(content);
    text::truncate_content(cleaned.as_str(), MAX_CONTENT_LENGTH)
}

/// Why a query cannot be served before any embedding is computed.
#[derive(Debug, Clone, PartialEq)]
pub enum SearchGateError {
    /// No index exists yet.
    IndexMissing,
    /// The index was built with another embedding model.
    IndexStale {
        /// The model the index was built with.
        old_model: String,
        /// The model the configuration names now.
        new_model: String,
    },
    /// The index records no embedding model at all.
    FingerprintUnknown,
}

/// Gate of the query pipeline: a query may proceed only when an index
/// exists, was built with the configured embedding model, and records
/// that model. Each refusal names its reason; a stale index names both
/// models.
pub fn validate_search(index_exists: bool, config: &Config) -> (r: Result<(), SearchGateError>)
    ensures
        !index_exists ==> r == Err::<(), SearchGateError>(SearchGateError::IndexMissing),
        index_exists && config::spec_needs_rebuild(*config) ==> r == Err::<(), SearchGateError>(
            SearchGateError::IndexStale {
                old_model: config.index.last_embedding_model->0,
                new_model: config.models.embedding_model,
            },
        ),
        index_exists && !config::spec_needs_rebuild(*config)
            && config.index.last_embedding_model is None ==> r == Err::<(), SearchGateError>(
            SearchGateError::FingerprintUnknown,
        ),
        index_exists && !config::spec_needs_rebuild(*config)
            && config.index.last_embedding_model is Some ==> r is Ok,
{
    if !index_exists {
        return Err(SearchGateError::IndexMissing);
    }
    match &config.index.last_embedding_model {
        Some(last) => {
            if !text::str_eq(last.as_str(), config.models.embedding_model.as_str()) {
                Err(
                    SearchGateError::IndexStale {
                        old_model: last.clone(),
                        new_model: config.models.embedding_model.clone(),
                    },
                )
            } else {
                Ok(())
            }
        },
        None => Err(SearchGateError::FingerprintUnknown),
    }
}

/// Whether a query embedding fits the stored index: the recorded
/// dimension exists and equals the embedding's length.
pub fn dimension_matches(expected: Option<u32>, got: usize) -> (r: bool)
    ensures
        r == (expected matches Some(d) && got == d),
{
    match expected {
        Some(d) => got == d as usize,
        None => false,
    }
}

} // verus!
