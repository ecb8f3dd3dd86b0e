//! The strategy for raw sparse-chunk firmware, which has no extraction logic.

use crate::error::{not_implemented, ErrorView, ExtractError};
use crate::extractor::Extractable;
use crate::plan::{Event, EventView, Step, StepView};
use crate::utils::ZipFile;
use vstd::prelude::*;

verus! {

/// The sparse-chunk strategy, bound to an archive.
#[derive(Clone, Debug)]
pub struct SparseChunkExtractor(pub ZipFile);

impl From<ZipFile> for SparseChunkExtractor {
    /// Binds the strategy to `archive`.
    fn from(archive: ZipFile) -> (extractor: SparseChunkExtractor) {
        SparseChunkExtractor(archive)
    }
}

impl vstd::std_specs::convert::FromSpecImpl<ZipFile> for SparseChunkExtractor {
    open spec fn obeys_from_spec() -> bool {
        true
    }

    open spec fn from_spec(archive: ZipFile) -> SparseChunkExtractor {
        SparseChunkExtractor(archive)
    }
}

impl Extractable for SparseChunkExtractor {
    /// Every request is answered with the failure that nothing is implemented.
    open spec fn response(
        &self,
        partition: Seq<char>,
        output: Seq<char>,
        event: EventView,
    ) -> Result<StepView, ErrorView> {
        Err(not_implemented())
    }

    fn extract(&self, partition: &str, output: &str, event: &Event) -> (answer: Result<
        Step,
        ExtractError,
    >) {
        Err(ExtractError::not_implemented())
    }
}

} // verus!
