//! The strategy for Samsung `AP_*.tar.md5` firmware, which has no extraction logic.

use crate::error::{not_implemented, ErrorView, ExtractError};
use crate::extractor::Extractable;
use crate::plan::{Event, EventView, Step, StepView};
use crate::utils::ZipFile;
use vstd::prelude::*;

verus! {

/// The Samsung strategy, bound to an archive.
#[derive(Clone, Debug)]
pub struct ApTarMd5Extractor(pub ZipFile);

impl From<ZipFile> for ApTarMd5Extractor {
    /// Binds the strategy to `archive`.
    fn from(archive: ZipFile) -> (extractor: ApTarMd5Extractor) {
        ApTarMd5Extractor(archive)
    }
}

impl vstd::std_specs::convert::FromSpecImpl<ZipFile> for ApTarMd5Extractor {
    open spec fn obeys_from_spec() -> bool {
        true
    }

    open spec fn from_spec(archive: ZipFile) -> ApTarMd5Extractor {
        ApTarMd5Extractor(archive)
    }
}

impl Extractable for ApTarMd5Extractor {
    /// Every request is answered with the failure that nothing is implemented.
    open spec fn response(
        &self,
        partition: Seq<char>,
        output: Seq<char>,
        event: EventView,
    ) -> Result<StepView, ErrorView> {
        Err(not_implemented())
    }

    fn extract(&self, partition: &str, output: &str, event: &Event) -> (answer: Result<
        Step,
        ExtractError,
    >) {
        Err(ExtractError::not_implemented())
    }
}

} // verus!
