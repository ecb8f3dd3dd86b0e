//! Extraction strategies, one per firmware kind, and the session that binds an
//! archive to the strategy of its kind.

pub mod abextractor;
pub mod aonlyextractor;
pub mod aptarmd5extractor;
pub mod sparsechunkextractor;

use crate::detect::{classify, detect, FirmwareKind};
use crate::error::{missing_member, unsupported_firmware, ErrorView, ExtractError};
use crate::extractor::abextractor::{
    payload_loading, payload_member, payload_staging, ABExtractor,
};
use crate::extractor::aonlyextractor::{AOnlyExtractor, AOnlyView};
use crate::extractor::aptarmd5extractor::ApTarMd5Extractor;
use crate::extractor::sparsechunkextractor::SparseChunkExtractor;
use crate::plan::{action_views, Action, ActionView, Event, EventView, Step, StepView};
use crate::utils::{all_named, member_names, ZipFile};
use vstd::prelude::*;

verus! {

/// The answer of a strategy as a mathematical value.
pub open spec fn answer_view(answer: Result<Step, ExtractError>) -> Result<StepView, ErrorView> {
    match answer {
        Ok(step) => Ok(step@),
        Err(error) => Err(error@),
    }
}

/// A strategy that extracts partitions, step by step.
///
/// The host starts with `Event::Requested`, performs the actions of the step it
/// gets, reports what the step asks for, and goes on until a step asks for nothing.
pub trait Extractable {
    /// What the strategy answers to `event` while `partition` is extracted into
    /// the directory `output`.
    spec fn response(&self, partition: Seq<char>, output: Seq<char>, event: EventView) -> Result<
        StepView,
        ErrorView,
    >;

    /// The next step in extracting `partition` into the directory `output`.
    fn extract(&self, partition: &str, output: &str, event: &Event) -> (answer: Result<
        Step,
        ExtractError,
    >)
        ensures
            answer_view(answer) == self.response(partition@, output@, event@),
    ;
}

/// The strategies, one for each firmware kind that is recognised.
#[derive(Clone, Debug)]
pub enum Strategy {
    AOnly(AOnlyExtractor),
    ABPayload(ABExtractor),
    SamsungTar(ApTarMd5Extractor),
    SparseChunk(SparseChunkExtractor),
}

/// A session that is bound: an archive together with the strategy of its kind.
#[derive(Clone, Debug)]
pub struct Extractor {
    pub extractor: Strategy,
}

/// A bound session as a mathematical value.
pub enum ExtractorView {
    /// A-only: the members of the archive and the staging area.
    AOnly(AOnlyView),
    /// A/B: the staging area.
    ABPayload(Seq<char>),
    /// Samsung: the members of the archive.
    SamsungTar(Seq<Seq<char>>),
    /// Sparse chunk: the members of the archive.
    SparseChunk(Seq<Seq<char>>),
}

impl View for Extractor {
    type V = ExtractorView;

    open spec fn view(&self) -> ExtractorView {
        match self.extractor {
            Strategy::AOnly(inner) => ExtractorView::AOnly(inner@),
            Strategy::ABPayload(inner) => ExtractorView::ABPayload(inner@),
            Strategy::SamsungTar(inner) => ExtractorView::SamsungTar(inner.0@),
            Strategy::SparseChunk(inner) => ExtractorView::SparseChunk(inner.0@),
        }
    }
}

/// What comes of binding the archive with the members `members` to the staging
/// area `tmpdir`: the strategy of the archive's kind; a failure for an archive of
/// no known kind, and for an A/B archive that holds no payload blob at its top.
pub open spec fn binding(members: Seq<Seq<char>>, tmpdir: Seq<char>) -> Result<
    ExtractorView,
    ErrorView,
> {
    match detect(member_names(members)) {
        FirmwareKind::AOnly => Ok(ExtractorView::AOnly(AOnlyView { members, tmpdir })),
        FirmwareKind::ABPayload => if members.contains(payload_member()) {
            Ok(ExtractorView::ABPayload(tmpdir))
        } else {
            Err(missing_member(payload_member()))
        },
        FirmwareKind::SamsungTar => Ok(ExtractorView::SamsungTar(members)),
        FirmwareKind::SparseChunk => Ok(ExtractorView::SparseChunk(members)),
        FirmwareKind::Unsupported => Err(unsupported_firmware()),
    }
}

/// The firmware kind that a bound session extracts.
pub open spec fn kind_of(session: ExtractorView) -> FirmwareKind {
    match session {
        ExtractorView::AOnly(_) => FirmwareKind::AOnly,
        ExtractorView::ABPayload(_) => FirmwareKind::ABPayload,
        ExtractorView::SamsungTar(_) => FirmwareKind::SamsungTar,
        ExtractorView::SparseChunk(_) => FirmwareKind::SparseChunk,
    }
}

/// What has to be done once, when the session is bound and before any partition
/// is extracted: for A/B firmware the payload blob is staged and loaded; the other
/// kinds need nothing.
pub open spec fn preparation(session: ExtractorView) -> Seq<ActionView> {
    match session {
        ExtractorView::ABPayload(tmpdir) => seq![payload_staging(tmpdir), payload_loading(tmpdir)],
        _ => Seq::empty(),
    }
}

/// A session is bound exactly if the archive is of a known kind, and is then bound
/// to the strategy of that kind; an archive of no known kind is rejected as
/// invalid data.
pub proof fn lemma_bound_or_rejected(members: Seq<Seq<char>>, tmpdir: Seq<char>)
    ensures
        detect(member_names(members)) == FirmwareKind::Unsupported ==> binding(members, tmpdir)
            == Err::<ExtractorView, ErrorView>(unsupported_firmware()),
        binding(members, tmpdir) matches Ok(session) ==> kind_of(session) == detect(
            member_names(members),
        ),
{
}

impl Extractor {
    /// Classifies `archive` and binds it, with the staging area at `tmpdir`, to
    /// the strategy of its kind. Every member of the archive must have a file name.
    pub fn try_from(archive: ZipFile, tmpdir: &str) -> (bound: Result<Extractor, ExtractError>)
        requires
            all_named(archive@),
        ensures
            match binding(archive@, tmpdir@) {
                Ok(session) => bound is Ok && bound->Ok_0@ == session,
                Err(error) => bound is Err && bound->Err_0@ == error,
            },
    {
        let names = archive.file_names();
        match classify(&names) {
            FirmwareKind::AOnly => Ok(
                Extractor { extractor: Strategy::AOnly(AOnlyExtractor::from(archive, tmpdir)) },
            ),
            FirmwareKind::ABPayload => match ABExtractor::try_from(archive, tmpdir) {
                Ok(inner) => Ok(Extractor { extractor: Strategy::ABPayload(inner) }),
                Err(error) => Err(error),
            },
            FirmwareKind::SamsungTar => Ok(
                Extractor { extractor: Strategy::SamsungTar(ApTarMd5Extractor::from(archive)) },
            ),
            FirmwareKind::SparseChunk => Ok(
                Extractor { extractor: Strategy::SparseChunk(SparseChunkExtractor::from(archive)) },
            ),
            FirmwareKind::Unsupported => Err(ExtractError::unsupported_firmware()),
        }
    }

    /// The firmware kind that this session extracts.
    pub fn kind(&self) -> (kind: FirmwareKind)
        ensures
            kind == kind_of(self@),
    {
        match &self.extractor {
            Strategy::AOnly(_) => FirmwareKind::AOnly,
            Strategy::ABPayload(_) => FirmwareKind::ABPayload,
            Strategy::SamsungTar(_) => FirmwareKind::SamsungTar,
            Strategy::SparseChunk(_) => FirmwareKind::SparseChunk,
        }
    }

    /// What the host has to do once, right after the session is bound.
    pub fn prepare(&self) -> (actions: Vec<Action>)
        ensures
            action_views(actions@) == preparation(self@),
    {
        let mut actions: Vec<Action> = Vec::new();
        match &self.extractor {
            Strategy::ABPayload(inner) => {
                actions.push(inner.stage_payload());
                actions.push(inner.load_payload());
                assert(action_views(actions@) =~= seq![
                    payload_staging(inner@),
                    payload_loading(inner@),
                ]);
            },
            _ => {
                assert(action_views(actions@) =~= Seq::<ActionView>::empty());
            },
        }
        actions
    }
}

impl Extractable for Extractor {
    /// A bound session answers as its strategy does.
    open spec fn response(
        &self,
        partition: Seq<char>,
        output: Seq<char>,
        event: EventView,
    ) -> Result<StepView, ErrorView> {
        match self.extractor {
            Strategy::AOnly(inner) => inner.response(partition, output, event),
            Strategy::ABPayload(inner) => inner.response(partition, output, event),
            Strategy::SamsungTar(inner) => inner.response(partition, output, event),
            Strategy::SparseChunk(inner) => inner.response(partition, output, event),
        }
    }

    fn extract(&self, partition: &str, output: &str, event: &Event) -> (answer: Result<
        Step,
        ExtractError,
    >) {
        match &self.extractor {
            Strategy::AOnly(inner) => inner.extract(partition, output, event),
            Strategy::ABPayload(inner) => inner.extract(partition, output, event),
            Strategy::SamsungTar(inner) => inner.extract(partition, output, event),
            Strategy::SparseChunk(inner) => inner.extract(partition, output, event),
        }
    }
}

} // verus!
