//! The strategy for A/B firmware: the payload blob is staged once, and every
//! partition is handed to the payload decoder.

use crate::error::{missing_member, ErrorView, ExtractError};
use crate::extractor::Extractable;
use crate::path::{join, joined};
use crate::plan::{action_views, Action, ActionView, Await, AwaitView, Event, EventView, Step, StepView};
use crate::utils::ZipFile;
use vstd::prelude::*;

verus! {

/// Where the payload blob is staged.
pub open spec fn payload_path(tmpdir: Seq<char>) -> Seq<char> {
    joined(tmpdir, payload_member())
}

/// The staging of the payload blob.
pub open spec fn payload_staging(tmpdir: Seq<char>) -> ActionView {
    ActionView::Extract { member: payload_member(), destination: payload_path(tmpdir) }
}

/// The loading of the staged payload blob into the payload decoder.
pub open spec fn payload_loading(tmpdir: Seq<char>) -> ActionView {
    ActionView::Load { payload: payload_path(tmpdir) }
}

/// What the A/B strategy answers: to the request, the one action that hands the
/// partition to the payload decoder; to anything else, that nothing is left to do.
pub open spec fn ab_response(
    tmpdir: Seq<char>,
    partition: Seq<char>,
    output: Seq<char>,
    event: EventView,
) -> Result<StepView, ErrorView> {
    match event {
        EventView::Requested => Ok(
            StepView {
                actions: seq![
                    ActionView::Payload { payload: payload_path(tmpdir), partition, output },
                ],
                next: AwaitView::Nothing,
            },
        ),
        _ => Ok(StepView { actions: Seq::empty(), next: AwaitView::Nothing }),
    }
}

/// The A/B strategy, bound to a staging area.
#[derive(Clone, Debug)]
pub struct ABExtractor {
    tmpdir: String,
}

/// The path of the payload blob inside the archive.
pub open spec fn payload_member() -> Seq<char> {
    "payload.bin"@
}

impl View for ABExtractor {
    type V = Seq<char>;

    /// The path of the staging area.
    closed spec fn view(&self) -> Seq<char> {
        self.tmpdir@
    }
}

impl ABExtractor {
    /// Binds the strategy to the staging area at `tmpdir`: fails unless `archive`
    /// holds the payload blob at its top.
    pub fn try_from(archive: ZipFile, tmpdir: &str) -> (bound: Result<ABExtractor, ExtractError>)
        ensures
            archive@.contains(payload_member()) ==> bound is Ok && bound->Ok_0@ == tmpdir@,
            !archive@.contains(payload_member()) ==> bound is Err && bound->Err_0@
                == missing_member(payload_member()),
    {
        let payload_path = join(tmpdir, "payload.bin");
        match archive.extract("payload.bin", payload_path.as_str()) {
            Ok(_) => Ok(ABExtractor { tmpdir: tmpdir.to_owned() }),
            Err(error) => Err(error),
        }
    }

    /// The path at which the payload blob is staged.
    pub fn payload(&self) -> (path: String)
        ensures
            path@ == payload_path(self@),
    {
        join(self.tmpdir.as_str(), "payload.bin")
    }

    /// The staging of the payload blob, to be done once, before any partition is
    /// extracted.
    pub fn stage_payload(&self) -> (action: Action)
        ensures
            action@ == payload_staging(self@),
    {
        Action::Extract { member: "payload.bin".to_owned(), destination: self.payload() }
    }

    /// The loading of the staged payload blob, to be done once, right after it is
    /// staged: a blob that cannot be parsed fails the session before any partition
    /// is asked for.
    pub fn load_payload(&self) -> (action: Action)
        ensures
            action@ == payload_loading(self@),
    {
        Action::Load { payload: self.payload() }
    }
}

impl Extractable for ABExtractor {
    open spec fn response(
        &self,
        partition: Seq<char>,
        output: Seq<char>,
        event: EventView,
    ) -> Result<StepView, ErrorView> {
        ab_response(self@, partition, output, event)
    }

    fn extract(&self, partition: &str, output: &str, event: &Event) -> (answer: Result<
        Step,
        ExtractError,
    >) {
        let mut actions: Vec<Action> = Vec::new();
        match event {
            Event::Requested => {
                actions.push(
                    Action::Payload {
                        payload: self.payload(),
                        partition: partition.to_owned(),
                        output: output.to_owned(),
                    },
                );
                assert(action_views(actions@) =~= seq![
                    ActionView::Payload {
                        payload: payload_path(self@),
                        partition: partition@,
                        output: output@,
                    },
                ]);
            },
            _ => {
                assert(action_views(actions@) =~= Seq::<ActionView>::empty());
            },
        }
        Ok(Step { actions, next: Await::Nothing })
    }
}

} // verus!
