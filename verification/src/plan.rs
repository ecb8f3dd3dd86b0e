//! What the library asks of its host: the steps of an extraction, the work each
//! step holds, and what the host reports back.
//!
//! The library decides; the host reads and writes. The host performs the actions of
//! a step in order and stops at the first that fails.

use vstd::prelude::*;

verus! {

/// The decoders for compressed staged files.
#[derive(Clone, Copy, Debug, PartialEq, Eq, Structural)]
pub enum Backend {
    /// The general archive decoder, for `.xz`.
    Xz,
    /// The streaming Brotli decoder, for `.br`.
    Brotli,
}

/// One piece of work for the host.
#[derive(Clone, Debug, PartialEq, Eq)]
pub enum Action {
    /// Write the archive member `member` to the new file `destination`.
    Extract { member: String, destination: String },
    /// Write the archive member `member` to the end of `destination`, which is
    /// created if it is missing.
    Append { member: String, destination: String },
    /// Decode `source` with `backend` into the new file `destination`, then
    /// delete `source`.
    Decompress { backend: Backend, source: String, destination: String },
    /// Rename `source` to `destination`.
    Move { source: String, destination: String },
    /// Decode the sparse stream `data` as `transfer_list` describes into `partial`,
    /// and rename `partial` to `image` once all of it is written; delete `partial`
    /// if decoding fails.
    Unsparse { transfer_list: String, data: String, partial: String, image: String },
    /// Load the payload blob at `payload` into the payload decoder, which parses it
    /// and is kept for the rest of the session.
    Load { payload: String },
    /// Let the payload decoder, loaded from `payload`, write `partition` into the
    /// directory `output`.
    Payload { payload: String, partition: String, output: String },
}

/// An `Action` as a mathematical value.
pub enum ActionView {
    Extract { member: Seq<char>, destination: Seq<char> },
    Append { member: Seq<char>, destination: Seq<char> },
    Decompress { backend: Backend, source: Seq<char>, destination: Seq<char> },
    Move { source: Seq<char>, destination: Seq<char> },
    Unsparse { transfer_list: Seq<char>, data: Seq<char>, partial: Seq<char>, image: Seq<char> },
    Load { payload: Seq<char> },
    Payload { payload: Seq<char>, partition: Seq<char>, output: Seq<char> },
}

impl View for Action {
    type V = ActionView;

    open spec fn view(&self) -> ActionView {
        match *self {
            Action::Extract { member, destination } => ActionView::Extract {
                member: member@,
                destination: destination@,
            },
            Action::Append { member, destination } => ActionView::Append {
                member: member@,
                destination: destination@,
            },
            Action::Decompress { backend, source, destination } => ActionView::Decompress {
                backend,
                source: source@,
                destination: destination@,
            },
            Action::Move { source, destination } => ActionView::Move {
                source: source@,
                destination: destination@,
            },
            Action::Unsparse { transfer_list, data, partial, image } => ActionView::Unsparse {
                transfer_list: transfer_list@,
                data: data@,
                partial: partial@,
                image: image@,
            },
            Action::Load { payload } => ActionView::Load { payload: payload@ },
            Action::Payload { payload, partition, output } => ActionView::Payload {
                payload: payload@,
                partition: partition@,
                output: output@,
            },
        }
    }
}

/// The actions that `actions` hold, as mathematical values.
pub open spec fn action_views(actions: Seq<Action>) -> Seq<ActionView> {
    actions.map_values(|action: Action| action@)
}

/// One entry of the staging area, as the host found it.
#[derive(Clone, Debug, PartialEq, Eq)]
pub struct StagedEntry {
    /// The entry's name, without its directory.
    pub name: String,
    /// Whether the entry is a regular file.
    pub is_file: bool,
}

/// A `StagedEntry` as a mathematical value.
pub struct EntryView {
    pub name: Seq<char>,
    pub is_file: bool,
}

impl View for StagedEntry {
    type V = EntryView;

    open spec fn view(&self) -> EntryView {
        EntryView { name: self.name@, is_file: self.is_file }
    }
}

/// The entries that `entries` hold, as mathematical values.
pub open spec fn entry_views(entries: Seq<StagedEntry>) -> Seq<EntryView> {
    entries.map_values(|entry: StagedEntry| entry@)
}

/// What the host reports to get the next step.
#[derive(Clone, Debug, PartialEq, Eq)]
pub enum Event {
    /// Extraction of the partition is asked for; nothing was done yet.
    Requested,
    /// The staging actions are done; `entries` is what the staging area holds now,
    /// in the order the directory gave them.
    Staged { entries: Vec<StagedEntry> },
    /// The dispatch actions are done; the two flags say whether the sparse data and
    /// the transfer list that the step named are there.
    Dispatched { sparse_data: bool, transfer_list: bool },
}

/// An `Event` as a mathematical value.
pub enum EventView {
    Requested,
    Staged { entries: Seq<EntryView> },
    Dispatched { sparse_data: bool, transfer_list: bool },
}

impl View for Event {
    type V = EventView;

    open spec fn view(&self) -> EventView {
        match *self {
            Event::Requested => EventView::Requested,
            Event::Staged { entries } => EventView::Staged { entries: entry_views(entries@) },
            Event::Dispatched { sparse_data, transfer_list } => EventView::Dispatched {
                sparse_data,
                transfer_list,
            },
        }
    }
}

/// What the host does once the actions of a step are done.
#[derive(Clone, Debug, PartialEq, Eq)]
pub enum Await {
    /// List the entries of `directory` and report them with `Event::Staged`.
    Listing { directory: String },
    /// Test whether the two paths exist and report that with `Event::Dispatched`.
    Presence { sparse_data: String, transfer_list: String },
    /// Nothing: the partition is extracted.
    Nothing,
}

/// An `Await` as a mathematical value.
pub enum AwaitView {
    Listing { directory: Seq<char> },
    Presence { sparse_data: Seq<char>, transfer_list: Seq<char> },
    Nothing,
}

impl View for Await {
    type V = AwaitView;

    open spec fn view(&self) -> AwaitView {
        match *self {
            Await::Listing { directory } => AwaitView::Listing { directory: directory@ },
            Await::Presence { sparse_data, transfer_list } => AwaitView::Presence {
                sparse_data: sparse_data@,
                transfer_list: transfer_list@,
            },
            Await::Nothing => AwaitView::Nothing,
        }
    }
}

/// One step of an extraction: work for the host, and what it reports afterwards.
#[derive(Clone, Debug, PartialEq, Eq)]
pub struct Step {
    pub actions: Vec<Action>,
    pub next: Await,
}

/// A `Step` as a mathematical value.
pub struct StepView {
    pub actions: Seq<ActionView>,
    pub next: AwaitView,
}

impl View for Step {
    type V = StepView;

    open spec fn view(&self) -> StepView {
        StepView { actions: action_views(self.actions@), next: self.next@ }
    }
}

} // verus!
