//! The strategy for A-only firmware: the files of a partition are staged, numbered
//! chunks are put together in the order of their numbers, compressed files are
//! decompressed, and the sparse data is turned into the partition's image.

use crate::error::{missing_transfer_list, ErrorView, ExtractError};
use crate::extractor::Extractable;
use crate::member::{
    base_name, base_name_of, belongs_to, belongs_to_partition, extension_of, has_extension,
    image_name, is_numbered_chunk, lemma_short_extension, numbered_chunk, sparse_data_name,
    stem_of, transfer_list_name,
};
use crate::order::{chunk_order, sort_chunks};
use crate::path::{file_name, file_name_of, is_plain, join, joined};
use crate::plan::{
    action_views, entry_views, Action, ActionView, Await, AwaitView, Backend, EntryView, Event,
    EventView, StagedEntry, Step, StepView,
};
use crate::sequence::lemma_filter_push;
use crate::text::{chars_of, ends_with, find_after_last, lemma_after_last, same_text, texts};
use crate::utils::ZipFile;
use vstd::prelude::*;

verus! {

/// Picks the members that are files of `partition` in their final form: its image,
/// its transfer list, its sparse data whole or compressed.
pub open spec fn direct_member(partition: Seq<char>) -> spec_fn(Seq<char>) -> bool {
    |path: Seq<char>| belongs_to(partition, path) && !is_numbered_chunk(path)
}

/// Picks the members that are numbered chunks of the sparse data of `partition`.
pub open spec fn numbered_member(partition: Seq<char>) -> spec_fn(Seq<char>) -> bool {
    |path: Seq<char>| belongs_to(partition, path) && is_numbered_chunk(path)
}

/// Stages a member under its own name.
pub open spec fn to_extraction(tmpdir: Seq<char>) -> spec_fn(Seq<char>) -> ActionView {
    |path: Seq<char>|
        ActionView::Extract { member: path, destination: joined(tmpdir, base_name_of(path)) }
}

/// Adds a chunk to the staged sparse data of `partition`.
pub open spec fn to_appending(tmpdir: Seq<char>, partition: Seq<char>) -> spec_fn(
    Seq<char>,
) -> ActionView {
    |path: Seq<char>|
        ActionView::Append {
            member: path,
            destination: joined(tmpdir, sparse_data_name(partition)),
        }
}

/// The staging of `partition`: every direct member is staged under its own name,
/// in archive order; after that the numbered chunks are added, in chunk order, to
/// one staged file that bears the name of the sparse data.
pub open spec fn staging_plan(
    tmpdir: Seq<char>,
    partition: Seq<char>,
    members: Seq<Seq<char>>,
) -> Seq<ActionView> {
    members.filter(direct_member(partition)).map_values(to_extraction(tmpdir)) + chunk_order(
        members.filter(numbered_member(partition)),
    ).map_values(to_appending(tmpdir, partition))
}

/// The decoder for a compressed file named `name`: the archive decoder for the
/// extension `xz`, the Brotli decoder for any other.
pub open spec fn backend_for(name: Seq<char>) -> Backend {
    if extension_of(name) == "xz"@ {
        Backend::Xz
    } else {
        Backend::Brotli
    }
}

/// The decompression of the file at `source`, whose name is `name`: it is decoded
/// into the staging area, under its name without the extension.
pub open spec fn decompression(tmpdir: Seq<char>, source: Seq<char>, name: Seq<char>) -> ActionView {
    ActionView::Decompress {
        backend: backend_for(name),
        source,
        destination: joined(tmpdir, stem_of(name)),
    }
}

/// The entry is a finished image: a regular file whose name ends in `.img`.
pub open spec fn is_image(entry: EntryView) -> bool {
    entry.is_file && ".img"@.is_suffix_of(entry.name)
}

/// The entry is a compressed file: a regular file whose name ends in `.xz` or
/// `.br` and has a name of its own before that.
pub open spec fn is_compressed(entry: EntryView) -> bool {
    &&& entry.is_file
    &&& entry.name.len() > 3
    &&& (".xz"@.is_suffix_of(entry.name) || ".br"@.is_suffix_of(entry.name))
    &&& is_plain(entry.name.take(entry.name.len() - 3))
}

/// Picks the compressed files.
pub open spec fn compressed_entry() -> spec_fn(EntryView) -> bool {
    |entry: EntryView| is_compressed(entry)
}

/// Decompresses a staged entry where it lies.
pub open spec fn to_decompression(tmpdir: Seq<char>) -> spec_fn(EntryView) -> ActionView {
    |entry: EntryView| decompression(tmpdir, joined(tmpdir, entry.name), entry.name)
}

/// The position of the first finished image among `entries`; their number if there
/// is none.
pub open spec fn first_image(entries: Seq<EntryView>) -> nat
    decreases entries.len(),
{
    if entries.len() == 0 {
        0
    } else if is_image(entries[0]) {
        0
    } else {
        1 + first_image(entries.drop_first())
    }
}

/// The move of a finished image out of the staging area into `output`.
pub open spec fn delivery(tmpdir: Seq<char>, output: Seq<char>, entry: EntryView) -> ActionView {
    ActionView::Move {
        source: joined(tmpdir, entry.name),
        destination: joined(output, entry.name),
    }
}

/// What is done with the staged `entries`, taken in the order given, and whether
/// this finishes the partition: the compressed files that come before the first
/// finished image are decompressed, and that image, if there is one, is moved to
/// `output`, which finishes the partition.
pub open spec fn dispatch_plan(tmpdir: Seq<char>, output: Seq<char>, entries: Seq<EntryView>) -> (
    Seq<ActionView>,
    bool,
) {
    let found = first_image(entries) as int;
    let decompressions = entries.take(found).filter(compressed_entry()).map_values(
        to_decompression(tmpdir),
    );
    if found < entries.len() {
        (decompressions.push(delivery(tmpdir, output, entries[found])), true)
    } else {
        (decompressions, false)
    }
}

/// The decoding of the staged sparse data of `partition` into its image in
/// `output`. The image is written under another name and gets its own once it is
/// complete.
pub open spec fn unsparsing(tmpdir: Seq<char>, partition: Seq<char>, output: Seq<char>) -> ActionView {
    sparse_decoding(
        joined(tmpdir, transfer_list_name(partition)),
        joined(tmpdir, sparse_data_name(partition)),
        joined(output, image_name(partition)),
    )
}

/// The decoding of the sparse stream `sparse_file`, as `transfer_list` describes,
/// into the image `output`.
pub open spec fn sparse_decoding(
    transfer_list: Seq<char>,
    sparse_file: Seq<char>,
    output: Seq<char>,
) -> ActionView {
    ActionView::Unsparse {
        transfer_list,
        data: sparse_file,
        partial: output + ".partial"@,
        image: output,
    }
}

/// What is done once the staged files are dispatched, given whether the sparse
/// data and the transfer list of `partition` are staged: nothing without sparse
/// data; a failure for sparse data without its transfer list; else the decoding.
pub open spec fn materialize_plan(
    tmpdir: Seq<char>,
    partition: Seq<char>,
    output: Seq<char>,
    sparse_data: bool,
    transfer_list: bool,
) -> Result<Seq<ActionView>, ErrorView> {
    if !sparse_data {
        Ok(Seq::empty())
    } else if !transfer_list {
        Err(missing_transfer_list(partition))
    } else {
        Ok(seq![unsparsing(tmpdir, partition, output)])
    }
}

/// What the A-only strategy answers: to the request, the staging, after which the
/// staging area is listed; to the listing, the dispatch, after which the sparse data
/// and the transfer list are looked for unless an image finished the partition; to
/// what was found of the two, the decoding of the sparse data, or the failure.
pub open spec fn a_only_response(
    this: AOnlyView,
    partition: Seq<char>,
    output: Seq<char>,
    event: EventView,
) -> Result<StepView, ErrorView> {
    match event {
        EventView::Requested => Ok(
            StepView {
                actions: staging_plan(this.tmpdir, partition, this.members),
                next: AwaitView::Listing { directory: this.tmpdir },
            },
        ),
        EventView::Staged { entries } => {
            let plan = dispatch_plan(this.tmpdir, output, entries);
            Ok(
                StepView {
                    actions: plan.0,
                    next: if plan.1 {
                        AwaitView::Nothing
                    } else {
                        AwaitView::Presence {
                            sparse_data: joined(this.tmpdir, sparse_data_name(partition)),
                            transfer_list: joined(this.tmpdir, transfer_list_name(partition)),
                        }
                    },
                },
            )
        },
        EventView::Dispatched { sparse_data, transfer_list } => match materialize_plan(
            this.tmpdir,
            partition,
            output,
            sparse_data,
            transfer_list,
        ) {
            Ok(actions) => Ok(StepView { actions, next: AwaitView::Nothing }),
            Err(error) => Err(error),
        },
    }
}

/// The first image is where an image stands that no image comes before.
pub proof fn lemma_first_image(entries: Seq<EntryView>, at: int)
    requires
        0 <= at <= entries.len(),
        forall|i: int| 0 <= i < at ==> !is_image(#[trigger] entries[i]),
        at < entries.len() ==> is_image(entries[at]),
    ensures
        first_image(entries) == at,
    decreases at,
{
    if at > 0 {
        let rest = entries.drop_first();
        assert(!is_image(entries[0]));
        assert forall|i: int| 0 <= i < at - 1 implies !is_image(#[trigger] rest[i]) by {
            assert(rest[i] == entries[i + 1]);
        }
        lemma_first_image(rest, at - 1);
    }
}

/// Where an image is staged, the first image lies at or before it.
pub proof fn lemma_first_image_found(entries: Seq<EntryView>, at: int)
    requires
        0 <= at < entries.len(),
        is_image(entries[at]),
    ensures
        first_image(entries) <= at,
        is_image(entries[first_image(entries) as int]),
    decreases entries.len(),
{
    if !is_image(entries[0]) {
        let rest = entries.drop_first();
        assert(rest[at - 1] == entries[at]);
        lemma_first_image_found(rest, at - 1);
        assert(rest[first_image(rest) as int] == entries[first_image(rest) as int + 1]);
    }
}

/// A finished image among the staged files finishes the partition: the step ends
/// with the move of the first such image into the output directory, nothing is
/// asked of the host afterwards, and no sparse data is decoded.
pub proof fn lemma_image_finishes(
    this: AOnlyView,
    partition: Seq<char>,
    output: Seq<char>,
    entries: Seq<EntryView>,
    at: int,
)
    requires
        0 <= at < entries.len(),
        is_image(entries[at]),
    ensures
        a_only_response(this, partition, output, EventView::Staged { entries }) matches Ok(step)
            && {
            &&& step.next == AwaitView::Nothing
            &&& step.actions.len() > 0
            &&& step.actions.last() == delivery(
                this.tmpdir,
                output,
                entries[first_image(entries) as int],
            )
            &&& forall|i: int|
                0 <= i < step.actions.len() ==> !(#[trigger] step.actions[i] is Unsparse)
        },
{
    lemma_first_image_found(entries, at);
}

/// An image reaches the output directory in one of two ways and never in both: a
/// staged image is moved there, or the sparse data is decoded into it. Staging
/// brings neither about; the step after the listing moves an image exactly if it
/// asks nothing more of the host, and decodes nothing; the last step moves nothing.
pub proof fn lemma_one_way_to_an_image(
    this: AOnlyView,
    partition: Seq<char>,
    output: Seq<char>,
    event: EventView,
)
    ensures
        a_only_response(this, partition, output, event) matches Ok(step) ==> {
            &&& event is Requested ==> forall|i: int|
                0 <= i < step.actions.len() ==> !(#[trigger] step.actions[i] is Move)
                    && !(step.actions[i] is Unsparse)
            &&& event is Staged ==> forall|i: int|
                0 <= i < step.actions.len() ==> !(#[trigger] step.actions[i] is Unsparse)
            &&& event is Staged ==> ((exists|i: int|
                0 <= i < step.actions.len() && #[trigger] step.actions[i] is Move)
                <==> step.next == AwaitView::Nothing)
            &&& event is Dispatched ==> forall|i: int|
                0 <= i < step.actions.len() ==> !(#[trigger] step.actions[i] is Move)
        },
{
    match event {
        EventView::Staged { entries } => {
            let plan = dispatch_plan(this.tmpdir, output, entries);
            if plan.1 {
                assert(plan.0[plan.0.len() - 1] is Move);
            }
        },
        _ => {},
    }
}

/// Sparse data without its transfer list is not decoded: the step fails as not
/// found, and with it no action is handed to the host.
pub proof fn lemma_missing_transfer_list_fails(
    this: AOnlyView,
    partition: Seq<char>,
    output: Seq<char>,
)
    ensures
        a_only_response(
            this,
            partition,
            output,
            EventView::Dispatched { sparse_data: true, transfer_list: false },
        ) == Err::<StepView, ErrorView>(missing_transfer_list(partition)),
{
}

/// The A-only strategy, bound to an archive and to a staging area.
#[derive(Clone, Debug)]
pub struct AOnlyExtractor {
    archive: ZipFile,
    tmpdir: String,
}

/// An `AOnlyExtractor` as a mathematical value.
pub struct AOnlyView {
    /// The paths of the archive's members.
    pub members: Seq<Seq<char>>,
    /// The path of the staging area.
    pub tmpdir: Seq<char>,
}

impl View for AOnlyExtractor {
    type V = AOnlyView;

    closed spec fn view(&self) -> AOnlyView {
        AOnlyView { members: self.archive@, tmpdir: self.tmpdir@ }
    }
}

impl AOnlyExtractor {
    /// Binds the strategy to `archive` and to the staging area at `tmpdir`.
    pub fn from(archive: ZipFile, tmpdir: &str) -> (extractor: AOnlyExtractor)
        ensures
            extractor@ == (AOnlyView { members: archive@, tmpdir: tmpdir@ }),
    {
        AOnlyExtractor { archive, tmpdir: tmpdir.to_owned() }
    }

    /// The path of the staging area.
    pub fn tmpdir(&self) -> (path: &str)
        ensures
            path@ == self@.tmpdir,
    {
        self.tmpdir.as_str()
    }

    /// The members of the archive that are files of `partition`, in archive order:
    /// first those in final form, second the numbered chunks.
    pub fn get_archived_partitions(&self, partition: &str) -> (parts: (Vec<String>, Vec<String>))
        ensures
            texts(parts.0@) == self@.members.filter(direct_member(partition@)),
            texts(parts.1@) == self@.members.filter(numbered_member(partition@)),
    {
        let members = self.archive.files();
        let mut direct: Vec<String> = Vec::new();
        let mut numbered: Vec<String> = Vec::new();
        let mut i: usize = 0;
        proof {
            reveal(Seq::filter);
            assert(texts(members@.take(0)) =~= Seq::<Seq<char>>::empty());
            assert(texts(direct@) =~= Seq::<Seq<char>>::empty());
        }
        while i < members.len()
            invariant
                i <= members.len(),
                texts(direct@) == texts(members@.take(i as int)).filter(
                    direct_member(partition@),
                ),
                texts(numbered@) == texts(members@.take(i as int)).filter(
                    numbered_member(partition@),
                ),
            decreases members.len() - i,
        {
            let path = members[i].as_str();
            let ghost seen = texts(members@.take(i as int));
            let ghost direct_before = texts(direct@);
            let ghost numbered_before = texts(numbered@);
            proof {
                assert(texts(members@.take(i + 1)) =~= seen.push(path@));
                lemma_filter_push(seen, path@, direct_member(partition@));
                lemma_filter_push(seen, path@, numbered_member(partition@));
            }
            if belongs_to_partition(partition, path) {
                if numbered_chunk(path) {
                    numbered.push(path.to_owned());
                    assert(texts(numbered@) =~= numbered_before.push(path@));
                } else {
                    direct.push(path.to_owned());
                    assert(texts(direct@) =~= direct_before.push(path@));
                }
            }
            i += 1;
        }
        assert(members@.take(i as int) =~= members@);
        (direct, numbered)
    }

    /// The staging of `partition`: the actions that bring its files from the
    /// archive into the staging area.
    pub fn stage(&self, partition: &str) -> (actions: Vec<Action>)
        ensures
            action_views(actions@) == staging_plan(self@.tmpdir, partition@, self@.members),
    {
        let (direct, numbered) = self.get_archived_partitions(partition);
        let ordered = sort_chunks(&numbered);
        let mut actions: Vec<Action> = Vec::new();
        let ghost extraction = to_extraction(self@.tmpdir);
        let ghost appending = to_appending(self@.tmpdir, partition@);
        let mut i: usize = 0;
        assert(action_views(actions@) =~= texts(direct@.take(0)).map_values(extraction));
        while i < direct.len()
            invariant
                i <= direct.len(),
                extraction == to_extraction(self@.tmpdir),
                action_views(actions@) == texts(direct@.take(i as int)).map_values(extraction),
            decreases direct.len() - i,
        {
            let member = direct[i].as_str();
            let ghost before = action_views(actions@);
            let destination = join(self.tmpdir.as_str(), base_name(member).as_str());
            actions.push(Action::Extract { member: member.to_owned(), destination });
            proof {
                assert(action_views(actions@) =~= before.push(extraction(member@)));
                assert(texts(direct@.take(i + 1)) =~= texts(direct@.take(i as int)).push(member@));
                assert(action_views(actions@) =~= texts(direct@.take(i + 1)).map_values(
                    extraction,
                ));
            }
            i += 1;
        }
        assert(direct@.take(i as int) =~= direct@);
        let ghost extractions = action_views(actions@);
        let target = join(self.tmpdir.as_str(), Self::sparse_data_file(partition).as_str());
        let mut k: usize = 0;
        assert(action_views(actions@) =~= extractions + texts(ordered@.take(0)).map_values(
            appending,
        ));
        while k < ordered.len()
            invariant
                k <= ordered.len(),
                appending == to_appending(self@.tmpdir, partition@),
                target@ == joined(self@.tmpdir, sparse_data_name(partition@)),
                action_views(actions@) == extractions + texts(ordered@.take(k as int)).map_values(
                    appending,
                ),
            decreases ordered.len() - k,
        {
            let member = ordered[k].as_str();
            let ghost before = action_views(actions@);
            actions.push(Action::Append { member: member.to_owned(), destination: target.clone() });
            proof {
                assert(action_views(actions@) =~= before.push(appending(member@)));
                assert(texts(ordered@.take(k + 1)) =~= texts(ordered@.take(k as int)).push(
                    member@,
                ));
                assert(action_views(actions@) =~= extractions + texts(
                    ordered@.take(k + 1),
                ).map_values(appending));
            }
            k += 1;
        }
        assert(ordered@.take(k as int) =~= ordered@);
        actions
    }

    /// The decompression of the file at `source`, whose name is `name`.
    fn decompress_named(&self, source: &str, name: &str) -> (action: Action)
        requires
            has_extension(name@),
        ensures
            action@ == decompression(self@.tmpdir, source@, name@),
    {
        let text = chars_of(name);
        let start = find_after_last(&text, '.');
        proof {
            lemma_after_last(text@, '.');
        }
        let extension = name.substring_char(start, text.len());
        assert(name@.subrange(start as int, text.len() as int) =~= extension_of(name@));
        let backend = if same_text(&chars_of(extension), &chars_of("xz")) {
            Backend::Xz
        } else {
            Backend::Brotli
        };
        let stem = name.substring_char(0, start - 1);
        Action::Decompress {
            backend,
            source: source.to_owned(),
            destination: join(self.tmpdir.as_str(), stem),
        }
    }

    /// The decompression of the staged file at `compressed_file`: which decoder
    /// decodes it, and into which file of the staging area. The path must have a
    /// file name with an extension.
    pub fn decompress(&self, compressed_file: &str) -> (action: Action)
        requires
            file_name_of(compressed_file@) is Some,
            has_extension(file_name_of(compressed_file@)->Some_0),
        ensures
            action@ == decompression(
                self@.tmpdir,
                compressed_file@,
                file_name_of(compressed_file@)->Some_0,
            ),
    {
        let name = file_name(compressed_file).unwrap();
        self.decompress_named(compressed_file, name.as_str())
    }

    /// What is done with the staged `entries`, and whether this finishes the
    /// partition.
    pub fn dispatch(&self, entries: &Vec<StagedEntry>, output: &str) -> (plan: (Vec<Action>, bool))
        ensures
            (action_views(plan.0@), plan.1) == dispatch_plan(
                self@.tmpdir,
                output@,
                entry_views(entries@),
            ),
    {
        let ghost all = entry_views(entries@);
        let ghost compressed = compressed_entry();
        let ghost decompressing = to_decompression(self@.tmpdir);
        let mut actions: Vec<Action> = Vec::new();
        let mut i: usize = 0;
        proof {
            reveal(Seq::filter);
            assert(action_views(actions@) =~= all.take(0).filter(compressed).map_values(
                decompressing,
            ));
        }
        while i < entries.len()
            invariant
                i <= entries.len(),
                all == entry_views(entries@),
                compressed == compressed_entry(),
                decompressing == to_decompression(self@.tmpdir),
                forall|k: int| 0 <= k < i ==> !is_image(#[trigger] all[k]),
                action_views(actions@) == all.take(i as int).filter(compressed).map_values(
                    decompressing,
                ),
            decreases entries.len() - i,
        {
            let entry = &entries[i];
            let ghost before = action_views(actions@);
            proof {
                assert(all[i as int] == entry@);
                assert(all.take(i + 1) =~= all.take(i as int).push(entry@));
                lemma_filter_push(all.take(i as int), entry@, compressed);
            }
            if entry.is_file {
                let name = entry.name.as_str();
                let text = chars_of(name);
                if ends_with(&text, &chars_of(".img")) {
                    let source = join(self.tmpdir.as_str(), name);
                    let destination = join(output, name);
                    actions.push(Action::Move { source, destination });
                    proof {
                        lemma_first_image(all, i as int);
                        assert(action_views(actions@) =~= before.push(
                            delivery(self@.tmpdir, output@, entry@),
                        ));
                    }
                    return (actions, true);
                }
                let xz = chars_of(".xz");
                let br = chars_of(".br");
                let stem_is_plain = !(text.len() == 4 && text[0] == '.') && !(text.len() == 5
                    && text[0] == '.' && text[1] == '.');
                proof {
                    if text.len() > 3 {
                        let stem = text@.take(text@.len() - 3);
                        if stem == seq!['.'] || stem == seq!['.', '.'] {
                            assert(stem[0] == text@[0]);
                            if stem.len() == 2 {
                                assert(stem[1] == text@[1]);
                            }
                        } else if !stem_is_plain {
                            assert(stem =~= seq!['.'] || stem =~= seq!['.', '.']);
                        }
                    }
                }
                if text.len() > 3 && (ends_with(&text, &xz) || ends_with(&text, &br))
                    && stem_is_plain {
                    proof {
                        reveal_strlit(".xz");
                        reveal_strlit(".br");
                        if xz@.is_suffix_of(text@) {
                            lemma_short_extension(text@, xz@);
                        } else {
                            lemma_short_extension(text@, br@);
                        }
                    }
                    let source = join(self.tmpdir.as_str(), name);
                    let action = self.decompress_named(source.as_str(), name);
                    actions.push(action);
                    proof {
                        assert(action_views(actions@) =~= before.push(decompressing(entry@)));
                        assert(action_views(actions@) =~= all.take(i + 1).filter(
                            compressed,
                        ).map_values(decompressing));
                    }
                }
            }
            i += 1;
        }
        proof {
            lemma_first_image(all, i as int);
            assert(all.take(i as int) =~= all);
        }
        (actions, false)
    }

    /// The decoding of the sparse stream at `sparse_file`, as the transfer list at
    /// `transfer_list` describes, into the image at `output`.
    pub fn sdat2img(&self, transfer_list: &str, sparse_file: &str, output: &str) -> (action: Action)
        ensures
            action@ == sparse_decoding(transfer_list@, sparse_file@, output@),
    {
        let mut partial = output.to_owned();
        partial.append(".partial");
        Action::Unsparse {
            transfer_list: transfer_list.to_owned(),
            data: sparse_file.to_owned(),
            partial,
            image: output.to_owned(),
        }
    }

    /// The decoding of the staged sparse data of `partition` into its image in the
    /// directory `output`.
    pub fn unsparse(&self, partition: &str, output: &str) -> (action: Action)
        ensures
            action@ == unsparsing(self@.tmpdir, partition@, output@),
    {
        let sparse_file = join(self.tmpdir.as_str(), Self::sparse_data_file(partition).as_str());
        let transfer_list = join(
            self.tmpdir.as_str(),
            Self::transfer_list_file(partition).as_str(),
        );
        let mut image = partition.to_owned();
        image.append(".img");
        let output_image = join(output, image.as_str());
        self.sdat2img(transfer_list.as_str(), sparse_file.as_str(), output_image.as_str())
    }

    /// What is done once the staged files are dispatched, given whether the sparse
    /// data and the transfer list of `partition` are staged.
    pub fn materialize(
        &self,
        partition: &str,
        output: &str,
        sparse_data: bool,
        transfer_list: bool,
    ) -> (plan: Result<Vec<Action>, ExtractError>)
        ensures
            match materialize_plan(self@.tmpdir, partition@, output@, sparse_data, transfer_list) {
                Ok(actions) => plan is Ok && action_views(plan->Ok_0@) == actions,
                Err(error) => plan is Err && plan->Err_0@ == error,
            },
    {
        let mut actions: Vec<Action> = Vec::new();
        if !sparse_data {
            assert(action_views(actions@) =~= Seq::<ActionView>::empty());
            return Ok(actions);
        }
        if !transfer_list {
            return Err(ExtractError::missing_transfer_list(partition));
        }
        actions.push(self.unsparse(partition, output));
        assert(action_views(actions@) =~= seq![unsparsing(self@.tmpdir, partition@, output@)]);
        Ok(actions)
    }

    /// The name of the transfer list of `partition`.
    pub fn transfer_list_file(partition: &str) -> (name: String)
        ensures
            name@ == transfer_list_name(partition@),
    {
        let mut name = partition.to_owned();
        name.append(".transfer.list");
        name
    }

    /// The name of the sparse data of `partition`.
    pub fn sparse_data_file(partition: &str) -> (name: String)
        ensures
            name@ == sparse_data_name(partition@),
    {
        let mut name = partition.to_owned();
        name.append(".new.dat");
        name
    }
}

impl Extractable for AOnlyExtractor {
    open spec fn response(
        &self,
        partition: Seq<char>,
        output: Seq<char>,
        event: EventView,
    ) -> Result<StepView, ErrorView> {
        a_only_response(self@, partition, output, event)
    }

    fn extract(&self, partition: &str, output: &str, event: &Event) -> (answer: Result<
        Step,
        ExtractError,
    >) {
        match event {
            Event::Requested => Ok(
                Step {
                    actions: self.stage(partition),
                    next: Await::Listing { directory: self.tmpdir.clone() },
                },
            ),
            Event::Staged { entries } => {
                let (actions, finished) = self.dispatch(entries, output);
                let next = if finished {
                    Await::Nothing
                } else {
                    Await::Presence {
                        sparse_data: join(
                            self.tmpdir.as_str(),
                            Self::sparse_data_file(partition).as_str(),
                        ),
                        transfer_list: join(
                            self.tmpdir.as_str(),
                            Self::transfer_list_file(partition).as_str(),
                        ),
                    }
                };
                Ok(Step { actions, next })
            },
            Event::Dispatched { sparse_data, transfer_list } => {
                match self.materialize(partition, output, *sparse_data, *transfer_list) {
                    Ok(actions) => Ok(Step { actions, next: Await::Nothing }),
                    Err(error) => Err(error),
                }
            },
        }
    }
}

} // verus!
