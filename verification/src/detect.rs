//! The format detector: which kind of firmware an archive holds, told from the
//! names of its members alone.

use crate::text::{chars_of, contains, ends_with, occurs_in, same_text, starts_with, texts};
use vstd::prelude::*;

verus! {

/// The firmware layouts. An archive has exactly one.
#[derive(Clone, Copy, Debug, PartialEq, Eq, Structural)]
pub enum FirmwareKind {
    /// Partitions shipped as chunked, sparse or compressed data streams.
    AOnly,
    /// One payload blob that covers all partitions.
    ABPayload,
    /// A Samsung `AP_*.tar.md5` bundle.
    SamsungTar,
    /// Raw sparse chunks.
    SparseChunk,
    /// None of the above.
    Unsupported,
}

/// The member name `name` is the mark of `kind`.
pub open spec fn marks(kind: FirmwareKind, name: Seq<char>) -> bool {
    match kind {
        FirmwareKind::AOnly => name == "system.new.dat"@,
        FirmwareKind::ABPayload => name == "payload.bin"@,
        FirmwareKind::SamsungTar => "AP_"@.is_prefix_of(name) && "tar.md5"@.is_suffix_of(name),
        FirmwareKind::SparseChunk => occurs_in(name, "sparsechunk"@),
        FirmwareKind::Unsupported => false,
    }
}

/// One of `names` is the mark of `kind`.
pub open spec fn marked(kind: FirmwareKind, names: Seq<Seq<char>>) -> bool {
    exists|i: int| 0 <= i < names.len() && marks(kind, #[trigger] names[i])
}

/// The kind of an archive whose members are named `names`: the first kind, in
/// the order A-only, A/B, Samsung, sparse chunk, whose mark is among them.
pub open spec fn detect(names: Seq<Seq<char>>) -> FirmwareKind {
    if marked(FirmwareKind::AOnly, names) {
        FirmwareKind::AOnly
    } else if marked(FirmwareKind::ABPayload, names) {
        FirmwareKind::ABPayload
    } else if marked(FirmwareKind::SamsungTar, names) {
        FirmwareKind::SamsungTar
    } else if marked(FirmwareKind::SparseChunk, names) {
        FirmwareKind::SparseChunk
    } else {
        FirmwareKind::Unsupported
    }
}

/// An archive with a member named `system.new.dat` is A-only, whatever else it
/// holds: a `payload.bin` beside it does not make it A/B.
pub proof fn lemma_a_only_comes_first(names: Seq<Seq<char>>)
    requires
        names.contains("system.new.dat"@),
    ensures
        detect(names) == FirmwareKind::AOnly,
{
    let i = choose|i: int| 0 <= i < names.len() && names[i] == "system.new.dat"@;
    assert(marks(FirmwareKind::AOnly, names[i]));
}

/// An archive is of a kind only if one of its members is the mark of that kind,
/// and no kind that comes earlier has its mark among the members.
pub proof fn lemma_detect_first_match(names: Seq<Seq<char>>, kind: FirmwareKind)
    requires
        detect(names) == kind,
        kind != FirmwareKind::Unsupported,
    ensures
        marked(kind, names),
        kind != FirmwareKind::AOnly ==> !marked(FirmwareKind::AOnly, names),
        kind == FirmwareKind::SamsungTar || kind == FirmwareKind::SparseChunk ==> !marked(
            FirmwareKind::ABPayload,
            names,
        ),
        kind == FirmwareKind::SparseChunk ==> !marked(FirmwareKind::SamsungTar, names),
{
}

/// Tests whether `name` is the mark of `kind`.
pub fn is_mark(kind: FirmwareKind, name: &str) -> (found: bool)
    ensures
        found == marks(kind, name@),
{
    let text = chars_of(name);
    match kind {
        FirmwareKind::AOnly => same_text(&text, &chars_of("system.new.dat")),
        FirmwareKind::ABPayload => same_text(&text, &chars_of("payload.bin")),
        FirmwareKind::SamsungTar => starts_with(&text, &chars_of("AP_")) && ends_with(
            &text,
            &chars_of("tar.md5"),
        ),
        FirmwareKind::SparseChunk => contains(&text, &chars_of("sparsechunk")),
        FirmwareKind::Unsupported => false,
    }
}

/// Tests whether one of `names` is the mark of `kind`.
pub fn has_mark(kind: FirmwareKind, names: &Vec<String>) -> (found: bool)
    ensures
        found == marked(kind, texts(names@)),
{
    let mut i: usize = 0;
    while i < names.len()
        invariant
            i <= names.len(),
            forall|k: int| 0 <= k < i ==> !marks(kind, #[trigger] texts(names@)[k]),
        decreases names.len() - i,
    {
        if is_mark(kind, names[i].as_str()) {
            assert(marks(kind, texts(names@)[i as int]));
            return true;
        }
        i += 1;
    }
    false
}

/// Classifies an archive by the names of its members, directories stripped.
pub fn classify(names: &Vec<String>) -> (kind: FirmwareKind)
    ensures
        kind == detect(texts(names@)),
{
    if has_mark(FirmwareKind::AOnly, names) {
        FirmwareKind::AOnly
    } else if has_mark(FirmwareKind::ABPayload, names) {
        FirmwareKind::ABPayload
    } else if has_mark(FirmwareKind::SamsungTar, names) {
        FirmwareKind::SamsungTar
    } else if has_mark(FirmwareKind::SparseChunk, names) {
        FirmwareKind::SparseChunk
    } else {
        FirmwareKind::Unsupported
    }
}

} // verus!
