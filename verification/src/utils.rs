//! The archive as the library sees it, and where output goes by default.

use crate::decimal::{decimal_text, push_decimal};
use crate::error::{invalid_archive, missing_member, ExtractError};
use crate::path::{beside, file_name, file_name_of, parent_of, sibling};
use crate::plan::{Action, ActionView};
use crate::text::{chars_of, same_text, texts};
use vstd::prelude::*;

verus! {

/// The four bytes that a ZIP container starts with.
pub open spec fn zip_signature() -> Seq<u8> {
    seq![0x50u8, 0x4Bu8, 0x03u8, 0x04u8]
}

/// `bytes` start with the ZIP signature.
pub open spec fn has_zip_signature(bytes: Seq<u8>) -> bool {
    zip_signature().is_prefix_of(bytes)
}

/// The name of the default output directory made at `seconds` after the epoch.
pub open spec fn output_name(seconds: nat) -> Seq<char> {
    "output-"@ + decimal_text(seconds)
}

/// The default output directory for the archive at `firmware_zip_path`, made at
/// `seconds` after the epoch: it stands beside the archive, in its parent.
pub open spec fn output_path(firmware_zip_path: Seq<char>, seconds: nat) -> Seq<char>
    recommends
        parent_of(firmware_zip_path) is Some,
{
    beside(firmware_zip_path, output_name(seconds))
}

/// Every member at `members` has a file name.
pub open spec fn all_named(members: Seq<Seq<char>>) -> bool {
    forall|i: int| 0 <= i < members.len() ==> file_name_of(#[trigger] members[i]) is Some
}

/// The names of the members at `members`: the file name of each.
pub open spec fn member_names(members: Seq<Seq<char>>) -> Seq<Seq<char>>
    recommends
        all_named(members),
{
    members.map_values(|path: Seq<char>| file_name_of(path)->Some_0)
}

/// The extraction of the archive member `member` into the file `destination`.
pub open spec fn extraction(member: Seq<char>, destination: Seq<char>) -> ActionView {
    ActionView::Extract { member, destination }
}

/// Checks the leading bytes of a container: it is accepted exactly if they start
/// with the ZIP signature.
pub fn check_signature(header: &[u8]) -> (checked: Result<(), ExtractError>)
    ensures
        has_zip_signature(header@) ==> checked is Ok,
        !has_zip_signature(header@) ==> checked is Err && checked->Err_0@ == invalid_archive(),
{
    if header.len() >= 4 && header[0] == 0x50 && header[1] == 0x4B && header[2] == 0x03
        && header[3] == 0x04 {
        assert(header@.subrange(0, 4) =~= zip_signature());
        Ok(())
    } else {
        proof {
            if header@.len() >= 4 {
                let lead = header@.subrange(0, 4);
                assert(lead[0] == header@[0] && lead[1] == header@[1] && lead[2] == header@[2]
                    && lead[3] == header@[3]);
            }
        }
        Err(ExtractError::invalid_archive())
    }
}

/// An opened archive: the paths of its members, in the order the archive lists them.
#[derive(Clone, Debug)]
pub struct ZipFile {
    members: Vec<String>,
}

impl View for ZipFile {
    type V = Seq<Seq<char>>;

    closed spec fn view(&self) -> Seq<Seq<char>> {
        texts(self.members@)
    }
}

impl ZipFile {
    /// Opens an archive from the bytes it starts with and the paths of its
    /// members: fails unless the bytes start with the ZIP signature.
    pub fn try_from(header: &[u8], members: Vec<String>) -> (opened: Result<ZipFile, ExtractError>)
        ensures
            has_zip_signature(header@) ==> opened is Ok && opened->Ok_0@ == texts(members@),
            !has_zip_signature(header@) ==> opened is Err && opened->Err_0@ == invalid_archive(),
    {
        match check_signature(header) {
            Ok(()) => Ok(ZipFile { members }),
            Err(e) => Err(e),
        }
    }

    /// The paths of the members.
    pub fn files(&self) -> (paths: Vec<String>)
        ensures
            texts(paths@) == self@,
    {
        let mut paths: Vec<String> = Vec::new();
        let mut i: usize = 0;
        while i < self.members.len()
            invariant
                i <= self.members.len(),
                texts(paths@) == texts(self.members@.take(i as int)),
            decreases self.members.len() - i,
        {
            let ghost before = paths@;
            paths.push(self.members[i].clone());
            assert(self.members@.take(i + 1) =~= self.members@.take(i as int).push(
                self.members@[i as int],
            ));
            assert(texts(paths@) =~= texts(before).push(self.members@[i as int]@));
            assert(texts(paths@) =~= texts(self.members@.take(i + 1)));
            i += 1;
        }
        assert(self.members@.take(i as int) =~= self.members@);
        paths
    }

    /// Tests whether the archive holds a member at `path`.
    pub fn has_member(&self, path: &str) -> (found: bool)
        ensures
            found == self@.contains(path@),
    {
        let wanted = chars_of(path);
        let mut i: usize = 0;
        while i < self.members.len()
            invariant
                i <= self.members.len(),
                wanted@ == path@,
                forall|k: int| 0 <= k < i ==> texts(self.members@)[k] != path@,
            decreases self.members.len() - i,
        {
            if same_text(&chars_of(self.members[i].as_str()), &wanted) {
                assert(texts(self.members@)[i as int] == path@);
                return true;
            }
            i += 1;
        }
        false
    }

    /// The extraction of the member at `archived_file_path` into the file at
    /// `destination`: fails unless the archive holds a member at that very path.
    pub fn extract(&self, archived_file_path: &str, destination: &str) -> (planned: Result<
        Action,
        ExtractError,
    >)
        ensures
            self@.contains(archived_file_path@) ==> planned is Ok && planned->Ok_0@
                == extraction(archived_file_path@, destination@),
            !self@.contains(archived_file_path@) ==> planned is Err && planned->Err_0@
                == missing_member(archived_file_path@),
    {
        if self.has_member(archived_file_path) {
            Ok(
                Action::Extract {
                    member: archived_file_path.to_owned(),
                    destination: destination.to_owned(),
                },
            )
        } else {
            Err(ExtractError::missing_member(archived_file_path))
        }
    }

    /// Tests whether every member has a file name.
    pub fn named(&self) -> (named: bool)
        ensures
            named == all_named(self@),
    {
        let mut i: usize = 0;
        while i < self.members.len()
            invariant
                i <= self.members.len(),
                forall|k: int| 0 <= k < i ==> file_name_of(#[trigger] texts(self.members@)[k]) is Some,
            decreases self.members.len() - i,
        {
            if file_name(self.members[i].as_str()).is_none() {
                assert(file_name_of(texts(self.members@)[i as int]) is None);
                return false;
            }
            i += 1;
        }
        true
    }

    /// The names of the members: the file name of each, a directory's name for a
    /// member that is a directory.
    pub fn file_names(&self) -> (names: Vec<String>)
        requires
            all_named(self@),
        ensures
            texts(names@) == member_names(self@),
    {
        let mut names: Vec<String> = Vec::new();
        let mut i: usize = 0;
        while i < self.members.len()
            invariant
                i <= self.members.len(),
                all_named(texts(self.members@)),
                texts(names@) == member_names(texts(self.members@.take(i as int))),
            decreases self.members.len() - i,
        {
            let ghost before = names@;
            assert(file_name_of(texts(self.members@)[i as int]) is Some);
            names.push(file_name(self.members[i].as_str()).unwrap());
            assert(self.members@.take(i + 1) =~= self.members@.take(i as int).push(
                self.members@[i as int],
            ));
            assert(texts(names@) =~= texts(before).push(
                file_name_of(self.members@[i as int]@)->Some_0,
            ));
            assert(texts(names@) =~= member_names(texts(self.members@.take(i + 1))));
            i += 1;
        }
        assert(self.members@.take(i as int) =~= self.members@);
        names
    }
}

/// Reads the system clock with `std::time::SystemTime::now` and gives the whole
/// seconds since the Unix epoch, or `None` where the clock stands before the epoch.
/// Nothing is claimed of the value: every call may give another.
#[verifier::external_body]
fn unix_seconds() -> (seconds: Option<u64>) {
    match std::time::SystemTime::now().duration_since(std::time::UNIX_EPOCH) {
        Ok(elapsed) => Some(elapsed.as_secs()),
        Err(_) => None,
    }
}

/// The default output directory for the archive at `firmware_zip_path`, had the
/// clock read `seconds`. The archive's path must have a parent.
pub fn output_path_at(firmware_zip_path: &str, seconds: u64) -> (path: String)
    requires
        parent_of(firmware_zip_path@) is Some,
    ensures
        path@ == output_path(firmware_zip_path@, seconds as nat),
{
    let mut name = "output-".to_owned();
    push_decimal(&mut name, seconds);
    sibling(firmware_zip_path, name.as_str())
}

/// The default output directory for the archive at `firmware_zip_path`: a directory
/// in the parent of the archive, named `output-` and the seconds that the system
/// clock reads since the Unix epoch. The archive's path must have a parent. A clock
/// that stands before the epoch counts as zero.
pub fn default_output_path(firmware_zip_path: &str) -> (path: String)
    requires
        parent_of(firmware_zip_path@) is Some,
    ensures
        exists|seconds: u64| path@ == output_path(firmware_zip_path@, seconds as nat),
{
    let seconds: u64 = match unix_seconds() {
        Some(seconds) => seconds,
        None => 0,
    };
    output_path_at(firmware_zip_path, seconds)
}

} // verus!
