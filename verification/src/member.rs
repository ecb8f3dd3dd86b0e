//! How archive members are named: which members belong to a partition, and
//! which of them are numbered chunks of its sparse data.

use crate::decimal::{
    all_digits, decimal_text, decimal_value, is_digit, is_digit_char, lemma_decimal_text, numeral_le,
};
use crate::path::{body_start, file_name_of, is_plain, trimmed};
use crate::text::{after_last, chars_of, find_after_last, lemma_after_last, matches_at};
use vstd::prelude::*;

verus! {

/// Where the last segment of `path` starts: behind its last `/`.
pub open spec fn base_start(path: Seq<char>) -> nat {
    after_last(path, '/')
}

/// The last segment of `path`: what follows its last `/`, or all of it.
pub open spec fn base_name_of(path: Seq<char>) -> Seq<char> {
    path.skip(base_start(path) as int)
}

/// Where the digits at the end of `name` start; the length of `name` if it ends in none.
pub open spec fn digits_start(name: Seq<char>) -> nat
    decreases name.len(),
{
    if name.len() == 0 || !is_digit(name.last()) {
        name.len()
    } else {
        digits_start(name.drop_last())
    }
}

/// `name` ends in `.new.dat.` and at least one digit: it is a numbered chunk.
pub open spec fn is_numbered_chunk(name: Seq<char>) -> bool {
    &&& digits_start(name) < name.len()
    &&& ".new.dat."@.is_suffix_of(name.take(digits_start(name) as int))
}

/// The number that the digits at the end of `name` denote.
pub open spec fn chunk_index(name: Seq<char>) -> nat {
    decimal_value(name.skip(digits_start(name) as int))
}

/// The name of the finished image of `partition`.
pub open spec fn image_name(partition: Seq<char>) -> Seq<char> {
    partition + ".img"@
}

/// The name of the transfer list of `partition`.
pub open spec fn transfer_list_name(partition: Seq<char>) -> Seq<char> {
    partition + ".transfer.list"@
}

/// The name of the sparse data of `partition`.
pub open spec fn sparse_data_name(partition: Seq<char>) -> Seq<char> {
    partition + ".new.dat"@
}

/// The name of the chunk of the sparse data of `partition` that bears `number`.
pub open spec fn chunk_name(partition: Seq<char>, number: nat) -> Seq<char> {
    partition + ".new.dat."@ + decimal_text(number)
}

/// The member `path` is a file of `partition`: its last segment is the partition's
/// image or transfer list, or starts with the name of its sparse data.
pub open spec fn belongs_to(partition: Seq<char>, path: Seq<char>) -> bool {
    let name = base_name_of(path);
    ||| name == image_name(partition)
    ||| name == transfer_list_name(partition)
    ||| sparse_data_name(partition).is_prefix_of(name)
}

/// Where the extension of the file name `name` starts: behind its last `.`.
pub open spec fn extension_start(name: Seq<char>) -> nat {
    after_last(name, '.')
}

/// `name` has an extension that can be taken off: a last `.` with a stem before
/// it that names a file of its own. The names `..` and `..x` have none.
pub open spec fn has_extension(name: Seq<char>) -> bool {
    extension_start(name) >= 2 && is_plain(stem_of(name))
}

/// The extension of `name`: what follows its last `.`.
pub open spec fn extension_of(name: Seq<char>) -> Seq<char> {
    name.skip(extension_start(name) as int)
}

/// `name` without its extension and the `.` before it.
pub open spec fn stem_of(name: Seq<char>) -> Seq<char> {
    name.take(extension_start(name) - 1)
}

/// A name that ends in a `.` and two more characters, neither of them a `.`, and
/// has a name of its own before them, has these two as its extension.
pub proof fn lemma_short_extension(name: Seq<char>, suffix: Seq<char>)
    requires
        suffix.len() == 3,
        suffix[0] == '.',
        suffix[1] != '.',
        suffix[2] != '.',
        suffix.is_suffix_of(name),
        name.len() > 3,
        is_plain(name.take(name.len() - 3)),
    ensures
        has_extension(name),
        extension_start(name) == name.len() - 2,
        extension_of(name) == suffix.skip(1),
        stem_of(name) == name.take(name.len() - 3),
{
    let n = name.len() as int;
    let tail = name.subrange(n - 3, n);
    assert(tail[0] == name[n - 3] && tail[1] == name[n - 2] && tail[2] == name[n - 1]);
    let one = name.drop_last();
    let two = one.drop_last();
    assert(one.last() == name[n - 2]);
    assert(two.last() == name[n - 3]);
    assert(after_last(name, '.') == after_last(one, '.'));
    assert(after_last(one, '.') == after_last(two, '.'));
    assert(after_last(two, '.') == two.len());
    assert(extension_of(name) =~= suffix.skip(1));
}

/// A member that is a file of a partition has its last segment as its file name.
pub proof fn lemma_member_file_name(partition: Seq<char>, path: Seq<char>)
    requires
        belongs_to(partition, path),
    ensures
        file_name_of(path) == Some(base_name_of(path)),
{
    reveal_strlit(".img");
    reveal_strlit(".transfer.list");
    reveal_strlit(".new.dat");
    lemma_after_last(path, '/');
    let name = base_name_of(path);
    assert(name.len() >= 4) by {
        if sparse_data_name(partition).is_prefix_of(name) {
            assert(sparse_data_name(partition).len() >= 8);
        }
    }
    assert(path.last() == name.last());
    assert(path[path.len() - 2] == name[name.len() - 2]);
    assert(trimmed(path, body_start(path)) == path);
    assert(name.len() != 2);
}

/// What follows `digits_start` is digits only, and what stands before it is none.
pub proof fn lemma_digits_start(name: Seq<char>)
    ensures
        digits_start(name) <= name.len(),
        all_digits(name.skip(digits_start(name) as int)),
        digits_start(name) > 0 ==> !is_digit(name[digits_start(name) - 1]),
    decreases name.len(),
{
    if name.len() > 0 && is_digit(name.last()) {
        lemma_digits_start(name.drop_last());
        let from = digits_start(name) as int;
        assert forall|i: int| 0 <= i < name.skip(from).len() implies is_digit(
            #[trigger] name.skip(from)[i],
        ) by {
            if from + i < name.len() - 1 {
                assert(name.skip(from)[i] == name.drop_last().skip(from)[i]);
            }
        }
    }
}

/// Digits at the end of a text that does not itself end in a digit start where
/// that text ends.
pub proof fn lemma_digits_after(head: Seq<char>, digits: Seq<char>)
    requires
        all_digits(digits),
        head.len() == 0 || !is_digit(head.last()),
    ensures
        digits_start(head + digits) == head.len(),
    decreases digits.len(),
{
    let name = head + digits;
    if digits.len() == 0 {
        assert(name =~= head);
    } else {
        assert(name.last() == digits.last());
        assert(name.drop_last() =~= head + digits.drop_last());
        lemma_digits_after(head, digits.drop_last());
    }
}

/// A name made of anything, `.new.dat.` and a numeral is a numbered chunk, and
/// its number is the one that the numeral denotes.
pub proof fn lemma_numbered_chunk(stem: Seq<char>, digits: Seq<char>)
    requires
        digits.len() > 0,
        all_digits(digits),
    ensures
        is_numbered_chunk(stem + ".new.dat."@ + digits),
        chunk_index(stem + ".new.dat."@ + digits) == decimal_value(digits),
{
    reveal_strlit(".new.dat.");
    let marker = ".new.dat."@;
    let head = stem + marker;
    let name = head + digits;
    assert(head.last() == '.');
    lemma_digits_after(head, digits);
    assert(name.skip(head.len() as int) =~= digits);
    assert(name.take(head.len() as int) =~= head);
    assert(head.subrange(head.len() - marker.len(), head.len() as int) =~= marker);
}

/// The chunk that bears a number is a numbered chunk, and the number it ends in
/// is the one it bears.
pub proof fn lemma_chunk_name(partition: Seq<char>, number: nat)
    ensures
        is_numbered_chunk(chunk_name(partition, number)),
        chunk_index(chunk_name(partition, number)) == number,
{
    lemma_decimal_text(number);
    lemma_numbered_chunk(partition, decimal_text(number));
}

/// Finds where the digits at the end of `name` start.
pub fn find_digits_start(name: &Vec<char>) -> (start: usize)
    ensures
        start == digits_start(name@),
        start <= name.len(),
        all_digits(name@.skip(start as int)),
{
    let mut start: usize = name.len();
    assert(name@.take(start as int) =~= name@);
    while start > 0 && is_digit_char(name[start - 1])
        invariant
            start <= name.len(),
            digits_start(name@.take(start as int)) == digits_start(name@),
        decreases start,
    {
        assert(name@.take(start as int).drop_last() =~= name@.take(start - 1));
        start -= 1;
    }
    proof {
        lemma_digits_start(name@);
    }
    start
}

/// The last segment of `path`.
pub fn base_name(path: &str) -> (name: String)
    ensures
        name@ == base_name_of(path@),
{
    let chars = chars_of(path);
    let start = find_after_last(&chars, '/');
    let name = path.substring_char(start, chars.len());
    assert(path@.subrange(start as int, chars.len() as int) =~= path@.skip(start as int));
    name.to_owned()
}

/// Tests whether `text` is `first` followed by `second`, from position `from` on.
fn continues_with(text: &Vec<char>, from: usize, first: &Vec<char>, second: &Vec<char>) -> (found:
    bool)
    requires
        from <= text.len(),
    ensures
        found == (first@ + second@).is_prefix_of(text@.skip(from as int)),
{
    let found = matches_at(text, from, first) && first.len() <= usize::MAX - from && matches_at(
        text,
        from + first.len(),
        second,
    );
    proof {
        let rest = text@.skip(from as int);
        let both = first@ + second@;
        if found {
            assert(both =~= rest.subrange(0, both.len() as int)) by {
                assert forall|i: int| 0 <= i < both.len() implies both[i] == rest[i] by {
                    if i < first@.len() {
                        assert(text@.subrange(from as int, from + first@.len())[i] == first@[i]);
                    } else {
                        assert(text@.subrange(
                            from + first@.len(),
                            from + first@.len() + second@.len(),
                        )[i - first@.len()] == second@[i - first@.len()]);
                    }
                }
            }
        } else if both.is_prefix_of(rest) {
            assert(text@.subrange(from as int, from + first@.len()) =~= first@) by {
                assert forall|i: int| 0 <= i < first@.len() implies text@[from + i] == first@[i] by {
                    assert(rest.subrange(0, both.len() as int)[i] == both[i]);
                }
            }
            assert(text@.subrange(from + first@.len(), from + first@.len() + second@.len())
                =~= second@) by {
                assert forall|i: int| 0 <= i < second@.len() implies text@[from + first@.len() + i]
                    == second@[i] by {
                    assert(rest.subrange(0, both.len() as int)[first@.len() + i] == both[first@.len()
                        + i]);
                }
            }
        }
    }
    found
}

/// Tests whether the member `path` is a file of `partition`.
pub fn belongs_to_partition(partition: &str, path: &str) -> (belongs: bool)
    ensures
        belongs == belongs_to(partition@, path@),
{
    let stem = chars_of(partition);
    let text = chars_of(path);
    let start = find_after_last(&text, '/');
    let image = chars_of(".img");
    let list = chars_of(".transfer.list");
    let data = chars_of(".new.dat");
    let ghost name = base_name_of(path@);
    let rest: usize = text.len() - start;
    let is_image = continues_with(&text, start, &stem, &image) && rest == stem.len() + image.len();
    let is_list = continues_with(&text, start, &stem, &list) && rest == stem.len() + list.len();
    let is_data = continues_with(&text, start, &stem, &data);
    proof {
        assert(name.subrange(0, name.len() as int) =~= name);
    }
    is_image || is_list || is_data
}

/// Tests whether `name` is a numbered chunk.
pub fn numbered_chunk(name: &str) -> (numbered: bool)
    ensures
        numbered == is_numbered_chunk(name@),
{
    let text = chars_of(name);
    let start = find_digits_start(&text);
    let marker = chars_of(".new.dat.");
    if start == text.len() || start < marker.len() {
        return false;
    }
    let found = matches_at(&text, start - marker.len(), &marker);
    proof {
        let head = name@.take(start as int);
        assert(head.subrange(head.len() - marker@.len(), head.len() as int) =~= text@.subrange(
            start - marker@.len(),
            start as int,
        ));
    }
    found
}

/// Tests whether the number at the end of `a` is no more than the number at the end of `b`.
pub fn chunk_index_le(a: &str, b: &str) -> (le: bool)
    ensures
        le == (chunk_index(a@) <= chunk_index(b@)),
{
    let a_text = chars_of(a);
    let b_text = chars_of(b);
    let a_from = find_digits_start(&a_text);
    let b_from = find_digits_start(&b_text);
    numeral_le(&a_text, a_from, &b_text, b_from)
}

} // verus!
