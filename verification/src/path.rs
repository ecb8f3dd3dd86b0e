//! Paths as text, with `/` between their segments.
//!
//! A path starts with its root, a `/`, or with a `.` that stands for the current
//! directory, or with neither. Behind that come its segments. Empty segments and
//! segments `.` count for nothing: `a//b/./` is the path `a/b`.

use crate::text::{after_last, chars_of, find_after_last_before};
use vstd::prelude::*;

verus! {

/// The length of what stands before the segments of `path`: one for a root or for
/// a leading `.`, else zero.
pub open spec fn body_start(path: Seq<char>) -> nat {
    if path.len() > 0 && path[0] == '/' {
        1
    } else if path.len() > 0 && path[0] == '.' && (path.len() == 1 || path[1] == '/') {
        1
    } else {
        0
    }
}

/// `segment` names a file or a directory of its own: it is not empty, and neither
/// `.` nor `..`.
pub open spec fn is_plain(segment: Seq<char>) -> bool {
    segment.len() > 0 && segment != seq!['.'] && segment != seq!['.', '.']
}

/// `text` without what counts for nothing at its end: separators and segments `.`
/// behind position `start`.
pub open spec fn trimmed(text: Seq<char>, start: nat) -> Seq<char>
    decreases text.len(),
{
    if text.len() <= start {
        text
    } else if text.last() == '/' {
        trimmed(text.drop_last(), start)
    } else if text.last() == '.' && text.len() >= 2 && text[text.len() - 2] == '/' {
        if text.len() - 2 >= start {
            trimmed(text.drop_last().drop_last(), start)
        } else {
            trimmed(text.drop_last(), start)
        }
    } else {
        text
    }
}

/// The file name of `path`: its last segment, unless the path has no segment or
/// its last is `..`.
pub open spec fn file_name_of(path: Seq<char>) -> Option<Seq<char>> {
    let start = body_start(path);
    let whole = trimmed(path, start);
    let name = whole.skip(after_last(whole, '/') as int);
    if whole.len() > start && name != seq!['.', '.'] {
        Some(name)
    } else {
        None
    }
}

/// The parent of `path`: the path without its last segment. A path of nothing but
/// a leading `.` has the empty path as its parent; the empty path and a path of
/// nothing but the root have none.
pub open spec fn parent_of(path: Seq<char>) -> Option<Seq<char>> {
    let start = body_start(path);
    let whole = trimmed(path, start);
    let at = after_last(whole, '/');
    if whole.len() > start {
        Some(
            trimmed(
                if at > start {
                    whole.take(at - 1)
                } else {
                    whole.take(start as int)
                },
                start,
            ),
        )
    } else if start == 1 && path[0] == '.' {
        Some(Seq::empty())
    } else {
        None
    }
}

/// The path of `name` inside the directory `dir`: the two joined by one `/`,
/// unless `dir` is empty or brings the `/` itself.
pub open spec fn joined(dir: Seq<char>, name: Seq<char>) -> Seq<char> {
    if dir.len() == 0 || dir.last() == '/' {
        dir + name
    } else {
        dir.push('/') + name
    }
}

/// The path of `name` beside `path`: inside the parent of `path`.
pub open spec fn beside(path: Seq<char>, name: Seq<char>) -> Seq<char>
    recommends
        parent_of(path) is Some,
{
    joined(parent_of(path)->Some_0, name)
}

/// A separator at the end of a path changes neither its parent nor its file name.
pub proof fn lemma_separator_at_end(path: Seq<char>)
    ensures
        parent_of(path.push('/')) == parent_of(path),
        file_name_of(path.push('/')) == file_name_of(path),
{
    let longer = path.push('/');
    if path.len() == 0 {
        assert(trimmed(longer, 1) == longer);
    } else {
        assert(longer[0] == path[0]);
        if path.len() > 1 {
            assert(longer[1] == path[1]);
        }
        assert(body_start(longer) == body_start(path));
        assert(longer.drop_last() =~= path);
        assert(trimmed(longer, body_start(path)) == trimmed(path, body_start(path)));
    }
}

/// Finds the length of what stands before the segments of `path`.
fn find_body_start(path: &Vec<char>) -> (start: usize)
    ensures
        start == body_start(path@),
        start <= path.len(),
{
    if path.len() > 0 && path[0] == '/' {
        1
    } else if path.len() > 0 && path[0] == '.' && (path.len() == 1 || path[1] == '/') {
        1
    } else {
        0
    }
}

/// Finds where the first `end` characters of `text` end once trimmed.
fn trim_end(text: &Vec<char>, start: usize, end: usize) -> (stop: usize)
    requires
        end <= text.len(),
    ensures
        stop <= end,
        text@.take(stop as int) == trimmed(text@.take(end as int), start as nat),
{
    let mut stop: usize = end;
    loop
        invariant
            stop <= end <= text.len(),
            trimmed(text@.take(stop as int), start as nat) == trimmed(
                text@.take(end as int),
                start as nat,
            ),
        ensures
            stop <= end,
            text@.take(stop as int) == trimmed(text@.take(end as int), start as nat),
        decreases stop,
    {
        let ghost now = text@.take(stop as int);
        if stop <= start {
            break ;
        }
        proof {
            assert(now.last() == text@[stop - 1]);
            assert(now.drop_last() =~= text@.take(stop - 1));
        }
        if text[stop - 1] == '/' {
            stop -= 1;
        } else if text[stop - 1] == '.' && stop >= 2 && text[stop - 2] == '/' {
            proof {
                assert(now[stop - 2] == text@[stop - 2]);
                assert(now.drop_last().drop_last() =~= text@.take(stop - 2));
            }
            if stop - 2 >= start {
                stop -= 2;
            } else {
                stop -= 1;
            }
        } else {
            proof {
                if stop >= 2 {
                    assert(now[stop - 2] == text@[stop - 2]);
                }
            }
            break ;
        }
    }
    stop
}

/// The file name of `path`, if it has one.
pub fn file_name(path: &str) -> (name: Option<String>)
    ensures
        match file_name_of(path@) {
            Some(text) => name is Some && name->Some_0@ == text,
            None => name is None,
        },
{
    let text = chars_of(path);
    let start = find_body_start(&text);
    let end = trim_end(&text, start, text.len());
    let ghost whole = text@.take(end as int);
    assert(text@.take(text@.len() as int) =~= text@);
    if end <= start {
        return None;
    }
    let at = find_after_last_before(&text, end, '/');
    let name = path.substring_char(at, end);
    assert(path@.subrange(at as int, end as int) =~= whole.skip(at as int));
    if end - at == 2 && text[at] == '.' && text[at + 1] == '.' {
        assert(whole.skip(at as int) =~= seq!['.', '.']);
        return None;
    }
    proof {
        let last = whole.skip(at as int);
        if last == seq!['.', '.'] {
            assert(last.len() == 2);
            assert(last[0] == text@[at as int]);
            assert(last[1] == text@[at + 1]);
        }
    }
    Some(name.to_owned())
}

/// The parent of `path`, if it has one.
pub fn parent(path: &str) -> (dir: Option<String>)
    ensures
        match parent_of(path@) {
            Some(text) => dir is Some && dir->Some_0@ == text,
            None => dir is None,
        },
{
    let text = chars_of(path);
    let start = find_body_start(&text);
    let end = trim_end(&text, start, text.len());
    let ghost whole = text@.take(end as int);
    assert(text@.take(text@.len() as int) =~= text@);
    if end > start {
        let at = find_after_last_before(&text, end, '/');
        let cut: usize = if at > start {
            at - 1
        } else {
            start
        };
        let stop = trim_end(&text, start, cut);
        assert(whole.take(cut as int) =~= text@.take(cut as int));
        let dir = path.substring_char(0, stop);
        assert(path@.subrange(0, stop as int) =~= text@.take(stop as int));
        Some(dir.to_owned())
    } else if start == 1 && text[0] == '.' {
        Some(String::new())
    } else {
        None
    }
}

/// The path of `name` inside the directory `dir`.
pub fn join(dir: &str, name: &str) -> (path: String)
    ensures
        path@ == joined(dir@, name@),
{
    let chars = chars_of(dir);
    let mut path = dir.to_owned();
    if chars.len() > 0 && chars[chars.len() - 1] != '/' {
        proof {
            reveal_strlit("/");
        }
        path.append("/");
        assert(path@ =~= dir@.push('/'));
    }
    path.append(name);
    path
}

/// The path of `name` beside `path`.
pub fn sibling(path: &str, name: &str) -> (placed: String)
    requires
        parent_of(path@) is Some,
    ensures
        placed@ == beside(path@, name@),
{
    let dir = parent(path).unwrap();
    join(dir.as_str(), name)
}

} // verus!
