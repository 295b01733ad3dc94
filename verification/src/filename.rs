//! The name at the end of a path: what a path names on Unix, what on Windows, and what holds on
//! both.
use vstd::prelude::*;

use crate::text::occurs_at;

verus! {

// ---------------------------------------------------------------------------
// Reading a path
// ---------------------------------------------------------------------------

/// How paths are read.
pub enum PathStyle {
    Unix,
    Windows,
}

/// Whether a character separates components: `/`, and on Windows `\` too.
pub open spec fn is_separator(c: char, style: PathStyle) -> bool {
    c == '/' || (style is Windows && c == '\\')
}

/// What stands behind the last separator of a path, all of it where there is none.
pub open spec fn last_part(path: Seq<char>, style: PathStyle) -> Seq<char>
    decreases path.len(),
{
    if path.len() == 0 || is_separator(path.last(), style) {
        Seq::empty()
    } else {
        last_part(path.drop_last(), style).push(path.last())
    }
}

/// The name at the end of a path without a drive, where it ends in one: empty parts and `.` at the
/// end do not count, and `..` is no name.
pub open spec fn final_name(path: Seq<char>, style: PathStyle) -> Option<Seq<char>>
    decreases path.len(),
{
    let last = last_part(path, style);
    if last.len() == 0 || last == seq!['.'] {
        if last.len() < path.len() {
            final_name(path.take(path.len() - last.len() - 1), style)
        } else {
            None
        }
    } else if last == seq!['.', '.'] {
        None
    } else {
        Some(last)
    }
}

/// Whether a path begins like one with a drive: `C:`.
pub open spec fn has_drive(path: Seq<char>) -> bool {
    path.len() >= 2 && path[1] == ':' && ('a' <= path[0] <= 'z' || 'A' <= path[0] <= 'Z')
}

/// The name at the end of a path, where it ends in one. On Windows a drive is no part of it.
pub open spec fn name_in(path: Seq<char>, style: PathStyle) -> Option<Seq<char>> {
    if style is Windows && has_drive(path) {
        final_name(path.skip(2), style)
    } else {
        final_name(path, style)
    }
}

// ---------------------------------------------------------------------------
// Kinds of paths
// ---------------------------------------------------------------------------

/// Whether a path begins with two separators: on Windows it can then name a share or a device.
pub open spec fn begins_with_two_separators(path: Seq<char>) -> bool {
    &&& path.len() >= 2
    &&& is_separator(path[0], PathStyle::Windows)
    &&& is_separator(path[1], PathStyle::Windows)
}

/// Whether a path goes on behind a share: `\\server\share\`, of a server whose name begins with
/// neither `?` nor `.`, which mark other things.
pub open spec fn is_below_share(path: Seq<char>) -> bool {
    exists|i: int, j: int|
        #![trigger path[i], path[j]]
        {
            &&& 2 < i && i + 1 < j < path.len()
            &&& path[0] == '\\' && path[1] == '\\' && path[2] != '?' && path[2] != '.'
            &&& path[i] == '\\' && path[j] == '\\'
            &&& forall|k: int|
                2 <= k < j && k != i ==> !is_separator(#[trigger] path[k], PathStyle::Windows)
        }
}

/// Whether a path ends in a name however it is read: it ends in no separator, no `.` and no `:`, and
/// the end is not part of the name of a share or a device.
pub open spec fn has_name(path: Seq<char>) -> bool {
    &&& path.len() > 0
    &&& !is_separator(path.last(), PathStyle::Windows)
    &&& path.last() != '.'
    &&& path.last() != ':'
    &&& begins_with_two_separators(path) ==> is_below_share(path)
}

/// Whether a path is plain enough that there is no reading but the two of [`name_in`].
pub open spec fn is_common_path(path: Seq<char>) -> bool {
    &&& begins_with_two_separators(path) ==> has_name(path)
    &&& path.len() >= 2 && path[1] == ':' ==> has_drive(path)
}

/// Whether a path is read in the same way on Unix and on Windows: no `\`, no `:`, and nothing at its
/// beginning that could name a share or a device.
pub open spec fn is_portable_path(path: Seq<char>) -> bool {
    &&& !path.contains('\\')
    &&& !path.contains(':')
    &&& !begins_with_two_separators(path)
}

/// Whether `name` stands in a path at `i` as its last component: behind a separator or a drive, and
/// with nothing but separators and dots behind it.
pub open spec fn is_last_at(path: Seq<char>, name: Seq<char>, i: int) -> bool {
    &&& occurs_at(path, name, i)
    &&& i > 0 ==> is_separator(path[i - 1], PathStyle::Windows) || path[i - 1] == ':'
    &&& forall|k: int|
        i + name.len() <= k < path.len() ==> is_separator(#[trigger] path[k], PathStyle::Windows)
            || path[k] == '.'
}

/// Whether a path ends in `name`, up to separators and dots.
pub open spec fn ends_in(path: Seq<char>, name: Seq<char>) -> bool {
    exists|i: int| is_last_at(path, name, i)
}

/// What holds of the name of a path on every machine:
/// - there is one where the path has a name however it is read;
/// - it is what the path names on Unix, or what it names on Windows;
/// - of a path of any kind, it is a name that the path ends in, not empty and not `..`, and with
///   no `/` in it unless the path has a `\`.
pub open spec fn may_be_name(path: Seq<char>, name: Option<Seq<char>>) -> bool {
    &&& has_name(path) ==> name is Some
    &&& is_common_path(path) ==> name == name_in(path, PathStyle::Unix) || name == name_in(
        path,
        PathStyle::Windows,
    )
    &&& name matches Some(n) ==> {
        &&& n.len() > 0
        &&& ends_in(path, n)
        &&& n != seq!['.', '.']
        &&& !path.contains('\\') ==> !n.contains('/')
    }
}

// ---------------------------------------------------------------------------
// Laws
// ---------------------------------------------------------------------------

proof fn lemma_last_part(path: Seq<char>, style: PathStyle)
    ensures
        last_part(path, style).len() <= path.len(),
        path.skip(path.len() - last_part(path, style).len()) == last_part(path, style),
        forall|k: int|
            0 <= k < last_part(path, style).len() ==> !is_separator(
                #[trigger] last_part(path, style)[k],
                style,
            ),
        last_part(path, style).len() < path.len() ==> is_separator(
            path[path.len() - last_part(path, style).len() - 1],
            style,
        ),
    decreases path.len(),
{
    let last = last_part(path, style);
    if path.len() > 0 && !is_separator(path.last(), style) {
        let init = path.drop_last();
        lemma_last_part(init, style);
        let before = last_part(init, style);
        assert forall|k: int| 0 <= k < last.len() implies path.skip(path.len() - last.len())[k]
            == last[k] by {
            if k < before.len() {
                assert(init.skip(init.len() - before.len())[k] == before[k]);
            }
        }
        assert forall|k: int| 0 <= k < last.len() implies !is_separator(
            #[trigger] last[k],
            style,
        ) by {
            if k < before.len() {
                assert(last[k] == before[k]);
            }
        }
    }
    assert(path.skip(path.len() - last.len()) =~= last);
}

/// Where a path ends in a name, the name stands at its end as a component.
proof fn lemma_final_name(path: Seq<char>, style: PathStyle)
    ensures
        final_name(path, style) matches Some(n) ==> {
            &&& n.len() > 0
            &&& n != seq!['.', '.']
            &&& !n.contains('/')
            &&& exists|i: int|
                #[trigger] is_last_at(path, n, i) && (i == 0 || is_separator(path[i - 1], style))
        },
        path.len() > 0 && !is_separator(path.last(), style) && path.last() != '.' ==> final_name(
            path,
            style,
        ) is Some,
    decreases path.len(),
{
    let last = last_part(path, style);
    lemma_last_part(path, style);
    let start = path.len() - last.len();
    if path.len() > 0 && !is_separator(path.last(), style) && path.last() != '.' {
        assert(last.last() == path.last());
        assert(seq!['.'].last() == '.' && seq!['.', '.'].last() == '.');
    }
    if last.len() == 0 || last == seq!['.'] {
        if last.len() < path.len() {
            let front = path.take(start - 1);
            lemma_final_name(front, style);
            if let Some(n) = final_name(front, style) {
                let i = choose|i: int|
                    #[trigger] is_last_at(front, n, i) && (i == 0 || is_separator(
                        front[i - 1],
                        style,
                    ));
                assert(path.subrange(i, i + n.len()) =~= front.subrange(i, i + n.len()));
                assert forall|k: int| i + n.len() <= k < path.len() implies is_separator(
                    #[trigger] path[k],
                    PathStyle::Windows,
                ) || path[k] == '.' by {
                    if k < start - 1 {
                        assert(path[k] == front[k]);
                    } else if k >= start {
                        assert(path[k] == path.skip(start)[k - start]);
                    }
                }
                assert(is_last_at(path, n, i));
            }
        }
    } else if last != seq!['.', '.'] {
        assert(path.subrange(start, start + last.len()) =~= path.skip(start));
        assert(is_last_at(path, last, start));
    }
}

/// What a path names on Unix, and what a common path names on Windows, may be its name.
pub proof fn law_both_readings_may_be_names(path: Seq<char>)
    ensures
        may_be_name(path, name_in(path, PathStyle::Unix)),
        is_common_path(path) ==> may_be_name(path, name_in(path, PathStyle::Windows)),
{
    lemma_final_name(path, PathStyle::Unix);
    lemma_final_name(path, PathStyle::Windows);
    if has_drive(path) {
        let rest = path.skip(2);
        lemma_final_name(rest, PathStyle::Windows);
        if let Some(n) = final_name(rest, PathStyle::Windows) {
            let i = choose|i: int|
                #[trigger] is_last_at(rest, n, i) && (i == 0 || is_separator(
                    rest[i - 1],
                    PathStyle::Windows,
                ));
            assert(path.subrange(i + 2, i + 2 + n.len()) =~= rest.subrange(i, i + n.len()));
            assert forall|k: int| i + 2 + n.len() <= k < path.len() implies is_separator(
                #[trigger] path[k],
                PathStyle::Windows,
            ) || path[k] == '.' by {
                assert(path[k] == rest[k - 2]);
            }
            assert(is_last_at(path, n, i + 2));
        }
        if has_name(path) {
            assert(rest.last() == path.last());
        }
    }
}

/// A portable path has one name on every machine.
pub proof fn law_portable_path_has_one_name(path: Seq<char>)
    requires
        is_portable_path(path),
    ensures
        name_in(path, PathStyle::Unix) == name_in(path, PathStyle::Windows),
        is_common_path(path),
        forall|name: Option<Seq<char>>| #[trigger]
            may_be_name(path, name) ==> name == name_in(path, PathStyle::Unix),
{
    lemma_read_alike(path);
    if path.len() >= 2 {
        assert(path.contains(path[1]));
    }
}

proof fn lemma_last_part_alike(path: Seq<char>)
    requires
        !path.contains('\\'),
    ensures
        last_part(path, PathStyle::Unix) == last_part(path, PathStyle::Windows),
    decreases path.len(),
{
    if path.len() > 0 {
        assert(path.contains(path[path.len() - 1]));
        let init = path.drop_last();
        assert forall|k: int| 0 <= k < init.len() implies init[k] != '\\' by {
            assert(path.contains(path[k]));
        }
        lemma_last_part_alike(init);
    }
}

proof fn lemma_read_alike(path: Seq<char>)
    requires
        !path.contains('\\'),
    ensures
        final_name(path, PathStyle::Unix) == final_name(path, PathStyle::Windows),
    decreases path.len(),
{
    lemma_last_part_alike(path);
    let last = last_part(path, PathStyle::Unix);
    if last.len() < path.len() {
        let front = path.take(path.len() - last.len() - 1);
        assert forall|k: int| 0 <= k < front.len() implies front[k] != '\\' by {
            assert(path.contains(path[k]));
        }
        lemma_read_alike(front);
    }
}

} // verus!
