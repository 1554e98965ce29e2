//! A library's files as a map from path to content, and what moving does to it.
//!
//! Paths are relative to the library root, with `/` between their parts. A folder is there as
//! long as a file is beneath it.

use crate::text;
use vstd::prelude::*;

verus! {

/// The path is `p` itself or lies beneath it.
pub open spec fn within(p: Seq<char>, path: Seq<char>) -> bool {
    path == p || text::begins(path, p + "/"@)
}

/// A file or a folder stands at `p`.
pub open spec fn exists_at(files: Map<Seq<char>, Seq<u8>>, p: Seq<char>) -> bool {
    exists|path: Seq<char>| #[trigger] files.contains_key(path) && within(p, path)
}

/// The path that stands to `to` as `path` stands to `from`.
pub open spec fn shifted(path: Seq<char>, from: Seq<char>, to: Seq<char>) -> Seq<char> {
    to + path.skip(from.len() as int)
}

/// The files after what stands at `from`, a file or a folder, was moved to `to`.
pub open spec fn moved(files: Map<Seq<char>, Seq<u8>>, from: Seq<char>, to: Seq<char>) -> Map<
    Seq<char>,
    Seq<u8>,
> {
    Map::new(
        |path: Seq<char>|
            if within(to, path) {
                files.contains_key(shifted(path, to, from))
            } else {
                files.contains_key(path) && !within(from, path)
            },
        |path: Seq<char>|
            if within(to, path) {
                files[shifted(path, to, from)]
            } else {
                files[path]
            },
    )
}

/// Neither path lies within the other.
pub open spec fn apart(a: Seq<char>, b: Seq<char>) -> bool {
    !within(a, b) && !within(b, a)
}

/// Shifting a path beneath `from` gives one beneath `to`, and shifting it back gives it again.
pub proof fn shifting_is_undone(path: Seq<char>, from: Seq<char>, to: Seq<char>)
    requires
        within(from, path),
    ensures
        within(to, shifted(path, from, to)),
        shifted(shifted(path, from, to), to, from) == path,
{
    reveal_strlit("/");
    let there = shifted(path, from, to);
    assert(there.skip(to.len() as int) == path.skip(from.len() as int));
    if path != from {
        assert(text::stands_at(path, from + "/"@, 0));
        assert(path.subrange(0, (from + "/"@).len() as int) == from + "/"@);
        assert(path.take(from.len() as int) == from) by {
            assert forall|i: int| 0 <= i < from.len() implies path[i] == from[i] by {
                assert(path.subrange(0, (from + "/"@).len() as int)[i] == (from + "/"@)[i]);
            }
        }
        assert(path[from.len() as int] == '/') by {
            assert(path.subrange(0, (from + "/"@).len() as int)[from.len() as int] == (from
                + "/"@)[from.len() as int]);
        }
        assert(there.subrange(0, (to + "/"@).len() as int) == to + "/"@);
        assert(text::stands_at(there, to + "/"@, 0));
        assert(from + path.skip(from.len() as int) == path);
    } else {
        assert(path.skip(from.len() as int) == Seq::<char>::empty());
        assert(there == to);
        assert(from + Seq::<char>::empty() == from);
    }
}

/// What was moved to a free place and is moved back stands where it stood.
pub proof fn moving_is_undone(files: Map<Seq<char>, Seq<u8>>, from: Seq<char>, to: Seq<char>)
    requires
        !exists_at(files, to),
    ensures
        moved(moved(files, from, to), to, from) == files,
{
    let there = moved(files, from, to);
    let back = moved(there, to, from);
    assert forall|path: Seq<char>| back.dom().contains(path) == #[trigger] files.dom().contains(
        path,
    ) && (files.dom().contains(path) ==> back[path] == files[path]) by {
        if within(from, path) {
            shifting_is_undone(path, from, to);
            assert(there.contains_key(shifted(path, from, to)) == files.contains_key(path));
        } else if within(to, path) {
            assert(!files.contains_key(path));
        }
    }
    assert(back.dom() =~= files.dom());
    assert(back =~= files);
}

/// After the move something stands at the new place, and nothing at the old one.
pub proof fn moving_changes_place(files: Map<Seq<char>, Seq<u8>>, from: Seq<char>, to: Seq<char>)
    requires
        exists_at(files, from),
        apart(from, to),
    ensures
        exists_at(moved(files, from, to), to),
        !exists_at(moved(files, from, to), from),
{
    let path = choose|path: Seq<char>| #[trigger] files.contains_key(path) && within(from, path);
    shifting_is_undone(path, from, to);
    assert(moved(files, from, to).contains_key(shifted(path, from, to)));
    assert forall|p: Seq<char>| #[trigger]
        moved(files, from, to).contains_key(p) implies !within(from, p) by {
        if within(from, p) && within(to, p) {
            within_both_is_nested(from, to, p);
        }
    }
}

/// Two paths that lead to one place lie within each other.
proof fn within_both_is_nested(a: Seq<char>, b: Seq<char>, path: Seq<char>)
    requires
        within(a, path),
        within(b, path),
    ensures
        within(a, b) || within(b, a),
{
    reveal_strlit("/");
    if path != a && path != b {
        let pa = a + "/"@;
        let pb = b + "/"@;
        assert(path.subrange(0, pa.len() as int) == pa);
        assert(path.subrange(0, pb.len() as int) == pb);
        assert forall|i: int| 0 <= i < pa.len() implies path[i] == pa[i] by {
            assert(path.subrange(0, pa.len() as int)[i] == pa[i]);
        }
        assert forall|i: int| 0 <= i < pb.len() implies path[i] == pb[i] by {
            assert(path.subrange(0, pb.len() as int)[i] == pb[i]);
        }
        if a.len() < b.len() {
            assert(b.subrange(0, pa.len() as int) =~= pa);
        } else if b.len() < a.len() {
            assert(a.subrange(0, pb.len() as int) =~= pb);
        } else {
            assert(a =~= b) by {
                assert forall|i: int| 0 <= i < a.len() implies a[i] == b[i] by {
                    assert(pa[i] == path[i] && pb[i] == path[i]);
                }
            }
        }
    }
}

/// Writing a file elsewhere changes nothing about a move.
pub proof fn moving_beside_a_file(
    files: Map<Seq<char>, Seq<u8>>,
    from: Seq<char>,
    to: Seq<char>,
    file: Seq<char>,
    content: Seq<u8>,
)
    requires
        !within(from, file),
        !within(to, file),
    ensures
        moved(files.insert(file, content), from, to) == moved(files, from, to).insert(
            file,
            content,
        ),
        exists_at(files.insert(file, content), from) == exists_at(files, from),
        exists_at(files.insert(file, content), to) == exists_at(files, to),
{
    let more = files.insert(file, content);
    assert forall|path: Seq<char>| #![auto]
        within(to, path) implies within(from, shifted(path, to, from)) by {
        shifting_is_undone(path, to, from);
    }
    assert(moved(more, from, to) =~= moved(files, from, to).insert(file, content));
    if exists_at(more, from) {
        let path = choose|path: Seq<char>| #[trigger] more.contains_key(path) && within(from, path);
        assert(files.contains_key(path));
    }
    if exists_at(files, from) {
        let path = choose|path: Seq<char>| #[trigger]
            files.contains_key(path) && within(from, path);
        assert(more.contains_key(path));
    }
    if exists_at(more, to) {
        let path = choose|path: Seq<char>| #[trigger] more.contains_key(path) && within(to, path);
        assert(files.contains_key(path));
    }
    if exists_at(files, to) {
        let path = choose|path: Seq<char>| #[trigger] files.contains_key(path) && within(to, path);
        assert(more.contains_key(path));
    }
}

/// A file that was added to what is moved moves along.
pub proof fn moving_with_a_file(
    files: Map<Seq<char>, Seq<u8>>,
    from: Seq<char>,
    to: Seq<char>,
    file: Seq<char>,
    content: Seq<u8>,
)
    requires
        within(from, file),
        apart(from, to),
    ensures
        moved(files.insert(file, content), from, to) == moved(files, from, to).insert(
            shifted(file, from, to),
            content,
        ),
        exists_at(files.insert(file, content), from),
        exists_at(files.insert(file, content), to) == exists_at(files, to),
{
    let more = files.insert(file, content);
    let there = shifted(file, from, to);
    shifting_is_undone(file, from, to);
    assert forall|path: Seq<char>| #![auto]
        within(to, path) implies (shifted(path, to, from) == file) == (path == there) by {
        shifting_is_undone(path, to, from);
    }
    assert(moved(more, from, to) =~= moved(files, from, to).insert(there, content));
    assert(more.contains_key(file));
    if within(to, file) {
        within_both_is_nested(from, to, file);
    }
    if exists_at(more, to) {
        let path = choose|path: Seq<char>| #[trigger] more.contains_key(path) && within(to, path);
        assert(files.contains_key(path));
    }
    if exists_at(files, to) {
        let path = choose|path: Seq<char>| #[trigger] files.contains_key(path) && within(to, path);
        assert(more.contains_key(path));
    }
}

/// What lies within a part of a folder lies within the folder.
pub proof fn within_a_part(dir: Seq<char>, name: Seq<char>, path: Seq<char>)
    requires
        within(dir + "/"@ + name, path),
    ensures
        within(dir, path),
{
    let inner = dir + "/"@ + name;
    let front = dir + "/"@;
    assert(path.subrange(0, front.len() as int) =~= front) by {
        if path != inner {
            let whole = inner + "/"@;
            assert(path.subrange(0, whole.len() as int) == whole);
            assert forall|i: int| 0 <= i < front.len() implies path[i] == front[i] by {
                assert(path.subrange(0, whole.len() as int)[i] == whole[i]);
                assert(whole[i] == inner[i]);
            }
        }
    }
    assert(text::stands_at(path, front, 0));
}

} // verus!
