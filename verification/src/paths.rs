//! Paths in a RomFS: names separated by `/`.
//!
//! A path is a string. Its components are the runs of characters between
//! slashes; empty runs do not count, so a leading slash, a trailing one and
//! a doubled one change nothing. The path without components is the root.

use std::path::PathBuf;
use vfs::VPath;
use vstd::prelude::*;

verus! {

/// The number of characters before the first slash of `path`.
pub open spec fn segment_len(path: Seq<char>) -> nat
    decreases path.len(),
{
    if path.len() == 0 || path[0] == '/' {
        0
    } else {
        1 + segment_len(path.skip(1))
    }
}

/// The components of `path`, in their order.
pub open spec fn split_path(path: Seq<char>) -> Seq<Seq<char>>
    decreases path.len(),
    via split_path_decreases
{
    if path.len() == 0 {
        Seq::empty()
    } else if path[0] == '/' {
        split_path(path.skip(1))
    } else {
        seq![path.take(segment_len(path) as int)] + split_path(path.skip(segment_len(path) as int))
    }
}

#[via_fn]
proof fn split_path_decreases(path: Seq<char>) {
    lemma_segment_len(path);
}

/// A segment is no longer than its path.
pub proof fn lemma_segment_len(path: Seq<char>)
    ensures
        segment_len(path) <= path.len(),
        path.len() > 0 && path[0] != '/' ==> segment_len(path) > 0,
        forall|i: int| 0 <= i < segment_len(path) ==> path[i] != '/',
        segment_len(path) < path.len() ==> path[segment_len(path) as int] == '/',
    decreases path.len(),
{
    if path.len() == 0 || path[0] == '/' {
    } else {
        let rest = path.skip(1);
        lemma_segment_len(rest);
        assert forall|i: int| 0 <= i < segment_len(path) implies path[i] != '/' by {
            if i > 0 {
                assert(rest[i - 1] == path[i]);
            }
        }
        if segment_len(path) < path.len() {
            assert(rest[segment_len(rest) as int] == path[segment_len(path) as int]);
        }
    }
}

/// The segment at the start of a path is as long as its run of characters
/// that are no slash.
pub proof fn lemma_segment_is_run(path: Seq<char>, n: nat)
    requires
        n <= path.len(),
        forall|i: int| 0 <= i < n ==> path[i] != '/',
        n == path.len() || path[n as int] == '/',
    ensures
        segment_len(path) == n,
    decreases n,
{
    if n == 0 {
    } else {
        let rest = path.skip(1);
        assert forall|i: int| 0 <= i < n - 1 implies rest[i] != '/' by {
            assert(rest[i] == path[i + 1]);
        }
        lemma_segment_is_run(rest, (n - 1) as nat);
    }
}

/// The components of `path`.
pub fn components(path: &str) -> (parts: Vec<String>)
    ensures
        parts@.map_values(|s: String| s@) == split_path(path@),
{
    let total = path.unicode_len();
    let mut parts: Vec<String> = Vec::new();
    let mut at: usize = 0;
    proof {
        assert(path@.skip(0) =~= path@);
        assert(parts@.map_values(|s: String| s@) + split_path(path@) =~= split_path(path@));
    }
    while at < total
        invariant
            at <= total == path@.len(),
            parts@.map_values(|s: String| s@) + split_path(path@.skip(at as int)) == split_path(
                path@,
            ),
        decreases total - at,
    {
        let ghost rest = path@.skip(at as int);
        if path.get_char(at) == '/' {
            proof {
                assert(rest[0] == '/');
                assert(rest.skip(1) =~= path@.skip(at + 1));
            }
            at += 1;
        } else {
            let start = at;
            while at < total && path.get_char(at) != '/'
                invariant
                    start <= at <= total == path@.len(),
                    forall|i: int| start <= i < at ==> path@[i] != '/',
                decreases total - at,
            {
                at += 1;
            }
            let part = String::from_str(path.substring_char(start, at));
            let ghost before = parts@;
            parts.push(part);
            proof {
                assert forall|i: int| 0 <= i < at - start implies rest[i] != '/' by {
                    assert(rest[i] == path@[start + i]);
                }
                lemma_segment_is_run(rest, (at - start) as nat);
                assert(rest.take(at - start) =~= path@.subrange(start as int, at as int));
                assert(rest.skip(at - start) =~= path@.skip(at as int));
                assert(parts@.map_values(|s: String| s@) =~= before.map_values(|s: String| s@)
                    + seq![part@]);
                assert(before.map_values(|s: String| s@) + (seq![part@] + split_path(
                    path@.skip(at as int),
                )) =~= parts@.map_values(|s: String| s@) + split_path(path@.skip(at as int)));
            }
        }
    }
    proof {
        assert(path@.skip(at as int) =~= Seq::<char>::empty());
        assert(parts@.map_values(|s: String| s@) + Seq::<Seq<char>>::empty()
            =~= parts@.map_values(|s: String| s@));
    }
    parts
}

/// `base` with `name` under it: a slash stands between them unless `base` is
/// empty or ends in one. A `name` that starts with a slash is a path from
/// the root, and stands for itself.
pub open spec fn join(base: Seq<char>, name: Seq<char>) -> Seq<char> {
    if name.len() > 0 && name[0] == '/' {
        name
    } else if base.len() == 0 || base.last() == '/' {
        base + name
    } else {
        base + seq!['/'] + name
    }
}

/// A name: one component, as it stands in a record.
pub open spec fn is_name(name: Seq<char>) -> bool {
    name.len() > 0 && forall|i: int| 0 <= i < name.len() ==> name[i] != '/'
}

/// A slash at the end of a path adds no component.
pub proof fn lemma_split_trailing_slash(path: Seq<char>)
    ensures
        split_path(path + seq!['/']) == split_path(path),
    decreases path.len(),
{
    let longer = path + seq!['/'];
    if path.len() == 0 {
        assert(longer[0] == '/');
        assert(longer.skip(1) =~= Seq::<char>::empty());
        assert(split_path(longer) == split_path(longer.skip(1)));
    } else if path[0] == '/' {
        assert(longer[0] == '/');
        assert(longer.skip(1) =~= path.skip(1) + seq!['/']);
        lemma_split_trailing_slash(path.skip(1));
        assert(split_path(longer) == split_path(longer.skip(1)));
    } else {
        lemma_segment_len(path);
        let k = segment_len(path);
        assert(longer[0] == path[0]);
        assert forall|i: int| 0 <= i < k implies longer[i] != '/' by {
            assert(longer[i] == path[i]);
        }
        assert(longer[k as int] == '/') by {
            if k < path.len() {
                assert(longer[k as int] == path[k as int]);
            }
        }
        lemma_segment_is_run(longer, k);
        assert(longer.take(k as int) =~= path.take(k as int));
        assert(longer.skip(k as int) =~= path.skip(k as int) + seq!['/']);
        lemma_split_trailing_slash(path.skip(k as int));
        assert(split_path(longer) == seq![longer.take(k as int)] + split_path(
            longer.skip(k as int),
        ));
    }
}

/// A name after a path that is empty or ends in a slash is one more
/// component.
pub proof fn lemma_split_after_slash(path: Seq<char>, name: Seq<char>)
    requires
        is_name(name),
        path.len() == 0 || path.last() == '/',
    ensures
        split_path(path + name) == split_path(path).push(name),
    decreases path.len(),
{
    let longer = path + name;
    if path.len() == 0 {
        assert(longer =~= name);
        lemma_segment_is_run(name, name.len());
        assert(name.take(name.len() as int) =~= name);
        assert(name.skip(name.len() as int) =~= Seq::<char>::empty());
        assert(split_path(name) == seq![name.take(name.len() as int)] + split_path(
            name.skip(name.len() as int),
        ));
        assert(seq![name] + Seq::<Seq<char>>::empty() =~= Seq::<Seq<char>>::empty().push(name));
    } else if path[0] == '/' {
        assert(longer[0] == '/');
        assert(longer.skip(1) =~= path.skip(1) + name);
        if path.len() > 1 {
            assert(path.skip(1).last() == path.last());
        }
        lemma_split_after_slash(path.skip(1), name);
        assert(split_path(longer) == split_path(longer.skip(1)));
    } else {
        lemma_segment_len(path);
        let k = segment_len(path);
        assert(k < path.len()) by {
            if k == path.len() {
                assert(path[k - 1] != '/');
            }
        }
        assert(longer[0] == path[0]);
        assert forall|i: int| 0 <= i < k implies longer[i] != '/' by {
            assert(longer[i] == path[i]);
        }
        assert(longer[k as int] == path[k as int]);
        lemma_segment_is_run(longer, k);
        assert(longer.take(k as int) =~= path.take(k as int));
        assert(longer.skip(k as int) =~= path.skip(k as int) + name);
        assert(path.skip(k as int).last() == path.last());
        lemma_split_after_slash(path.skip(k as int), name);
        assert(split_path(longer) == seq![longer.take(k as int)] + split_path(
            longer.skip(k as int),
        ));
        assert(seq![path.take(k as int)] + split_path(path.skip(k as int)).push(name) =~= (
            seq![path.take(k as int)] + split_path(path.skip(k as int))).push(name));
    }
}

/// The components of the path of a name under a path are those of the path,
/// and the name.
pub proof fn lemma_join_adds_component(base: Seq<char>, name: Seq<char>)
    requires
        is_name(name),
    ensures
        split_path(join(base, name)) == split_path(base).push(name),
{
    if base.len() == 0 || base.last() == '/' {
        lemma_split_after_slash(base, name);
    } else {
        lemma_split_trailing_slash(base);
        lemma_split_after_slash(base + seq!['/'], name);
    }
}

/// `base` with the names `parts` under it, one below the other.
pub open spec fn join_all(base: Seq<char>, parts: Seq<Seq<char>>) -> Seq<char>
    decreases parts.len(),
{
    if parts.len() == 0 {
        base
    } else {
        join_all(join(base, parts[0]), parts.skip(1))
    }
}

/// The components of a path that was built name by name are those of the
/// path that it was built on, and the names.
pub proof fn lemma_join_all_adds_components(base: Seq<char>, parts: Seq<Seq<char>>)
    requires
        forall|i: int| 0 <= i < parts.len() ==> is_name(#[trigger] parts[i]),
    ensures
        split_path(join_all(base, parts)) == split_path(base) + parts,
    decreases parts.len(),
{
    if parts.len() == 0 {
        assert(split_path(base) + parts =~= split_path(base));
    } else {
        lemma_join_adds_component(base, parts[0]);
        assert forall|i: int| 0 <= i < parts.skip(1).len() implies is_name(
            #[trigger] parts.skip(1)[i],
        ) by {
            assert(parts.skip(1)[i] == parts[i + 1]);
        }
        lemma_join_all_adds_components(join(base, parts[0]), parts.skip(1));
        assert(split_path(base).push(parts[0]) + parts.skip(1) =~= split_path(base) + parts);
    }
}

/// The path of `name` under `base`.
pub fn join_paths(base: &str, name: &str) -> (joined: String)
    ensures
        joined@ == join(base@, name@),
{
    if name.unicode_len() > 0 && name.get_char(0) == '/' {
        return String::from_str(name);
    }
    let len = base.unicode_len();
    let mut joined = String::from_str(base);
    if len > 0 && base.get_char(len - 1) != '/' {
        proof {
            reveal_strlit("/");
            assert("/"@ =~= seq!['/']);
        }
        joined.append("/");
    }
    joined.append(name);
    joined
}

/// `path` without the slashes at its end.
pub open spec fn trim_slashes(path: Seq<char>) -> Seq<char>
    decreases path.len(),
{
    if path.len() > 0 && path.last() == '/' {
        trim_slashes(path.drop_last())
    } else {
        path
    }
}

/// `path` without the characters after its last slash.
pub open spec fn drop_segment(path: Seq<char>) -> Seq<char>
    decreases path.len(),
{
    if path.len() > 0 && path.last() != '/' {
        drop_segment(path.drop_last())
    } else {
        path
    }
}

/// `path` without the slashes at its end, but for the first character.
pub open spec fn trim_to_root(path: Seq<char>) -> Seq<char>
    decreases path.len(),
{
    if path.len() > 1 && path.last() == '/' {
        trim_to_root(path.drop_last())
    } else {
        path
    }
}

/// The path above `path`: `path` without its last component and the slashes
/// around it, where it has a component. The path above `/a` is `/`, the one
/// above `a` is empty.
pub open spec fn parent_of(path: Seq<char>) -> Option<Seq<char>> {
    if trim_slashes(path).len() == 0 {
        None
    } else {
        Some(trim_to_root(drop_segment(trim_slashes(path))))
    }
}

/// The path above `path`, where it has one.
pub fn parent_path(path: &str) -> (parent: Option<String>)
    ensures
        match parent {
            Some(above) => parent_of(path@) == Some(above@),
            None => parent_of(path@) is None,
        },
{
    let total = path.unicode_len();
    let mut end: usize = total;
    proof {
        assert(path@.take(end as int) =~= path@);
    }
    while end > 0 && path.get_char(end - 1) == '/'
        invariant
            end <= total == path@.len(),
            trim_slashes(path@) == trim_slashes(path@.take(end as int)),
        decreases end,
    {
        proof {
            assert(path@.take(end as int).drop_last() =~= path@.take(end - 1));
        }
        end -= 1;
    }
    if end == 0 {
        return None;
    }
    let ghost trimmed = path@.take(end as int);
    assert(trim_slashes(path@) == trimmed);
    while end > 0 && path.get_char(end - 1) != '/'
        invariant
            end <= total == path@.len(),
            drop_segment(trimmed) == drop_segment(path@.take(end as int)),
        decreases end,
    {
        proof {
            assert(path@.take(end as int).drop_last() =~= path@.take(end - 1));
        }
        end -= 1;
    }
    let ghost dropped = path@.take(end as int);
    assert(drop_segment(trimmed) == dropped);
    while end > 1 && path.get_char(end - 1) == '/'
        invariant
            end <= total == path@.len(),
            trim_to_root(dropped) == trim_to_root(path@.take(end as int)),
        decreases end,
    {
        proof {
            assert(path@.take(end as int).drop_last() =~= path@.take(end - 1));
        }
        end -= 1;
    }
    assert(path@.subrange(0, end as int) =~= path@.take(end as int));
    Some(String::from_str(path.substring_char(0, end)))
}

/// `<PathBuf as VPath>::file_name` of vfs: the last component of the path,
/// as the file paths of the machine have it. All that is claimed of it is
/// that a path without characters has none.
#[verifier::external_body]
pub(crate) fn last_component(path: &str) -> (r: Option<String>)
    ensures
        path@.len() == 0 ==> r is None,
{
    PathBuf::from(path).file_name()
}

/// `<PathBuf as VPath>::extension` of vfs: what follows the last dot of the
/// last component, as the file paths of the machine have it. All that is
/// claimed of it is that a path without characters has none, and that an
/// extension holds no dot.
#[verifier::external_body]
pub(crate) fn last_extension(path: &str) -> (r: Option<String>)
    ensures
        path@.len() == 0 ==> r is None,
        r matches Some(extension) ==> !extension@.contains('.'),
{
    PathBuf::from(path).extension()
}

} // verus!
