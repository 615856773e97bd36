//! Paths as the engine sees them: strings whose components are separated by
//! `/`.
//!
//! Three relations matter to a build. A directory and the name of one of its
//! entries give the entry's path ([`child`]). A path below the source root
//! gives the key under which its content was compiled ([`relative`]). The
//! target root and a rendered path give the place that is written
//! ([`joined`]).

use vstd::prelude::*;
use vstd::string::*;

verus! {

/// The character that separates the components of a path.
pub const SEPARATOR: char = '/';

/// The path of the entry called `name` in the directory `dir`: the two with
/// exactly one separator between them, and `name` alone in the empty
/// directory.
pub open spec fn child(dir: Seq<char>, name: Seq<char>) -> Seq<char> {
    if dir.len() == 0 || dir.last() == SEPARATOR {
        dir + name
    } else {
        dir + seq![SEPARATOR] + name
    }
}

/// `path` seen from `base`: a path that starts at the root of the file
/// system stands for itself, any other is an entry of `base`.
pub open spec fn joined(base: Seq<char>, path: Seq<char>) -> Seq<char> {
    if path.len() > 0 && path[0] == SEPARATOR {
        path
    } else {
        child(base, path)
    }
}

/// What is left of `path` once the leading `root` and the separator behind
/// it are taken away, or `None` where `path` does not lie at or below `root`.
pub open spec fn relative(path: Seq<char>, root: Seq<char>) -> Option<Seq<char>> {
    if !root.is_prefix_of(path) {
        None
    } else {
        let rest = path.skip(root.len() as int);
        if root.len() == 0 || root.last() == SEPARATOR || rest.len() == 0 {
            Some(rest)
        } else if rest[0] == SEPARATOR {
            Some(rest.skip(1))
        } else {
            None
        }
    }
}

/// Whether `path` is `root` or lies below it.
pub open spec fn is_under(path: Seq<char>, root: Seq<char>) -> bool {
    relative(path, root) is Some
}

/// `path` without the separators at its end.
pub open spec fn trimmed(path: Seq<char>) -> Seq<char>
    decreases path.len(),
{
    if path.len() > 0 && path.last() == SEPARATOR {
        trimmed(path.drop_last())
    } else {
        path
    }
}

/// Where the last component of `path` begins: behind its last separator, or
/// at 0 where it has none.
pub open spec fn component_start(path: Seq<char>) -> int
    decreases path.len(),
{
    if path.len() == 0 {
        0
    } else if path.last() == SEPARATOR {
        path.len() as int
    } else {
        component_start(path.drop_last())
    }
}

/// The last component of `path`, by which an entry is named in a report.
pub open spec fn final_component(path: Seq<char>) -> Seq<char> {
    trimmed(path).skip(component_start(trimmed(path)))
}

/// `trimmed` is a prefix of the path, ends in no separator, and only
/// separators were cut.
pub proof fn lemma_trimmed(path: Seq<char>)
    ensures
        trimmed(path).is_prefix_of(path),
        trimmed(path).len() > 0 ==> trimmed(path).last() != SEPARATOR,
        forall|i: int| trimmed(path).len() <= i < path.len() ==> path[i] == SEPARATOR,
    decreases path.len(),
{
    if path.len() > 0 && path.last() == SEPARATOR {
        let shorter = path.drop_last();
        lemma_trimmed(shorter);
        assert forall|i: int| trimmed(path).len() <= i < path.len() implies path[i]
            == SEPARATOR by {
            if i < shorter.len() {
                assert(path[i] == shorter[i]);
            }
        }
    }
}

/// `component_start` lies within the path, directly behind a separator unless
/// it is 0, and no separator follows it.
pub proof fn lemma_component_start(path: Seq<char>)
    ensures
        0 <= component_start(path) <= path.len(),
        component_start(path) > 0 ==> path[component_start(path) - 1] == SEPARATOR,
        forall|i: int| component_start(path) <= i < path.len() ==> path[i] != SEPARATOR,
    decreases path.len(),
{
    if path.len() > 0 && path.last() != SEPARATOR {
        let shorter = path.drop_last();
        lemma_component_start(shorter);
        assert forall|i: int| component_start(path) <= i < path.len() implies path[i]
            != SEPARATOR by {
            if i < shorter.len() {
                assert(path[i] == shorter[i]);
            }
        }
    }
}

/// The last component of a path is found by what it is: the path is made of
/// a directory part, empty or ending in a separator, then the last
/// component, which holds no separator, then separators only.
pub proof fn lemma_final_component(path: Seq<char>)
    ensures
        !final_component(path).contains(SEPARATOR),
        trimmed(path).is_prefix_of(path),
        forall|i: int| trimmed(path).len() <= i < path.len() ==> path[i] == SEPARATOR,
        trimmed(path) == trimmed(path).take(component_start(trimmed(path))) + final_component(
            path,
        ),
        component_start(trimmed(path)) == 0 || trimmed(path)[component_start(trimmed(path)) - 1]
            == SEPARATOR,
{
    let whole = trimmed(path);
    lemma_trimmed(path);
    lemma_component_start(whole);
    let start = component_start(whole);
    assert(whole =~= whole.take(start) + whole.skip(start));
    assert forall|i: int| 0 <= i < final_component(path).len() implies final_component(path)[i]
        != SEPARATOR by {
        assert(final_component(path)[i] == whole[start + i]);
    }
}

/// A root lies under itself, and what is left of it is the empty path.
pub proof fn lemma_root_is_under_itself(root: Seq<char>)
    ensures
        relative(root, root) == Some(Seq::<char>::empty()),
{
    assert(root.skip(root.len() as int) =~= Seq::<char>::empty());
}

/// An entry of a directory under `root` lies under `root` too, and what is
/// left of its path is what is left of the directory's, extended by the
/// entry's name.
pub proof fn lemma_child_is_under(dir: Seq<char>, name: Seq<char>, root: Seq<char>)
    requires
        is_under(dir, root),
    ensures
        relative(child(dir, name), root) == Some(child(relative(dir, root)->0, name)),
{
    let entry = child(dir, name);
    let dir_rest = dir.skip(root.len() as int);
    let entry_rest = entry.skip(root.len() as int);
    assert(root.is_prefix_of(entry));
    if dir.len() == 0 || dir.last() == SEPARATOR {
        assert(entry_rest =~= dir_rest + name);
    } else {
        assert(entry_rest =~= dir_rest + seq![SEPARATOR] + name);
    }
    if root.len() == 0 || root.last() == SEPARATOR {
        if dir_rest.len() > 0 {
            assert(dir_rest.last() == dir.last());
        }
        assert(relative(entry, root) == Some(entry_rest));
        assert(entry_rest =~= child(dir_rest, name));
    } else if dir_rest.len() == 0 {
        assert(dir =~= root);
        assert(entry_rest =~= seq![SEPARATOR] + name);
        assert(entry_rest.skip(1) =~= name);
        assert(child(Seq::<char>::empty(), name) =~= name);
    } else {
        let inner = dir_rest.skip(1);
        if inner.len() > 0 {
            assert(inner.last() == dir.last());
        }
        if dir.last() == SEPARATOR {
            assert(entry_rest.skip(1) =~= inner + name);
        } else {
            assert(entry_rest.skip(1) =~= inner + seq![SEPARATOR] + name);
        }
        assert(entry_rest.skip(1) =~= child(inner, name));
    }
}

/// The path of the entry called `name` in the directory `dir`.
pub fn child_path(dir: &str, name: &str) -> (path: String)
    ensures
        path@ == child(dir@, name@),
{
    let len: usize = dir.unicode_len();
    let mut path = dir.to_owned();
    if len > 0 && dir.get_char(len - 1) != SEPARATOR {
        proof {
            reveal_strlit("/");
        }
        path.append("/");
        assert(path@ =~= dir@ + seq![SEPARATOR]);
    }
    path.append(name);
    path
}

/// The place that `path` names when seen from `base`.
pub fn join_path(base: &str, path: &str) -> (full: String)
    ensures
        full@ == joined(base@, path@),
{
    let len: usize = path.unicode_len();
    if len > 0 && path.get_char(0) == SEPARATOR {
        path.to_owned()
    } else {
        child_path(base, path)
    }
}

/// Whether `prefix` is how `text` begins.
fn starts_with(text: &str, prefix: &str) -> (found: bool)
    ensures
        found == prefix@.is_prefix_of(text@),
{
    let text_len: usize = text.unicode_len();
    let prefix_len: usize = prefix.unicode_len();
    if prefix_len > text_len {
        return false;
    }
    let mut i: usize = 0;
    while i < prefix_len
        invariant
            i <= prefix_len <= text_len,
            prefix_len == prefix@.len(),
            text_len == text@.len(),
            forall|j: int| 0 <= j < i ==> text@[j] == prefix@[j],
        decreases prefix_len - i,
    {
        if text.get_char(i) != prefix.get_char(i) {
            return false;
        }
        i += 1;
    }
    assert(prefix@ =~= text@.subrange(0, prefix@.len() as int));
    true
}

/// The key of the template compiled from the file at `path`: the path as seen
/// from the source root. `None` where `path` does not lie at or below `root`.
pub fn template_key(path: &str, root: &str) -> (key: Option<String>)
    ensures
        key is Some <==> is_under(path@, root@),
        key matches Some(k) ==> Some(k@) == relative(path@, root@),
{
    if !starts_with(path, root) {
        return None;
    }
    let path_len: usize = path.unicode_len();
    let root_len: usize = root.unicode_len();
    if root_len == 0 || root.get_char(root_len - 1) == SEPARATOR || root_len == path_len {
        Some(path.substring_char(root_len, path_len).to_owned())
    } else if path.get_char(root_len) == SEPARATOR {
        assert(path@.skip(root_len as int).skip(1) =~= path@.subrange(
            root_len + 1,
            path_len as int,
        ));
        Some(path.substring_char(root_len + 1, path_len).to_owned())
    } else {
        None
    }
}

/// The last component of `path`, by which an entry is named in a report.
pub fn last_component(path: &str) -> (name: String)
    ensures
        name@ == final_component(path@),
{
    let mut end: usize = path.unicode_len();
    assert(path@.take(end as int) =~= path@);
    while end > 0 && path.get_char(end - 1) == SEPARATOR
        invariant
            end <= path@.len(),
            trimmed(path@) == trimmed(path@.take(end as int)),
        decreases end,
    {
        assert(path@.take(end as int).drop_last() =~= path@.take(end - 1));
        end -= 1;
    }
    let ghost whole = path@.take(end as int);
    assert(trimmed(path@) == whole);
    let mut start: usize = end;
    assert(whole.take(start as int) =~= whole);
    while start > 0 && path.get_char(start - 1) != SEPARATOR
        invariant
            start <= end <= path@.len(),
            whole == path@.take(end as int),
            component_start(whole) == component_start(whole.take(start as int)),
        decreases start,
    {
        assert(whole.take(start as int).drop_last() =~= whole.take(start - 1));
        start -= 1;
    }
    assert(whole.skip(start as int) =~= path@.subrange(start as int, end as int));
    path.substring_char(start, end).to_owned()
}

} // verus!
