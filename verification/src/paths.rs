//! Paths of files, as their components.
//!
//! Two paths are the same if their components are, however often the slash between two of them is
//! written, and whether or not one stands at the end.
use crate::strings::char_vec;
use crate::strings::str_eq;
use crate::strings::string_of;
use crate::strings::texts;
use vstd::prelude::*;
use vstd::string::*;

verus! {

/// Where the run of characters from `i` on ends: at the next slash, or at the end of the path.
pub open spec fn part_end(path: Seq<char>, i: int) -> int
    decreases path.len() - i,
{
    if i < 0 || i >= path.len() || path[i] == '/' {
        i
    } else {
        part_end(path, i + 1)
    }
}

/// The run from `i` on ends at a slash or at the end of the path, and holds a character unless `i`
/// is there already.
pub proof fn lemma_part_end(path: Seq<char>, i: int)
    requires
        0 <= i <= path.len(),
    ensures
        i <= part_end(path, i) <= path.len(),
        i < path.len() && path[i] != '/' ==> i < part_end(path, i),
        part_end(path, i) < path.len() ==> path[part_end(path, i)] == '/',
    decreases path.len() - i,
{
    if i < path.len() && path[i] != '/' {
        lemma_part_end(path, i + 1);
    }
}

/// The components from `i` on. A dot stands for nothing, but at the very beginning.
pub open spec fn parts_from(path: Seq<char>, i: int) -> Seq<Seq<char>>
    decreases path.len() - i,
{
    if i < 0 || i >= path.len() {
        Seq::empty()
    } else if path[i] == '/' {
        parts_from(path, i + 1)
    } else {
        proof {
            lemma_part_end(path, i);
        }
        let end = part_end(path, i);
        let part = path.subrange(i, end);
        if part == "."@ && i > 0 {
            parts_from(path, end)
        } else {
            seq![part] + parts_from(path, end)
        }
    }
}

/// The components of a path. A slash at the beginning is a component of its own.
pub open spec fn path_parts(path: Seq<char>) -> Seq<Seq<char>> {
    if path.len() > 0 && path[0] == '/' {
        seq!["/"@] + parts_from(path, 0)
    } else {
        parts_from(path, 0)
    }
}

/// The name that a path ends with. There is none if it ends with a dot, two dots or the root.
pub open spec fn name_in_path(path: Seq<char>) -> Option<Seq<char>> {
    let parts = path_parts(path);
    if parts.len() == 0 || parts.last() == "/"@ || parts.last() == "."@ || parts.last() == ".."@ {
        None
    } else {
        Some(parts.last())
    }
}

/// The components of a path.
pub fn components(path: &str) -> (r: Vec<String>)
    ensures
        texts(r@) == path_parts(path@),
{
    let chars = char_vec(path);
    let mut out: Vec<String> = Vec::new();
    assert(texts(out@) =~= Seq::empty());
    if chars.len() > 0 && chars[0] == '/' {
        out.push("/".to_owned());
        assert(texts(out@) =~= seq!["/"@]);
    }
    let mut i: usize = 0;
    while i < chars.len()
        invariant
            i <= chars@.len(),
            chars@ == path@,
            texts(out@) + parts_from(path@, i as int) == path_parts(path@),
        decreases chars@.len() - i,
    {
        if chars[i] == '/' {
            i = i + 1;
        } else {
            let mut end: usize = i;
            while end < chars.len() && chars[end] != '/'
                invariant
                    i <= end <= chars@.len(),
                    chars@ == path@,
                    part_end(path@, i as int) == part_end(path@, end as int),
                decreases chars@.len() - end,
            {
                end = end + 1;
            }
            let part = string_of(chars.as_slice(), i, end);
            let dot = str_eq(part.as_str(), ".");
            proof {
                lemma_part_end(path@, i as int);
            }
            if !dot || i == 0 {
                let ghost before = out@;
                let ghost text = part@;
                out.push(part);
                proof {
                    assert(texts(out@) =~= texts(before).push(text));
                    assert(texts(before) + (seq![text] + parts_from(path@, end as int)) =~= texts(
                        out@,
                    ) + parts_from(path@, end as int));
                }
            }
            i = end;
        }
    }
    assert(texts(out@) + parts_from(path@, i as int) =~= texts(out@));
    out
}

/// Whether two paths are the same.
pub fn same_path(a: &str, b: &str) -> (r: bool)
    ensures
        r == (path_parts(a@) == path_parts(b@)),
{
    let x = components(a);
    let y = components(b);
    if x.len() != y.len() {
        assert(texts(x@).len() != texts(y@).len());
        return false;
    }
    let mut i: usize = 0;
    while i < x.len()
        invariant
            i <= x@.len() == y@.len(),
            texts(x@) == path_parts(a@),
            texts(y@) == path_parts(b@),
            forall|k: int| 0 <= k < i ==> #[trigger] texts(x@)[k] == texts(y@)[k],
        decreases x@.len() - i,
    {
        if !str_eq(x[i].as_str(), y[i].as_str()) {
            assert(texts(x@)[i as int] != texts(y@)[i as int]);
            return false;
        }
        i = i + 1;
    }
    assert(texts(x@) =~= texts(y@));
    true
}

/// The name that a path ends with.
pub fn file_name(path: &str) -> (r: Option<String>)
    ensures
        match r {
            Some(name) => name_in_path(path@) == Some(name@),
            None => name_in_path(path@) is None,
        },
{
    let parts = components(path);
    let n: usize = parts.len();
    if n == 0 {
        return None;
    }
    let last = parts[n - 1].as_str();
    assert(path_parts(path@).last() == last@);
    if str_eq(last, "/") || str_eq(last, ".") || str_eq(last, "..") {
        None
    } else {
        Some(last.to_owned())
    }
}

proof fn lemma_parts_with_slash(path: Seq<char>, i: int)
    requires
        0 <= i <= path.len(),
    ensures
        parts_from(path.push('/'), i) == parts_from(path, i),
    decreases path.len() - i,
{
    let longer = path.push('/');
    if i == path.len() {
        reveal_with_fuel(parts_from, 2);
    } else if path[i] == '/' {
        lemma_parts_with_slash(path, i + 1);
    } else {
        lemma_part_end(path, i);
        lemma_end_with_slash(path, i);
        let end = part_end(path, i);
        assert(longer.subrange(i, end) =~= path.subrange(i, end));
        lemma_parts_with_slash(path, end);
    }
}

proof fn lemma_end_with_slash(path: Seq<char>, i: int)
    requires
        0 <= i <= path.len(),
    ensures
        part_end(path.push('/'), i) == part_end(path, i),
    decreases path.len() - i,
{
    if i < path.len() && path[i] != '/' {
        lemma_end_with_slash(path, i + 1);
    }
}

/// A slash at its end does not make another path of it.
pub proof fn law_trailing_slash_is_ignored(path: Seq<char>)
    requires
        path.len() > 0,
    ensures
        path_parts(path.push('/')) == path_parts(path),
        name_in_path(path.push('/')) == name_in_path(path),
{
    lemma_parts_with_slash(path, 0);
}

proof fn lemma_no_slash_end(path: Seq<char>, i: int, end: int)
    requires
        0 <= i <= end <= path.len(),
        forall|k: int| i <= k < end ==> #[trigger] path[k] != '/',
        end == path.len() || path[end] == '/',
    ensures
        part_end(path, i) == end,
    decreases end - i,
{
    if i < end {
        lemma_no_slash_end(path, i + 1, end);
    }
}

proof fn lemma_end_ahead(dir: Seq<char>, name: Seq<char>, i: int)
    requires
        0 <= i <= dir.len(),
    ensures
        part_end(dir + seq!['/'] + name, i) == part_end(dir, i),
    decreases dir.len() - i,
{
    let path = dir + seq!['/'] + name;
    if i < dir.len() {
        assert(path[i] == dir[i]);
        if dir[i] != '/' {
            lemma_end_ahead(dir, name, i + 1);
        }
    } else {
        assert(path[i] == '/');
    }
}

proof fn lemma_parts_and_name(dir: Seq<char>, name: Seq<char>, i: int)
    requires
        0 <= i <= dir.len(),
        name.len() > 0,
        !name.contains('/'),
        name != "."@,
    ensures
        parts_from(dir + seq!['/'] + name, i) == parts_from(dir, i).push(name),
    decreases dir.len() - i,
{
    let path = dir + seq!['/'] + name;
    let at = dir.len() as int;
    if i == at {
        assert(path[at] == '/');
        assert forall|k: int| at + 1 <= k < path.len() implies #[trigger] path[k] != '/' by {
            assert(path[k] == name[k - at - 1]);
            assert(name.contains(name[k - at - 1]));
        }
        assert(path[at + 1] == name[0]);
        lemma_no_slash_end(path, at + 1, path.len() as int);
        assert(path.subrange(at + 1, path.len() as int) =~= name);
        reveal_with_fuel(parts_from, 4);
        assert(parts_from(path, path.len() as int) =~= Seq::empty());
        assert(parts_from(path, at + 1) =~= seq![name]);
        assert(parts_from(dir, at).push(name) =~= seq![name]);
    } else if dir[i] == '/' {
        assert(path[i] == '/');
        lemma_parts_and_name(dir, name, i + 1);
    } else {
        assert(path[i] == dir[i]);
        lemma_part_end(dir, i);
        lemma_end_ahead(dir, name, i);
        let end = part_end(dir, i);
        assert(path.subrange(i, end) =~= dir.subrange(i, end));
        lemma_parts_and_name(dir, name, end);
        assert((seq![dir.subrange(i, end)] + parts_from(dir, end)).push(name) =~= seq![
            dir.subrange(i, end),
        ] + parts_from(dir, end).push(name));
    }
}

/// The path of an entry of a directory has the components of the directory and the name of the entry,
/// and it ends with that name.
pub proof fn law_entry_of_a_directory(dir: Seq<char>, name: Seq<char>)
    requires
        dir.len() > 0,
        name.len() > 0,
        !name.contains('/'),
        name != "."@,
    ensures
        path_parts(dir + seq!['/'] + name) == path_parts(dir).push(name),
        name != ".."@ ==> name_in_path(dir + seq!['/'] + name) == Some(name),
        name == ".."@ ==> name_in_path(dir + seq!['/'] + name) is None,
{
    let path = dir + seq!['/'] + name;
    lemma_parts_and_name(dir, name, 0);
    assert(path[0] == dir[0]);
    assert((seq!["/"@] + parts_from(dir, 0)).push(name) =~= seq!["/"@] + parts_from(dir, 0).push(name));
    reveal_strlit("/");
    if name == "/"@ {
        assert(name[0] == '/');
        assert(name.contains('/'));
    }
}

/// A name alone is the only component of its path; the root is the only one of its own; the empty path
/// has none.
pub proof fn law_path_of_one_name(name: Seq<char>)
    requires
        name.len() > 0,
        !name.contains('/'),
    ensures
        path_parts(name) == seq![name],
        path_parts("/"@) == seq!["/"@],
        path_parts(Seq::empty()).len() == 0,
        name_in_path("/"@) is None,
{
    assert forall|k: int| 0 <= k < name.len() implies #[trigger] name[k] != '/' by {
        assert(name.contains(name[k]));
    }
    lemma_no_slash_end(name, 0, name.len() as int);
    assert(name.subrange(0, name.len() as int) =~= name);
    assert(parts_from(name, name.len() as int) =~= Seq::empty());
    assert(parts_from(name, 0) =~= seq![name]);
    reveal_strlit("/");
    let none: Seq<Seq<char>> = Seq::empty();
    assert(parts_from("/"@, 1) =~= none);
    assert(parts_from("/"@, 0) =~= none);
    assert(path_parts("/"@) =~= seq!["/"@]);
}

} // verus!
