//! Path texts: joining, the final component, and the names that matter to a
//! bundle. A path is a string whose components are separated by `/`.

use vstd::prelude::*;
use vstd::string::{StrSliceExecFns, StringExecFns};
use crate::error::RexError;

verus! {

/// `base` extended by `part`, as a path: an absolute `part` stands alone, and
/// a separator is put between the two unless `base` is empty or ends in one.
pub open spec fn spec_join(base: Seq<char>, part: Seq<char>) -> Seq<char> {
    if part.len() > 0 && part[0] == '/' {
        part
    } else if base.len() == 0 || base.last() == '/' {
        base + part
    } else {
        base + seq!['/'] + part
    }
}

/// Joins two path texts.
pub fn join(base: &str, part: &str) -> (path: String)
    ensures
        path@ == spec_join(base@, part@),
{
    let part_len: usize = part.unicode_len();
    let base_len: usize = base.unicode_len();
    if part_len > 0 && part.get_char(0) == '/' {
        String::from_str(part)
    } else if base_len == 0 || base.get_char(base_len - 1) == '/' {
        String::from_str(base).concat(part)
    } else {
        proof {
            reveal_strlit("/");
            assert("/"@ =~= seq!['/']);
        }
        String::from_str(base).concat("/").concat(part)
    }
}

/// Where the final component of `path` begins: behind its last separator, or
/// at 0 where it has none.
pub open spec fn final_start(path: Seq<char>) -> int
    decreases path.len(),
{
    if path.len() == 0 {
        0
    } else if path.last() == '/' {
        path.len() as int
    } else {
        final_start(path.drop_last())
    }
}

/// Whether the character at `i` counts for nothing at the end of a path: it
/// is a separator, or a `.` that is a component of its own.
pub open spec fn is_padding(path: Seq<char>, i: int) -> bool {
    path[i] == '/' || (path[i] == '.' && (i == 0 || path[i - 1] == '/'))
}

/// Where `path` ends once the separators and the `.` components at its end
/// are left off.
pub open spec fn name_end(path: Seq<char>) -> int
    decreases path.len(),
{
    if path.len() == 0 {
        0
    } else if is_padding(path, path.len() - 1) {
        name_end(path.drop_last())
    } else {
        path.len() as int
    }
}

/// The final component of `path`, where it names a file or a directory:
/// separators and `.` components at the end are left off, and the name is
/// what then stands behind the last separator, unless nothing is left or
/// what is left is `..`. So `/w/assets/` gives `assets` and `a/b/.` gives `b`,
/// while `/`, `.` and `a/..` give nothing.
pub open spec fn spec_file_name(path: Seq<char>) -> Option<Seq<char>> {
    let stem = path.subrange(0, name_end(path));
    let name = stem.subrange(final_start(stem), stem.len() as int);
    if name.len() == 0 || name == seq!['.', '.'] {
        None
    } else {
        Some(name)
    }
}

/// The end of the name lies inside the path.
pub proof fn name_end_is_inside(path: Seq<char>)
    ensures
        0 <= name_end(path) <= path.len(),
    decreases path.len(),
{
    if path.len() > 0 && is_padding(path, path.len() - 1) {
        name_end_is_inside(path.drop_last());
    }
}

proof fn name_end_from_suffix(path: Seq<char>, end: int)
    requires
        0 <= end <= path.len(),
        forall|i: int| end <= i < path.len() ==> is_padding(path, i),
        end > 0 ==> !is_padding(path, end - 1),
    ensures
        name_end(path) == end,
    decreases path.len(),
{
    if path.len() > end {
        let shorter = path.drop_last();
        assert(is_padding(path, path.len() - 1));
        assert forall|i: int| end <= i < shorter.len() implies is_padding(shorter, i) by {
            assert(is_padding(path, i));
        }
        if end > 0 {
            assert(is_padding(shorter, end - 1) == is_padding(path, end - 1));
        }
        name_end_from_suffix(shorter, end);
    }
}

/// A file name is not empty and holds no separator.
pub proof fn file_name_is_one_component(path: Seq<char>)
    requires
        spec_file_name(path) is Some,
    ensures
        spec_file_name(path)->Some_0.len() > 0,
        forall|i: int|
            0 <= i < spec_file_name(path)->Some_0.len() ==> spec_file_name(path)->Some_0[i] != '/',
{
    name_end_is_inside(path);
    final_start_is_last_separator(path.subrange(0, name_end(path)));
}

/// The final component begins inside the path, no separator follows its
/// start, and one precedes it unless it begins the path.
pub proof fn final_start_is_last_separator(path: Seq<char>)
    ensures
        0 <= final_start(path) <= path.len(),
        forall|i: int| final_start(path) <= i < path.len() ==> path[i] != '/',
        final_start(path) > 0 ==> path[final_start(path) - 1] == '/',
    decreases path.len(),
{
    if path.len() > 0 && path.last() != '/' {
        let shorter = path.drop_last();
        final_start_is_last_separator(shorter);
        assert forall|i: int| final_start(path) <= i < path.len() implies path[i] != '/' by {
            if i < shorter.len() {
                assert(shorter[i] == path[i]);
            }
        }
        if final_start(path) > 0 {
            assert(shorter[final_start(path) - 1] == path[final_start(path) - 1]);
        }
    }
}

proof fn final_start_from_suffix(path: Seq<char>, at: int)
    requires
        0 <= at <= path.len(),
        forall|i: int| at <= i < path.len() ==> path[i] != '/',
        at > 0 ==> path[at - 1] == '/',
    ensures
        final_start(path) == at,
    decreases path.len(),
{
    if path.len() > 0 && path.last() != '/' {
        let shorter = path.drop_last();
        assert(at < path.len()) by {
            if at == path.len() {
                assert(path[at - 1] == path.last());
            }
        }
        assert forall|i: int| at <= i < shorter.len() implies shorter[i] != '/' by {
            assert(shorter[i] == path[i]);
        }
        if at > 0 {
            assert(shorter[at - 1] == path[at - 1]);
        }
        final_start_from_suffix(shorter, at);
    } else if path.len() > 0 {
        assert(at == path.len()) by {
            if at < path.len() {
                assert(path[path.len() - 1] != '/');
            }
        }
    }
}

fn is_padding_at(path: &str, i: usize) -> (pad: bool)
    requires
        i < path@.len(),
    ensures
        pad == is_padding(path@, i as int),
{
    let c: char = path.get_char(i);
    c == '/' || (c == '.' && (i == 0 || path.get_char(i - 1) == '/'))
}

/// The final component of a path, if it names a file or a directory.
pub fn file_name(path: &str) -> (name: Option<String>)
    ensures
        name is Some <==> spec_file_name(path@) is Some,
        name matches Some(n) ==> Some(n@) == spec_file_name(path@),
{
    let len: usize = path.unicode_len();
    let mut end: usize = len;
    while end > 0 && is_padding_at(path, end - 1)
        invariant
            end <= len,
            len == path@.len(),
            forall|i: int| end <= i < len ==> is_padding(path@, i),
        decreases end,
    {
        end -= 1;
    }
    proof {
        name_end_from_suffix(path@, end as int);
    }
    let stem: &str = path.substring_char(0, end);
    let mut start: usize = end;
    while start > 0 && stem.get_char(start - 1) != '/'
        invariant
            start <= end,
            end == stem@.len(),
            forall|i: int| start <= i < end ==> stem@[i] != '/',
        decreases start,
    {
        start -= 1;
    }
    proof {
        final_start_from_suffix(stem@, start as int);
    }
    let name: &str = stem.substring_char(start, end);
    let n: usize = end - start;
    if n == 0 {
        return None;
    }
    if n == 2 && name.get_char(0) == '.' && name.get_char(1) == '.' {
        assert(name@ =~= seq!['.', '.']);
        return None;
    }
    assert(name@ != seq!['.', '.']) by {
        if name@ == seq!['.', '.'] {
            assert(name@.len() == 2 && name@[0] == '.' && name@[1] == '.');
        }
    }
    Some(String::from_str(name))
}

/// Whether `text` begins with `prefix`.
pub open spec fn spec_starts_with(text: Seq<char>, prefix: Seq<char>) -> bool {
    prefix.len() <= text.len() && text.subrange(0, prefix.len() as int) == prefix
}

/// Whether `text` begins with `prefix`.
pub fn starts_with(text: &str, prefix: &str) -> (b: bool)
    ensures
        b == spec_starts_with(text@, prefix@),
{
    let n: usize = prefix.unicode_len();
    if text.unicode_len() < n {
        return false;
    }
    let mut i: usize = 0;
    while i < n
        invariant
            i <= n,
            n == prefix@.len(),
            n <= text@.len(),
            forall|j: int| 0 <= j < i ==> text@[j] == prefix@[j],
        decreases n - i,
    {
        if text.get_char(i) != prefix.get_char(i) {
            assert(text@.subrange(0, n as int)[i as int] == text@[i as int]);
            return false;
        }
        i += 1;
    }
    assert(text@.subrange(0, n as int) =~= prefix@);
    true
}

/// Whether a file of this name is a dynamic loader: the name begins with
/// `ld-linux` or with `ld-musl`.
pub open spec fn spec_is_loader_name(name: Seq<char>) -> bool {
    spec_starts_with(name, "ld-linux"@) || spec_starts_with(name, "ld-musl"@)
}

/// Whether a file of this name is a dynamic loader.
pub fn is_loader_name(name: &str) -> (b: bool)
    ensures
        b == spec_is_loader_name(name@),
{
    starts_with(name, "ld-linux") || starts_with(name, "ld-musl")
}

/// Whether the component `..` stands at position `i` of `path`.
pub open spec fn parent_at(path: Seq<char>, i: int) -> bool {
    &&& 0 <= i
    &&& i + 2 <= path.len()
    &&& path[i] == '.'
    &&& path[i + 1] == '.'
    &&& (i == 0 || path[i - 1] == '/')
    &&& (i + 2 == path.len() || path[i + 2] == '/')
}

/// Whether an archive entry of this path stays inside the directory it is
/// unpacked into: the path is relative and none of its components is `..`.
pub open spec fn spec_entry_is_safe(path: Seq<char>) -> bool {
    &&& !(path.len() > 0 && path[0] == '/')
    &&& forall|i: int| !parent_at(path, i)
}

/// Whether an archive entry of this path stays inside the destination.
pub fn entry_is_safe(path: &str) -> (ok: bool)
    ensures
        ok == spec_entry_is_safe(path@),
{
    let len: usize = path.unicode_len();
    if len > 0 && path.get_char(0) == '/' {
        return false;
    }
    if len < 2 {
        return true;
    }
    let mut i: usize = 0;
    while i < len - 1
        invariant
            i < len,
            2 <= len,
            len == path@.len(),
            forall|j: int| 0 <= j < i ==> !parent_at(path@, j),
        decreases len - i,
    {
        if path.get_char(i) == '.' && path.get_char(i + 1) == '.' && (i == 0 || path.get_char(
            i - 1,
        ) == '/') && (i + 2 == len || path.get_char(i + 2) == '/') {
            assert(parent_at(path@, i as int));
            return false;
        }
        i += 1;
    }
    true
}


/// Admits an archive entry that stays inside the destination and refuses any
/// other.
pub fn check_entry(path: &str) -> (r: Result<(), RexError>)
    ensures
        r == if spec_entry_is_safe(path@) {
            Ok::<(), RexError>(())
        } else {
            Err::<(), RexError>(RexError::UnsafeEntry)
        },
{
    if entry_is_safe(path) {
        Ok(())
    } else {
        Err(RexError::UnsafeEntry)
    }
}

/// Admits a list of archive entries where each stays inside the destination,
/// and refuses the whole list where one does not.
pub fn check_entries(paths: &Vec<String>) -> (r: Result<(), RexError>)
    ensures
        r is Ok <==> forall|i: int| 0 <= i < paths@.len() ==> spec_entry_is_safe(#[trigger] paths@[i]@),
        r matches Err(e) ==> e == RexError::UnsafeEntry,
{
    let mut i: usize = 0;
    while i < paths.len()
        invariant
            i <= paths@.len(),
            forall|j: int| 0 <= j < i ==> spec_entry_is_safe(#[trigger] paths@[j]@),
        decreases paths@.len() - i,
    {
        if !entry_is_safe(paths[i].as_str()) {
            return Err(RexError::UnsafeEntry);
        }
        i += 1;
    }
    Ok(())
}

/// The texts of a list of strings.
pub open spec fn texts(v: Seq<String>) -> Seq<Seq<char>> {
    Seq::new(v.len(), |i: int| v[i]@)
}

/// The texts of a list with one more string are the texts of the list with
/// one more text.
pub proof fn texts_push(v: Seq<String>, s: String)
    ensures
        texts(v.push(s)) == texts(v).push(s@),
{
    assert(texts(v.push(s)) =~= texts(v).push(s@));
}

/// Whether two strings hold the same text.
pub fn same_text(a: &str, b: &str) -> (eq: bool)
    ensures
        eq == (a@ == b@),
{
    let x: String = String::from_str(a);
    let y: String = String::from_str(b);
    x == y
}

/// `text` followed by `suffix`.
pub fn with_suffix(text: &str, suffix: &str) -> (out: String)
    ensures
        out@ == text@ + suffix@,
{
    String::from_str(text).concat(suffix)
}

} // verus!
