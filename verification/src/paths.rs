//! Names of files and devices.

use vstd::prelude::*;
use vstd::slice::slice_subrange;
use vstd::string::*;

use crate::text::{chars_of, is_text, string_of, trim, trimmed};

verus! {

/// Whether a path starts at the root.
pub open spec fn is_absolute(path: Seq<char>) -> bool {
    path.len() > 0 && path[0] == '/'
}

/// A path below a directory; an absolute path stays as it is.
pub open spec fn joined(directory: Seq<char>, path: Seq<char>) -> Seq<char> {
    if is_absolute(path) {
        path
    } else if directory.len() == 0 || directory.last() == '/' {
        directory + path
    } else {
        directory + seq!['/'] + path
    }
}

/// Puts a path below a directory.
pub fn join(directory: &str, path: &str) -> (r: String)
    ensures
        r@ == joined(directory@, path@),
{
    let path_chars = chars_of(path);
    let directory_chars = chars_of(directory);
    if path_chars.len() > 0 && path_chars[0] == '/' {
        return path.to_owned();
    }
    let mut out = directory.to_owned();
    if directory_chars.len() > 0 && directory_chars[directory_chars.len() - 1] != '/' {
        out.push('/');
    }
    out.append(path);
    out
}

/// The path of a device: below `/dev` where it is not absolute.
pub open spec fn device_path(name: Seq<char>) -> Seq<char> {
    joined("/dev"@, trimmed(name))
}

/// Finds the path of a device.
pub fn normalize_device_path(value: &str) -> (r: String)
    ensures
        r@ == device_path(value@),
{
    let chars = chars_of(value);
    let name = string_of(trim(&chars));
    join("/dev", name.as_str())
}

/// The position after the last slash of a path, or its start.
pub open spec fn after_slash(path: Seq<char>) -> int
    decreases path.len(),
{
    if path.len() == 0 || path.last() == '/' {
        path.len() as int
    } else {
        after_slash(path.drop_last())
    }
}

/// The last part of a path that names something: parts that are empty or a dot
/// name nothing, and a path that ends in two dots has no last name.
pub open spec fn file_name(path: Seq<char>) -> Option<Seq<char>>
    decreases path.len(),
{
    let start = after_slash(path);
    let part = path.skip(start);
    if part.len() == 0 || part == "."@ {
        if start <= 0 || start > path.len() {
            None
        } else {
            file_name(path.take(start - 1))
        }
    } else if part == ".."@ {
        None
    } else {
        Some(part)
    }
}

fn find_after_slash(path: &[char]) -> (r: usize)
    ensures
        r == after_slash(path@),
        r <= path@.len(),
{
    let mut end: usize = path.len();
    assert(path@.take(end as int) == path@);
    while end > 0 && path[end - 1] != '/'
        invariant
            end <= path@.len(),
            after_slash(path@) == after_slash(path@.take(end as int)),
        decreases end,
    {
        assert(path@.take(end as int).drop_last() == path@.take(end - 1));
        end = end - 1;
    }
    end
}

/// Finds the last part of a path that names something.
pub fn find_file_name(path: &str) -> (r: Option<Vec<char>>)
    ensures
        match r {
            Some(name) => file_name(path@) == Some(name@),
            None => file_name(path@) is None,
        },
{
    let chars = chars_of(path);
    let mut rest: &[char] = chars.as_slice();
    loop
        invariant
            file_name(path@) == file_name(rest@),
        decreases rest@.len(),
    {
        let start: usize = find_after_slash(rest);
        let part = slice_subrange(rest, start, rest.len());
        assert(part@ == rest@.skip(start as int));
        if part.len() == 0 || is_text(part, ".") {
            if start == 0 {
                return None;
            }
            let next = slice_subrange(rest, 0, start - 1);
            assert(next@ == rest@.take(start - 1));
            rest = next;
        } else if is_text(part, "..") {
            return None;
        } else {
            let mut name: Vec<char> = Vec::new();
            for i in 0..part.len()
                invariant
                    name@ == part@.take(i as int),
            {
                name.push(part[i]);
            }
            assert(name@ == part@);
            return Some(name);
        }
    }
}

proof fn lemma_after_slash(directory: Seq<char>, name: Seq<char>)
    requires
        !name.contains('/'),
        directory.len() > 0 ==> directory.last() == '/',
    ensures
        after_slash(directory + name) == directory.len(),
    decreases name.len(),
{
    let path = directory + name;
    if name.len() == 0 {
        assert(path =~= directory);
    } else {
        assert(path.last() == name.last());
        assert(name.contains(name[name.len() - 1]));
        let shorter = name.drop_last();
        assert(path.drop_last() =~= directory + shorter);
        assert forall|i: int| 0 <= i < shorter.len() implies shorter[i] != '/' by {
            assert(name.contains(name[i]));
        }
        lemma_after_slash(directory, shorter);
    }
}

/// The last part of a path is what follows its last slash. Slashes and single
/// dots after it do not count.
pub proof fn last_part_names_the_file(directory: Seq<char>, name: Seq<char>)
    requires
        !name.contains('/'),
        name.len() > 0,
        name != "."@,
        name != ".."@,
    ensures
        file_name(name) == Some(name),
        file_name(directory + seq!['/'] + name) == Some(name),
        file_name(directory + seq!['/'] + name + seq!['/']) == Some(name),
        file_name(directory + seq!['/'] + name + seq!['/'] + "."@) == Some(name),
        file_name(directory + seq!['/'] + ".."@) is None,
        file_name(Seq::empty()) is None,
{
    reveal_strlit(".");
    reveal_strlit("..");
    let none = Seq::<char>::empty();
    lemma_after_slash(none, name);
    assert(none + name =~= name);
    assert(name.skip(0) =~= name);
    let start = directory + seq!['/'];
    lemma_after_slash(start, name);
    let path = start + name;
    assert(path.skip(start.len() as int) =~= name);
    let slashed = path + seq!['/'];
    lemma_after_slash(slashed, none);
    assert(slashed + none =~= slashed);
    assert(slashed.skip(slashed.len() as int).len() == 0);
    assert(slashed.take(slashed.len() - 1) =~= path);
    assert(directory + seq!['/'] + name + seq!['/'] =~= slashed);
    let dotted = slashed + "."@;
    lemma_after_slash(slashed, "."@);
    assert(dotted.skip(slashed.len() as int) =~= "."@);
    assert(dotted.take(slashed.len() - 1) =~= path);
    let up = start + ".."@;
    lemma_after_slash(start, ".."@);
    assert(up.skip(start.len() as int) =~= ".."@);
}

/// A bare name of a device is resolved below `/dev`, and a path that starts at
/// the root stays as it is; white space around either does not count.
pub proof fn bare_names_are_below_dev(before: Seq<char>, name: Seq<char>, after: Seq<char>)
    requires
        crate::text::all_space(before),
        crate::text::all_space(after),
        name.len() > 0,
        !crate::text::is_space(name[0]),
        !crate::text::is_space(name.last()),
    ensures
        name[0] != '/' ==> device_path(before + name + after) == "/dev/"@ + name,
        name[0] == '/' ==> device_path(before + name + after) == name,
{
    crate::text::trimming_cuts_space_around(before, name, after);
    reveal_strlit("/dev");
    reveal_strlit("/dev/");
    assert("/dev"@ + seq!['/'] + name =~= "/dev/"@ + name);
}

/// Joined to a directory, a relative path stands below it with one slash between
/// them, and an absolute path stays as it is.
pub proof fn joined_paths_have_one_slash(directory: Seq<char>, path: Seq<char>)
    requires
        directory.len() > 0,
        directory.last() != '/',
    ensures
        path.len() == 0 || path[0] != '/' ==> {
            &&& joined(directory, path) == directory + seq!['/'] + path
            &&& joined(directory + seq!['/'], path) == directory + seq!['/'] + path
        },
        path.len() > 0 && path[0] == '/' ==> joined(directory, path) == path,
{
}

} // verus!
