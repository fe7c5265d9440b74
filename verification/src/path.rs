//! The parts of a path that the runner goes by: the extension that selects
//! the language, and the name under which the artifact is kept.
//!
//! Paths are read as text with `/` as the separator. The last component is
//! found as usual: separators at the end and components `.` at the end are
//! passed over, and a path that ends in `..`, or names nothing at all, has no
//! file name.

use crate::text::option_text;
use vstd::prelude::*;

verus! {

/// The position of the last `wanted` in `text`, or -1 where there is none.
pub open spec fn last_index_of(text: Seq<char>, wanted: char) -> int
    decreases text.len(),
{
    if text.len() == 0 {
        -1
    } else if text.last() == wanted {
        text.len() - 1
    } else {
        last_index_of(text.drop_last(), wanted)
    }
}

/// `path` without the separators and `.` components that end it.
pub open spec fn trimmed(path: Seq<char>) -> Seq<char>
    decreases path.len(),
{
    let n = path.len() as int;
    if n >= 1 && path[n - 1] == '/' {
        trimmed(path.take(n - 1))
    } else if n >= 2 && path[n - 1] == '.' && path[n - 2] == '/' {
        trimmed(path.take(n - 2))
    } else {
        path
    }
}

/// The last component of `path`, where it names a file or a directory.
pub open spec fn file_name(path: Seq<char>) -> Option<Seq<char>> {
    let whole = trimmed(path);
    let name = whole.skip(last_index_of(whole, '/') + 1);
    if name.len() == 0 || name == seq!['.'] || name == seq!['.', '.'] {
        None
    } else {
        Some(name)
    }
}

/// The extension of the file that `path` names: what follows the last dot
/// of the file name, unless that dot begins the name.
pub open spec fn extension(path: Seq<char>) -> Option<Seq<char>> {
    match file_name(path) {
        Some(name) => {
            let dot = last_index_of(name, '.');
            if dot <= 0 {
                None
            } else {
                Some(name.skip(dot + 1))
            }
        },
        None => None,
    }
}

/// The name of the file that `path` names, without its extension.
pub open spec fn file_stem(path: Seq<char>) -> Option<Seq<char>> {
    match file_name(path) {
        Some(name) => {
            let dot = last_index_of(name, '.');
            if dot <= 0 {
                Some(name)
            } else {
                Some(name.take(dot))
            }
        },
        None => None,
    }
}

/// Where the artifact of `source` is kept: under the output directory, named
/// after the source without its extension.
pub open spec fn artifact(source: Seq<char>) -> Option<Seq<char>> {
    match file_stem(source) {
        Some(stem) => Some("cfb-out"@ + "/"@ + stem),
        None => None,
    }
}

/// The last occurrence is the one that no other follows.
pub proof fn lemma_last_index_found(text: Seq<char>, wanted: char, at: int)
    requires
        0 <= at < text.len(),
        text[at] == wanted,
        forall|j: int| at < j < text.len() ==> text[j] != wanted,
    ensures
        last_index_of(text, wanted) == at,
    decreases text.len(),
{
    if at < text.len() - 1 {
        lemma_last_index_found(text.drop_last(), wanted, at);
    }
}

/// A text without the character has no last occurrence of it.
pub proof fn lemma_last_index_missing(text: Seq<char>, wanted: char)
    requires
        forall|j: int| 0 <= j < text.len() ==> text[j] != wanted,
    ensures
        last_index_of(text, wanted) == -1,
    decreases text.len(),
{
    if text.len() > 0 {
        lemma_last_index_missing(text.drop_last(), wanted);
    }
}

/// The last occurrence lies inside the text, and the character is there.
pub proof fn lemma_last_index_bounds(text: Seq<char>, wanted: char)
    ensures
        -1 <= last_index_of(text, wanted) < text.len(),
        last_index_of(text, wanted) >= 0 ==> text[last_index_of(text, wanted)] == wanted,
    decreases text.len(),
{
    if text.len() > 0 && text.last() != wanted {
        lemma_last_index_bounds(text.drop_last(), wanted);
    }
}

/// What is left of a path when its end is trimmed is a prefix of it.
pub proof fn lemma_trimmed_is_prefix(path: Seq<char>)
    ensures
        trimmed(path).len() <= path.len(),
        trimmed(path) == path.take(trimmed(path).len() as int),
    decreases path.len(),
{
    let n = path.len() as int;
    if n >= 1 && path[n - 1] == '/' {
        lemma_trimmed_is_prefix(path.take(n - 1));
        assert(path.take(n - 1).take(trimmed(path).len() as int) =~= path.take(
            trimmed(path).len() as int,
        ));
    } else if n >= 2 && path[n - 1] == '.' && path[n - 2] == '/' {
        lemma_trimmed_is_prefix(path.take(n - 2));
        assert(path.take(n - 2).take(trimmed(path).len() as int) =~= path.take(
            trimmed(path).len() as int,
        ));
    } else {
        assert(path.take(n) =~= path);
    }
}

/// A path without any dot has no extension.
pub proof fn lemma_no_dot_no_extension(path: Seq<char>)
    requires
        forall|i: int| 0 <= i < path.len() ==> path[i] != '.',
    ensures
        extension(path) is None,
{
    lemma_trimmed_is_prefix(path);
    if let Some(name) = file_name(path) {
        let whole = trimmed(path);
        let from = last_index_of(whole, '/') + 1;
        lemma_last_index_bounds(whole, '/');
        assert forall|j: int| 0 <= j < name.len() implies name[j] != '.' by {
            assert(name[j] == path[from + j]);
        }
        lemma_last_index_missing(name, '.');
    }
}

/// The position of the last `wanted` among the first `end` characters.
fn last_position(text: &str, end: usize, wanted: char) -> (found: Option<usize>)
    requires
        end <= text@.len(),
    ensures
        match found {
            Some(at) => at < end && last_index_of(text@.take(end as int), wanted) == at,
            None => last_index_of(text@.take(end as int), wanted) == -1,
        },
{
    let mut i: usize = end;
    while i > 0
        invariant
            i <= end <= text@.len(),
            forall|j: int| i <= j < end ==> text@[j] != wanted,
        decreases i,
    {
        if text.get_char(i - 1) == wanted {
            proof {
                lemma_last_index_found(text@.take(end as int), wanted, i - 1);
            }
            return Some(i - 1);
        }
        i -= 1;
    }
    proof {
        lemma_last_index_missing(text@.take(end as int), wanted);
    }
    None
}

/// The length of `path` without the separators and `.` components that end
/// it.
fn trimmed_length(path: &str) -> (n: usize)
    ensures
        n <= path@.len(),
        trimmed(path@) == path@.take(n as int),
{
    let mut n: usize = path.unicode_len();
    let mut done = false;
    assert(path@.take(n as int) =~= path@);
    while !done
        invariant
            n <= path@.len(),
            trimmed(path@) == trimmed(path@.take(n as int)),
            done ==> trimmed(path@.take(n as int)) == path@.take(n as int),
        decreases
                if done {
                    0
                } else {
                    n + 1
                },
    {
        let ghost head = path@.take(n as int);
        if n >= 1 && path.get_char(n - 1) == '/' {
            assert(head.take(n - 1) =~= path@.take(n - 1));
            n -= 1;
        } else if n >= 2 && path.get_char(n - 1) == '.' && path.get_char(n - 2) == '/' {
            assert(head.take(n - 2) =~= path@.take(n - 2));
            n -= 2;
        } else {
            done = true;
        }
    }
    n
}

/// Where the file name lies in `path`: its first position and the one
/// after its last.
fn file_name_bounds(path: &str) -> (bounds: Option<(usize, usize)>)
    ensures
        match bounds {
            Some((from, to)) => from <= to <= path@.len() && file_name(path@) == Some(
                path@.subrange(from as int, to as int),
            ),
            None => file_name(path@) is None,
        },
{
    let to = trimmed_length(path);
    let from = match last_position(path, to, '/') {
        Some(slash) => slash + 1,
        None => 0,
    };
    let ghost whole = path@.take(to as int);
    let ghost name = path@.subrange(from as int, to as int);
    assert(whole.skip(from as int) =~= name);
    let count = to - from;
    if count == 0 {
        return None;
    }
    if path.get_char(from) == '.' {
        if count == 1 {
            assert(name =~= seq!['.']);
            return None;
        }
        if count == 2 && path.get_char(from + 1) == '.' {
            assert(name =~= seq!['.', '.']);
            return None;
        }
    }
    proof {
        if name == seq!['.'] {
            assert(name.len() == 1 && name[0] == '.');
        }
        if name == seq!['.', '.'] {
            assert(name.len() == 2 && name[0] == '.' && name[1] == '.');
        }
    }
    Some((from, to))
}

/// The extension that selects the language of `source`.
pub fn source_extension(source: &str) -> (found: Option<String>)
    ensures
        option_text(found) == extension(source@),
{
    match file_name_bounds(source) {
        Some((from, to)) => {
            let name = source.substring_char(from, to);
            let count = to - from;
            assert(name@.take(count as int) =~= name@);
            match last_position(name, count, '.') {
                Some(dot) => if dot > 0 {
                    assert(name@.subrange(dot + 1, count as int) =~= name@.skip(dot + 1));
                    Some(name.substring_char(dot + 1, count).to_owned())
                } else {
                    None
                },
                None => None,
            }
        },
        None => None,
    }
}

/// The name of `source` without its extension.
pub fn source_stem(source: &str) -> (found: Option<String>)
    ensures
        option_text(found) == file_stem(source@),
{
    match file_name_bounds(source) {
        Some((from, to)) => {
            let name = source.substring_char(from, to);
            let count = to - from;
            assert(name@.take(count as int) =~= name@);
            match last_position(name, count, '.') {
                Some(dot) => if dot > 0 {
                    assert(name@.subrange(0, dot as int) =~= name@.take(dot as int));
                    Some(name.substring_char(0, dot).to_owned())
                } else {
                    Some(name.to_owned())
                },
                None => Some(name.to_owned()),
            }
        },
        None => None,
    }
}

/// The directory that holds the artifacts, relative to the working directory
/// of the invocation.
pub fn output_dir() -> (directory: &'static str)
    ensures
        directory@ == "cfb-out"@,
{
    "cfb-out"
}

/// The name of a configuration file inside each directory that may hold one.
pub fn config_file_name() -> (name: &'static str)
    ensures
        name@ == "cfb.toml"@,
{
    "cfb.toml"
}

/// The place of the artifact of `source`: a file named after the source,
/// without its extension, inside the output directory. A path without a file
/// name has no artifact.
pub fn artifact_path(source: &str) -> (place: Option<String>)
    ensures
        option_text(place) == artifact(source@),
{
    match source_stem(source) {
        Some(stem) => {
            let mut place = output_dir().to_owned();
            place.append("/");
            place.append(stem.as_str());
            Some(place)
        },
        None => None,
    }
}

} // verus!
