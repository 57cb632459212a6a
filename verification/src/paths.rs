//! Paths as text.
//!
//! The library never touches the file system; it only builds and takes apart
//! the text of paths, with `/` between components.  The file name of a path
//! is what follows its last `/`, and the extension of a file name is what
//! follows its last `.`, unless that dot is its first character.

use crate::text::{text_of, to_chars};
use vstd::prelude::*;

verus! {

/// The directory for the user's audio files as the crate `dirs` finds it in
/// the environment, if it finds one.
#[verifier::external_body]
pub(crate) fn audio_dir() -> (dir: Option<String>) {
    dirs::audio_dir().map(|p| p.to_string_lossy().into_owned())
}

/// The user's home directory as the crate `dirs` finds it in the
/// environment, if it finds one.
#[verifier::external_body]
pub(crate) fn home_dir() -> (dir: Option<String>) {
    dirs::home_dir().map(|p| p.to_string_lossy().into_owned())
}

/// The directory for application data as the crate `dirs` finds it in the
/// environment, if it finds one.
#[verifier::external_body]
pub(crate) fn data_dir() -> (dir: Option<String>) {
    dirs::data_dir().map(|p| p.to_string_lossy().into_owned())
}

/// The path of `name` below the directory `base`.  A separator is put
/// between the two unless `base` is empty or ends with one.
pub open spec fn joined(base: Seq<char>, name: Seq<char>) -> Seq<char> {
    if base.len() == 0 || base.last() == '/' {
        base + name
    } else {
        base + seq!['/'] + name
    }
}

/// The path of the relative `name` below the directory `base`.
pub fn join_path(base: &str, name: &str) -> (path: String)
    ensures
        path@ == joined(base@, name@),
{
    let chars = to_chars(base);
    let mut path = String::from_str(base);
    if chars.len() > 0 && chars[chars.len() - 1] != '/' {
        path.push('/');
    }
    path.append(name);
    path
}

/// The greatest index below `end` at which `s` holds `c`, or -1.
pub open spec fn last_index_of(s: Seq<char>, c: char, end: int) -> int
    decreases end,
{
    if end <= 0 {
        -1
    } else if s[end - 1] == c {
        end - 1
    } else {
        last_index_of(s, c, end - 1)
    }
}

/// `last_index_of` gives an index at which `s` holds `c`, and `c` does not
/// occur behind it; it gives -1 where `c` does not occur at all.
pub proof fn lemma_last_index_of(s: Seq<char>, c: char, end: int)
    requires
        0 <= end <= s.len(),
    ensures
        -1 <= last_index_of(s, c, end) < end,
        last_index_of(s, c, end) >= 0 ==> s[last_index_of(s, c, end)] == c,
        forall|j: int| last_index_of(s, c, end) < j < end ==> s[j] != c,
    decreases end,
{
    if end > 0 && s[end - 1] != c {
        lemma_last_index_of(s, c, end - 1);
    }
}

/// The index of the last `c` in the part of `chars` from `from` up to `to`,
/// counted from `from`; `None` where the part holds no `c`.
pub fn find_last(chars: &Vec<char>, from: usize, to: usize, c: char) -> (at: Option<usize>)
    requires
        from <= to <= chars.len(),
    ensures
        match at {
            Some(i) => i as int == last_index_of(
                chars@.subrange(from as int, to as int),
                c,
                to - from,
            ) && i < to - from,
            None => last_index_of(chars@.subrange(from as int, to as int), c, to - from) == -1,
        },
{
    let ghost part = chars@.subrange(from as int, to as int);
    let mut i: usize = to;
    while i > from
        invariant
            from <= i <= to <= chars.len(),
            part == chars@.subrange(from as int, to as int),
            last_index_of(part, c, to - from) == last_index_of(part, c, i - from),
        decreases i,
    {
        assert(part[i - from - 1] == chars@[i - 1]);
        if chars[i - 1] == c {
            return Some(i - 1 - from);
        }
        i -= 1;
    }
    None
}

/// The file name of a path: what follows its last `/`.
pub open spec fn file_name(path: Seq<char>) -> Seq<char> {
    path.skip(last_index_of(path, '/', path.len() as int) + 1)
}

/// The extension of a path's file name, without the dot, if it has one.
pub open spec fn extension(path: Seq<char>) -> Option<Seq<char>> {
    let name = file_name(path);
    let dot = last_index_of(name, '.', name.len() as int);
    if dot <= 0 || name == seq!['.', '.'] {
        None
    } else {
        Some(name.skip(dot + 1))
    }
}

/// The file name of a path without its extension.
pub open spec fn file_stem(path: Seq<char>) -> Seq<char> {
    let name = file_name(path);
    let dot = last_index_of(name, '.', name.len() as int);
    if dot <= 0 || name == seq!['.', '.'] {
        name
    } else {
        name.take(dot)
    }
}

/// Where the file name of a path begins.
fn name_start(chars: &Vec<char>) -> (start: usize)
    ensures
        start <= chars.len(),
        start as int == last_index_of(chars@, '/', chars.len() as int) + 1,
{
    assert(chars@.subrange(0, chars.len() as int) =~= chars@);
    match find_last(chars, 0, chars.len(), '/') {
        Some(i) => i + 1,
        None => 0,
    }
}

/// Where the dot of the extension stands in the file name that begins at
/// `start`, counted from `start`; `None` for a name without extension.
fn extension_dot(chars: &Vec<char>, start: usize) -> (dot: Option<usize>)
    requires
        start <= chars.len(),
    ensures
        ({
            let name = chars@.skip(start as int);
            let at = last_index_of(name, '.', name.len() as int);
            match dot {
                Some(d) => d as int == at && 0 < d < name.len() && name != seq!['.', '.'],
                None => at <= 0 || name == seq!['.', '.'],
            }
        }),
{
    let n: usize = chars.len();
    assert(chars@.subrange(start as int, n as int) =~= chars@.skip(start as int));
    let is_dots = n - start == 2 && chars[start] == '.' && chars[start + 1] == '.';
    proof {
        let name = chars@.skip(start as int);
        if is_dots {
            assert(name =~= seq!['.', '.']);
        } else if name == seq!['.', '.'] {
            assert(name.len() == 2);
            assert(name[0] == '.' && name[1] == '.');
            assert(false);
        }
    }
    if is_dots {
        return None;
    }
    match find_last(chars, start, n, '.') {
        Some(d) => if d > 0 {
            Some(d)
        } else {
            None
        },
        None => None,
    }
}

/// The file name of a path.
pub fn file_name_of(path: &str) -> (name: String)
    ensures
        name@ == file_name(path@),
{
    let chars = to_chars(path);
    let start = name_start(&chars);
    let name = text_of(&chars, start, chars.len());
    assert(chars@.subrange(start as int, chars.len() as int) =~= chars@.skip(start as int));
    name
}

/// The extension of a path's file name, if it has one.
pub fn extension_of(path: &str) -> (ext: Option<String>)
    ensures
        ext is Some == extension(path@) is Some,
        ext matches Some(e) ==> e@ == extension(path@).unwrap(),
{
    let chars = to_chars(path);
    let start = name_start(&chars);
    let ghost name = chars@.skip(start as int);
    match extension_dot(&chars, start) {
        Some(d) => {
            let ext = text_of(&chars, start + d + 1, chars.len());
            assert(chars@.subrange(start + d + 1, chars.len() as int) =~= name.skip(d + 1));
            Some(ext)
        },
        None => None,
    }
}

/// The file name of a path without its extension.
pub fn file_stem_of(path: &str) -> (stem: String)
    ensures
        stem@ == file_stem(path@),
{
    let chars = to_chars(path);
    let start = name_start(&chars);
    let ghost name = chars@.skip(start as int);
    match extension_dot(&chars, start) {
        Some(d) => {
            let stem = text_of(&chars, start, start + d);
            assert(chars@.subrange(start as int, start + d) =~= name.take(d as int));
            stem
        },
        None => {
            let stem = text_of(&chars, start, chars.len());
            assert(chars@.subrange(start as int, chars.len() as int) =~= name);
            stem
        },
    }
}

} // verus!
