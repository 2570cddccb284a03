//! Paths as text.
//!
//! A path is a string whose components are separated by `/`. It is taken
//! as written: nothing is normalised, and a trailing separator leaves an
//! empty last component.

use crate::text::{string_from_chars, to_chars};
use vstd::prelude::*;
use vstd::string::*;

verus! {

broadcast use vstd::string::group_string_axioms;

/// Index of the last occurrence of `c` in `s`; `-1` where there is none.
pub open spec fn last_index_of(s: Seq<char>, c: char) -> int
    decreases s.len(),
{
    if s.len() == 0 {
        -1
    } else if s.last() == c {
        s.len() - 1
    } else {
        last_index_of(s.drop_last(), c)
    }
}

/// The last component of a path: what follows its last separator.
pub open spec fn file_name_spec(path: Seq<char>) -> Seq<char> {
    path.subrange(last_index_of(path, '/') + 1, path.len() as int)
}

/// The path without its last component: `None` for the empty path and for
/// the root, the root for a path directly under it, the empty path where
/// there is no separator.
pub open spec fn parent_spec(path: Seq<char>) -> Option<Seq<char>> {
    let cut = last_index_of(path, '/');
    if cut < 0 {
        if path.len() == 0 {
            None
        } else {
            Some(Seq::empty())
        }
    } else if cut == 0 {
        if path.len() == 1 {
            None
        } else {
            Some(path.subrange(0, 1))
        }
    } else {
        Some(path.subrange(0, cut))
    }
}

/// The extension of a path: what follows the last dot of the file name,
/// unless the name has no dot or only a leading one.
pub open spec fn extension_spec(path: Seq<char>) -> Option<Seq<char>> {
    let name = file_name_spec(path);
    let dot = last_index_of(name, '.');
    if dot <= 0 {
        None
    } else {
        Some(name.subrange(dot + 1, name.len() as int))
    }
}

/// The file name without its extension; `None` where the name is empty.
pub open spec fn file_stem_spec(path: Seq<char>) -> Option<Seq<char>> {
    let name = file_name_spec(path);
    let dot = last_index_of(name, '.');
    if name.len() == 0 {
        None
    } else if dot <= 0 {
        Some(name)
    } else {
        Some(name.subrange(0, dot))
    }
}

/// The path of `name` inside the directory `dir`.
pub open spec fn join_spec(dir: Seq<char>, name: Seq<char>) -> Seq<char> {
    if dir.len() == 0 || dir.last() == '/' {
        dir + name
    } else {
        dir + "/"@ + name
    }
}

/// The source files of the language end in `.bal`.
pub open spec fn is_bal_file_spec(path: Seq<char>) -> bool {
    extension_spec(path) == Some("bal"@)
}

/// The directories above a path, nearest first: its parent, the parent of
/// that, and so on.
pub open spec fn ancestors_spec(path: Seq<char>) -> Seq<Seq<char>>
    decreases path.len(),
{
    match parent_spec(path) {
        None => Seq::empty(),
        Some(parent) => {
            if parent.len() < path.len() {
                seq![parent] + ancestors_spec(parent)
            } else {
                seq![parent]
            }
        },
    }
}

/// The last `c` is where a `c` stands in front of none.
proof fn lemma_last_index_is(s: Seq<char>, c: char, at: int)
    requires
        -1 <= at < s.len(),
        at >= 0 ==> s[at] == c,
        forall|i: int| at < i < s.len() ==> s[i] != c,
    ensures
        last_index_of(s, c) == at,
    decreases s.len(),
{
    if s.len() > 0 && s.last() != c {
        lemma_last_index_is(s.drop_last(), c, at);
    }
}

/// Index of the last `c` in `chars[from..to]`, relative to `from`.
fn rfind(chars: &Vec<char>, from: usize, to: usize, c: char) -> (r: Option<usize>)
    requires
        from <= to <= chars@.len(),
    ensures
        match r {
            Some(i) => from <= i < to && i - from == last_index_of(
                chars@.subrange(from as int, to as int),
                c,
            ),
            None => last_index_of(chars@.subrange(from as int, to as int), c) == -1,
        },
{
    let mut i: usize = to;
    while i > from
        invariant
            from <= i <= to <= chars@.len(),
            forall|j: int| i <= j < to ==> chars@[j] != c,
        decreases i,
    {
        if chars[i - 1] == c {
            proof {
                lemma_last_index_is(chars@.subrange(from as int, to as int), c, i - 1 - from);
            }
            return Some(i - 1);
        }
        i -= 1;
    }
    proof {
        lemma_last_index_is(chars@.subrange(from as int, to as int), c, -1);
    }
    None
}

/// Start of the file name in `chars`.
fn name_start(chars: &Vec<char>) -> (start: usize)
    ensures
        start <= chars@.len(),
        start == last_index_of(chars@, '/') + 1,
        chars@.subrange(start as int, chars@.len() as int) == file_name_spec(chars@),
{
    assert(chars@.subrange(0, chars@.len() as int) =~= chars@);
    match rfind(chars, 0, chars.len(), '/') {
        Some(i) => i + 1,
        None => 0,
    }
}

/// The extension of a path.
pub fn extension(path: &str) -> (r: Option<String>)
    ensures
        crate::text::opt_string_view(r) == extension_spec(path@),
{
    let chars = to_chars(path);
    let start = name_start(&chars);
    let n = chars.len();
    match rfind(&chars, start, n, '.') {
        Some(dot) => {
            if dot == start {
                None
            } else {
                let ghost name = file_name_spec(chars@);
                assert(chars@.subrange(dot + 1, n as int) =~= name.subrange(
                    dot - start + 1,
                    name.len() as int,
                ));
                Some(string_from_chars(&chars, dot + 1, n))
            }
        },
        None => None,
    }
}

/// The file name of a path without its extension.
pub fn file_stem(path: &str) -> (r: Option<String>)
    ensures
        crate::text::opt_string_view(r) == file_stem_spec(path@),
{
    let chars = to_chars(path);
    let start = name_start(&chars);
    let n = chars.len();
    if start == n {
        return None;
    }
    match rfind(&chars, start, n, '.') {
        Some(dot) => {
            if dot == start {
                Some(string_from_chars(&chars, start, n))
            } else {
                Some(string_from_chars(&chars, start, dot))
            }
        },
        None => Some(string_from_chars(&chars, start, n)),
    }
}

/// The path without its last component.
pub fn parent(path: &str) -> (r: Option<String>)
    ensures
        crate::text::opt_string_view(r) == parent_spec(path@),
{
    let chars = to_chars(path);
    let n = chars.len();
    assert(chars@.subrange(0, n as int) =~= chars@);
    match rfind(&chars, 0, n, '/') {
        None => {
            if n == 0 {
                None
            } else {
                Some(String::new())
            }
        },
        Some(cut) => {
            if cut == 0 {
                if n == 1 {
                    None
                } else {
                    Some(string_from_chars(&chars, 0, 1))
                }
            } else {
                Some(string_from_chars(&chars, 0, cut))
            }
        },
    }
}

/// The path of `name` inside the directory `dir`.
pub fn join(dir: &str, name: &str) -> (r: String)
    ensures
        r@ == join_spec(dir@, name@),
{
    let chars = to_chars(dir);
    let mut r = String::from_str(dir);
    if chars.len() > 0 && chars[chars.len() - 1] != '/' {
        r.append("/");
    }
    r.append(name);
    r
}

/// True for paths that end in `.bal`.
pub fn is_bal_file(path: &str) -> (b: bool)
    ensures
        b == is_bal_file_spec(path@),
{
    match extension(path) {
        Some(ext) => {
            let bal = String::from_str("bal");
            ext == bal
        },
        None => false,
    }
}

/// The directories above a path, nearest first.
pub fn ancestors(path: &str) -> (dirs: Vec<String>)
    ensures
        crate::text::strings_view(dirs@) == ancestors_spec(path@),
{
    let mut dirs: Vec<String> = Vec::new();
    let mut current = String::from_str(path);
    let ghost mut done: Seq<Seq<char>> = Seq::empty();
    loop
        invariant_except_break
            crate::text::strings_view(dirs@) == done,
            done + ancestors_spec(current@) == ancestors_spec(path@),
        ensures
            crate::text::strings_view(dirs@) == ancestors_spec(path@),
        decreases current@.len(),
    {
        match parent(current.as_str()) {
            None => {
                break ;
            },
            Some(dir) => {
                let shorter = dir.as_str().unicode_len() < current.as_str().unicode_len();
                dirs.push(dir.clone());
                proof {
                    if shorter {
                        assert(done.push(dir@) + ancestors_spec(dir@) =~= done + (seq![dir@]
                            + ancestors_spec(dir@)));
                    }
                    done = done.push(dir@);
                }
                if !shorter {
                    break ;
                }
                current = dir;
            },
        }
    }
    dirs
}

} // verus!
