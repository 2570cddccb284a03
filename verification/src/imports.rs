//! Extraction of import paths from source text.
//!
//! An import is a line that, without the white space around it, starts
//! with `import ` (the keyword and one space). Its path is what follows,
//! without the semicolons at its end.

use crate::text::{string_from_chars, to_chars, trim_end_index, trim_spec, trim_start_index};
use vstd::prelude::*;
use vstd::string::*;

verus! {

broadcast use vstd::string::group_string_axioms;

/// The keyword and the space that start an import line.
pub open spec fn import_prefix() -> Seq<char> {
    seq!['i', 'm', 'p', 'o', 'r', 't', ' ']
}

/// `s` without the occurrences of `c` at its end.
pub open spec fn strip_trailing(s: Seq<char>, c: char) -> Seq<char>
    decreases s.len(),
{
    if s.len() > 0 && s.last() == c {
        strip_trailing(s.drop_last(), c)
    } else {
        s
    }
}

/// The import path on a line, if the line is an import.
pub open spec fn import_of_line(line: Seq<char>) -> Option<Seq<char>> {
    let t = trim_spec(line);
    if t.len() >= 7 && t.subrange(0, 7) == import_prefix() {
        Some(strip_trailing(t.subrange(7, t.len() as int), ';'))
    } else {
        None
    }
}

/// End of the line that starts at `from`: the index of the next line feed,
/// or the end of the text.
pub open spec fn line_end(s: Seq<char>, from: int) -> int
    decreases s.len() - from,
{
    if 0 <= from < s.len() && s[from] != '\n' {
        line_end(s, from + 1)
    } else {
        from
    }
}

/// The import paths on the lines of `s` from offset `from` on, in order.
pub open spec fn imports_from(s: Seq<char>, from: int) -> Seq<Seq<char>>
    decreases s.len() - from,
{
    if 0 <= from <= s.len() {
        let end = line_end(s, from);
        let rest = if from <= end < s.len() {
            imports_from(s, end + 1)
        } else {
            Seq::empty()
        };
        match import_of_line(s.subrange(from, end)) {
            Some(path) => seq![path] + rest,
            None => rest,
        }
    } else {
        Seq::empty()
    }
}

/// The import paths of a source text, in order.
pub open spec fn parse_imports_spec(source: Seq<char>) -> Seq<Seq<char>> {
    imports_from(source, 0)
}

/// Finds the end of the line that starts at `from`.
fn find_line_end(chars: &Vec<char>, from: usize) -> (end: usize)
    requires
        from <= chars@.len(),
    ensures
        end == line_end(chars@, from as int),
        from <= end <= chars@.len(),
{
    let mut end = from;
    while end < chars.len() && chars[end] != '\n'
        invariant
            from <= end <= chars@.len(),
            line_end(chars@, end as int) == line_end(chars@, from as int),
        decreases chars@.len() - end,
    {
        end += 1;
    }
    end
}

/// Index of the end of `chars[from..to]` once the occurrences of `c` at
/// its end are dropped.
fn strip_trailing_index(chars: &Vec<char>, from: usize, to: usize, c: char) -> (e: usize)
    requires
        from <= to <= chars@.len(),
    ensures
        from <= e <= to,
        chars@.subrange(from as int, e as int) == strip_trailing(
            chars@.subrange(from as int, to as int),
            c,
        ),
{
    let mut e: usize = to;
    while e > from && chars[e - 1] == c
        invariant
            from <= e <= to <= chars@.len(),
            strip_trailing(chars@.subrange(from as int, e as int), c) == strip_trailing(
                chars@.subrange(from as int, to as int),
                c,
            ),
        decreases e,
    {
        proof {
            let cur = chars@.subrange(from as int, e as int);
            assert(cur.drop_last() =~= chars@.subrange(from as int, e - 1));
        }
        e -= 1;
    }
    e
}

/// True where `chars[from..to]` starts with the keyword and a space.
fn starts_with_import(chars: &Vec<char>, from: usize, to: usize) -> (b: bool)
    requires
        from <= to <= chars@.len(),
    ensures
        b == (to - from >= 7 && chars@.subrange(from as int, to as int).subrange(0, 7)
            == import_prefix()),
{
    if to - from < 7 {
        return false;
    }
    let ghost t = chars@.subrange(from as int, to as int);
    let b = chars[from] == 'i' && chars[from + 1] == 'm' && chars[from + 2] == 'p' && chars[from
        + 3] == 'o' && chars[from + 4] == 'r' && chars[from + 5] == 't' && chars[from + 6] == ' ';
    proof {
        let head = t.subrange(0, 7);
        if b {
            assert(head =~= import_prefix());
        }
    }
    b
}

/// The import path on the line `chars[from..to]`, if the line is an import.
fn import_on_line(chars: &Vec<char>, from: usize, to: usize) -> (r: Option<String>)
    requires
        from <= to <= chars@.len(),
    ensures
        crate::text::opt_string_view(r) == import_of_line(chars@.subrange(from as int, to as int)),
{
    let start = trim_start_index(chars, from, to);
    let stop = trim_end_index(chars, start, to);
    let ghost t = chars@.subrange(start as int, stop as int);
    if starts_with_import(chars, start, stop) {
        let end = strip_trailing_index(chars, start + 7, stop, ';');
        assert(chars@.subrange(start + 7, stop as int) =~= t.subrange(7, t.len() as int));
        Some(string_from_chars(chars, start + 7, end))
    } else {
        None
    }
}

/// The import paths of a source text, in the order of their lines.
pub fn parse_imports(source: &str) -> (imports: Vec<String>)
    ensures
        crate::text::strings_view(imports@) == parse_imports_spec(source@),
{
    let chars = to_chars(source);
    let ghost s = chars@;
    let mut imports: Vec<String> = Vec::new();
    let mut from: usize = 0;
    loop
        invariant_except_break
            from <= chars@.len(),
            crate::text::strings_view(imports@) + imports_from(s, from as int) == imports_from(
                s,
                0,
            ),
        invariant
            s == chars@,
            s == source@,
        ensures
            crate::text::strings_view(imports@) == imports_from(s, 0),
        decreases chars@.len() - from,
    {
        let end = find_line_end(&chars, from);
        let ghost rest = if end < s.len() {
            imports_from(s, end + 1)
        } else {
            Seq::empty()
        };
        match import_on_line(&chars, from, end) {
            Some(path) => {
                imports.push(path);
            },
            None => {},
        }
        if end >= chars.len() {
            assert(crate::text::strings_view(imports@) + rest =~= crate::text::strings_view(
                imports@,
            ));
            break ;
        }
        from = end + 1;
    }
    imports
}

} // verus!
