//! The name under which the annotations of a folder are exported.

use vstd::prelude::*;
use vstd::string::*;

verus! {

/// `s` without the separators at its end.
pub open spec fn strip_trailing(s: Seq<char>, sep: char) -> Seq<char>
    decreases s.len(),
{
    if s.len() > 0 && s.last() == sep {
        strip_trailing(s.drop_last(), sep)
    } else {
        s
    }
}

/// The part of `s` behind its last separator; all of `s` if it has none.
pub open spec fn last_segment(s: Seq<char>, sep: char) -> Seq<char>
    decreases s.len(),
{
    if s.len() == 0 || s.last() == sep {
        Seq::empty()
    } else {
        last_segment(s.drop_last(), sep).push(s.last())
    }
}

/// The quotation mark that encloses `path`: `'` or `"` if the path both
/// starts and ends with it, else nothing.
pub open spec fn spec_mark(path: Seq<char>) -> Seq<char> {
    if path.len() > 0 && path.first() == '\'' && path.last() == '\'' {
        seq!['\'']
    } else if path.len() > 0 && path.first() == '"' && path.last() == '"' {
        seq!['"']
    } else {
        Seq::empty()
    }
}

/// `path` without the quotation marks that enclose it. A path that is
/// nothing but one quotation mark has nothing inside.
pub open spec fn unquoted(path: Seq<char>) -> Seq<char> {
    let m = spec_mark(path).len() as int;
    if path.len() >= 2 * m {
        path.subrange(m, path.len() - m)
    } else {
        Seq::empty()
    }
}

/// The last part of a path that holds the separator: what stands behind
/// the last separator, once quotation marks and separators at the end are
/// left out, put in the quotation marks of the path again.
pub open spec fn spec_last_part_of_path(path: Seq<char>, sep: char) -> Option<Seq<char>> {
    if path.contains(sep) {
        let m = spec_mark(path);
        Some(m + last_segment(strip_trailing(unquoted(path), sep), sep) + m)
    } else {
        None
    }
}

fn contains_char(s: &str, c: char) -> (b: bool)
    ensures
        b == s@.contains(c),
{
    let n = s.unicode_len();
    let mut i: usize = 0;
    while i < n
        invariant
            i <= n,
            n == s@.len(),
            forall|k: int| 0 <= k < i ==> s@[k] != c,
        decreases n - i,
    {
        if s.get_char(i) == c {
            return true;
        }
        i += 1;
    }
    false
}

/// The last part of `path`, if `path` holds the separator `sep`: the name
/// of the innermost folder or file, whether or not separators follow it,
/// in the quotation marks of the path if it has any.
pub fn get_last_part_of_path(path: &str, sep: char) -> (r: Option<String>)
    ensures
        r is Some <==> path@.contains(sep),
        match r {
            Some(s) => Some(s@) == spec_last_part_of_path(path@, sep),
            None => spec_last_part_of_path(path@, sep) is None,
        },
{
    if !contains_char(path, sep) {
        return None;
    }
    let n = path.unicode_len();
    proof {
        reveal_strlit("\'");
        reveal_strlit("\"");
        reveal_strlit("");
    }
    let mark = if n > 0 && path.get_char(0) == '\'' && path.get_char(n - 1) == '\'' {
        "\'"
    } else if n > 0 && path.get_char(0) == '"' && path.get_char(n - 1) == '"' {
        "\""
    } else {
        ""
    };
    assert(mark@ =~= spec_mark(path@));
    let offset = mark.unicode_len();
    let (lo, hi) = if n >= 2 * offset {
        (offset, n - offset)
    } else {
        (0, 0)
    };
    let inner = path.substring_char(lo, hi);
    assert(inner@ =~= unquoted(path@));
    let mut end = hi - lo;
    assert(inner@.subrange(0, end as int) =~= inner@);
    while end > 0 && inner.get_char(end - 1) == sep
        invariant
            end <= inner@.len(),
            strip_trailing(inner@, sep) == strip_trailing(inner@.subrange(0, end as int), sep),
        decreases end,
    {
        assert(inner@.subrange(0, end as int).drop_last() =~= inner@.subrange(0, end - 1));
        end -= 1;
    }
    let ghost stripped = inner@.subrange(0, end as int);
    assert(strip_trailing(inner@, sep) == stripped);
    let mut start = end;
    while start > 0 && inner.get_char(start - 1) != sep
        invariant
            start <= end <= inner@.len(),
            stripped == inner@.subrange(0, end as int),
            last_segment(stripped, sep) == last_segment(inner@.subrange(0, start as int), sep)
                + inner@.subrange(start as int, end as int),
        decreases start,
    {
        proof {
            let shorter = inner@.subrange(0, start - 1);
            let longer = inner@.subrange(0, start as int);
            assert(longer.drop_last() =~= shorter);
            assert(last_segment(longer, sep) == last_segment(shorter, sep).push(
                inner@[start - 1],
            ));
            assert(last_segment(shorter, sep).push(inner@[start - 1]) + inner@.subrange(
                start as int,
                end as int,
            ) =~= last_segment(shorter, sep) + inner@.subrange(start - 1, end as int));
        }
        start -= 1;
    }
    proof {
        let head = inner@.subrange(0, start as int);
        assert(last_segment(head, sep) =~= Seq::<char>::empty());
        assert(last_segment(stripped, sep) =~= inner@.subrange(start as int, end as int));
    }
    let last_folder = inner.substring_char(start, end);
    let mut out = String::from_str(mark);
    out.append(last_folder);
    out.append(mark);
    Some(out)
}

/// The name that the export of the annotations of `opened_folder` gets:
/// the last part of the folder's path, be it written with `/` or with `\`;
/// the path itself if it holds neither.
pub fn export_file_stem(opened_folder: &str) -> (r: String)
    ensures
        r@ == spec_export_file_stem(opened_folder@),
{
    let linux = get_last_part_of_path(opened_folder, '/');
    let windows = match &linux {
        Some(part) => get_last_part_of_path(part.as_str(), '\\'),
        None => get_last_part_of_path(opened_folder, '\\'),
    };
    match windows {
        Some(part) => part,
        None => match linux {
            Some(part) => part,
            None => opened_folder.to_owned(),
        },
    }
}

pub open spec fn spec_export_file_stem(opened_folder: Seq<char>) -> Seq<char> {
    let linux = spec_last_part_of_path(opened_folder, '/');
    let windows = match linux {
        Some(part) => spec_last_part_of_path(part, '\\'),
        None => spec_last_part_of_path(opened_folder, '\\'),
    };
    match windows {
        Some(part) => part,
        None => match linux {
            Some(part) => part,
            None => opened_folder,
        },
    }
}

} // verus!
