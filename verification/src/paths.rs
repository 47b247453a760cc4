//! Path logic: file-extension extraction and output-path construction.
//!
//! A path's final component is everything after the last `/`.  The
//! component has an extension when it contains a `.` that is not its
//! first character; the extension is everything after the last such
//! `.`, taken verbatim.  A component whose only `.` is leading (a
//! hidden file such as `.bashrc`) has no extension.

use vstd::prelude::*;
use vstd::string::StrSliceExecFns;
use vstd::string::StringExecFns;

use crate::decimal::decimal_of;
use crate::decimal::lemma_decimal_of_digits;
use crate::decimal::lemma_decimal_of_injective;
use crate::decimal::lemma_decimal_of_len;
use crate::decimal::u64_to_decimal;

verus! {

/// The index of the dot that starts the extension, found by scanning
/// positions `i - 1, i - 2, ...` down from the end: the scan stops at
/// the first `.` (a candidate) or `/` (no extension in the final
/// component at or beyond that point).
pub open spec fn find_ext_dot(p: Seq<char>, i: int) -> Option<int>
    decreases i,
{
    if i <= 0 {
        None
    } else if p[i - 1] == '/' {
        None
    } else if p[i - 1] == '.' {
        Some(i - 1)
    } else {
        find_ext_dot(p, i - 1)
    }
}

/// The extension of `p`, if any: the text after the last `.` of the
/// final path component, unless that `.` begins the component.
pub open spec fn spec_extension_of(p: Seq<char>) -> Option<Seq<char>> {
    match find_ext_dot(p, p.len() as int) {
        None => None,
        Some(d) => if d == 0 || p[d - 1] == '/' {
            None
        } else {
            Some(p.subrange(d + 1, p.len() as int))
        },
    }
}

/// What a successful scan says about the string: the found position
/// holds a `.`, lies below `i`, and nothing after it up to `i` is a
/// `.` or a `/`.
pub proof fn lemma_find_ext_dot_props(p: Seq<char>, i: int)
    requires
        i <= p.len(),
    ensures
        find_ext_dot(p, i) matches Some(d) ==> 0 <= d < i && p[d] == '.' && forall|k: int|
            d < k < i ==> p[k] != '.' && p[k] != '/',
    decreases i,
{
    if i > 0 && p[i - 1] != '/' && p[i - 1] != '.' {
        lemma_find_ext_dot_props(p, i - 1);
    }
}

/// Positions that hold neither `.` nor `/` do not change the scan.
pub proof fn lemma_find_ext_dot_skip(p: Seq<char>, i: int, j: int)
    requires
        0 <= j <= i <= p.len(),
        forall|k: int| j <= k < i ==> p[k] != '.' && p[k] != '/',
    ensures
        find_ext_dot(p, i) == find_ext_dot(p, j),
    decreases i - j,
{
    if j < i {
        lemma_find_ext_dot_skip(p, i - 1, j);
    }
}

/// An extension contains neither `.` nor `/`, and a path that has one
/// is at least two characters long.
pub proof fn lemma_extension_shape(p: Seq<char>)
    ensures
        spec_extension_of(p) matches Some(e) ==> p.len() >= 2 && e.len() < p.len() && (forall|
            k: int,
        | 0 <= k < e.len() ==> e[k] != '.' && e[k] != '/'),
{
    if spec_extension_of(p) is Some {
        lemma_find_ext_dot_props(p, p.len() as int);
    }
}

/// Extracts the extension of `path`, if it has one.
pub fn extension_of(path: &str) -> (r: Option<String>)
    ensures
        r is Some <==> spec_extension_of(path@) is Some,
        r matches Some(s) ==> spec_extension_of(path@) matches Some(e) && s@ == e,
{
    let len = path.unicode_len();
    let mut i = len;
    loop
        invariant
            i <= len,
            len == path@.len(),
            find_ext_dot(path@, len as int) == find_ext_dot(path@, i as int),
        decreases i,
    {
        if i == 0 {
            return None;
        }
        let c = path.get_char(i - 1);
        if c == '/' {
            return None;
        }
        if c == '.' {
            let d = i - 1;
            if d == 0 {
                return None;
            }
            if path.get_char(d - 1) == '/' {
                return None;
            }
            let ext = path.substring_char(d + 1, len);
            return Some(ext.to_owned());
        }
        i = i - 1;
    }
}

/// The output path for a processed image: directory, `/`, the decimal
/// timestamp, `.`, and the source file's extension.
pub open spec fn spec_save_path(dir: Seq<char>, millis: nat, ext: Seq<char>) -> Seq<char> {
    dir + seq!['/'] + decimal_of(millis) + seq!['.'] + ext
}

/// Builds the output path for a processed image.
pub fn save_path_for(dir: &str, millis: u64, ext: &str) -> (r: String)
    ensures
        r@ == spec_save_path(dir@, millis as nat, ext@),
{
    proof {
        reveal_strlit("/");
        reveal_strlit(".");
    }
    let mut r = dir.to_owned();
    r.append("/");
    let t = u64_to_decimal(millis);
    r.append(t.as_str());
    r.append(".");
    r.append(ext);
    proof {
        assert(r@ =~= spec_save_path(dir@, millis as nat, ext@));
    }
    r
}

/// A saved file's own extension is the extension it was built with,
/// provided that text is free of `.` and `/` — as any extension that
/// `spec_extension_of` produced is.
pub proof fn lemma_save_path_extension(dir: Seq<char>, millis: nat, ext: Seq<char>)
    requires
        forall|k: int| 0 <= k < ext.len() ==> ext[k] != '.' && ext[k] != '/',
    ensures
        spec_extension_of(spec_save_path(dir, millis, ext)) == Some(ext),
{
    let p = spec_save_path(dir, millis, ext);
    let d = (dir.len() + 1 + decimal_of(millis).len()) as int;
    lemma_decimal_of_len(millis);
    assert(p.len() == dir.len() + 1 + decimal_of(millis).len() + 1 + ext.len());
    assert(p[d] == '.');
    assert forall|k: int| d + 1 <= k < p.len() implies p[k] != '.' && p[k] != '/' by {
        assert(p[k] == ext[k - (d + 1)]);
    }
    lemma_find_ext_dot_skip(p, p.len() as int, d + 1);
    assert(find_ext_dot(p, d + 1) == Some(d));
    lemma_decimal_of_digits(millis);
    assert(p[d - 1] == decimal_of(millis).last());
    assert(p[d - 1] != '/');
    assert(p.subrange(d + 1, p.len() as int) =~= ext);
}

/// Distinct timestamps give distinct output paths: the timestamp's
/// decimal rendering is injective, and it sits between segments that
/// the two paths share.
pub proof fn lemma_save_paths_distinct(dir: Seq<char>, m1: nat, m2: nat, ext: Seq<char>)
    requires
        m1 != m2,
    ensures
        spec_save_path(dir, m1, ext) != spec_save_path(dir, m2, ext),
{
    let p1 = spec_save_path(dir, m1, ext);
    let p2 = spec_save_path(dir, m2, ext);
    let d1 = decimal_of(m1);
    let d2 = decimal_of(m2);
    if p1 == p2 {
        assert(p1.len() == dir.len() + 1 + d1.len() + 1 + ext.len());
        assert(p2.len() == dir.len() + 1 + d2.len() + 1 + ext.len());
        assert(d1.len() == d2.len());
        assert(d1 =~= d2) by {
            assert forall|i: int| 0 <= i < d1.len() implies d1[i] == d2[i] by {
                assert(p1[dir.len() + 1 + i] == d1[i]);
                assert(p2[dir.len() + 1 + i] == d2[i]);
            }
        }
        lemma_decimal_of_injective(m1, m2);
    }
}

} // verus!
