//! Verified path-string handling: file extensions, joining and
//! prefix-stripping, spelled out over plain character sequences with
//! `/` as the separator.

use vstd::prelude::*;
use vstd::string::StrSliceExecFns;
use vstd::string::StringExecFns;

use crate::strutil::{last_index_of, push_char, rfind_char, str_eq};

verus! {

/// Where the final path component starts: right after the last `/`,
/// or at the front when there is none.
pub open spec fn file_name_start(p: Seq<char>) -> int {
    last_index_of(p, '/') + 1
}

/// The extension of the final component: what follows its last dot,
/// unless that dot is the component's first character or there is no
/// dot at all.
pub open spec fn spec_extension(p: Seq<char>) -> Option<Seq<char>> {
    let d = last_index_of(p, '.');
    if d > file_name_start(p) {
        Some(p.skip(d + 1))
    } else {
        None
    }
}

/// The path with its extension replaced (or, lacking one, appended).
pub open spec fn spec_set_extension(p: Seq<char>, e: Seq<char>) -> Seq<char> {
    let d = last_index_of(p, '.');
    if d > file_name_start(p) {
        p.take(d + 1) + e
    } else {
        p.push('.') + e
    }
}

/// The path extended by one more component.
pub open spec fn spec_push_component(p: Seq<char>, c: Seq<char>) -> Seq<char> {
    if p.len() == 0 {
        c
    } else if p.last() == '/' {
        p + c
    } else {
        p + seq!['/'] + c
    }
}

/// Joining a relative path onto a base; a path that starts with the
/// separator replaces the base outright, as std's path join does.
pub open spec fn spec_join(base: Seq<char>, rel: Seq<char>) -> Seq<char> {
    if rel.len() > 0 && rel[0] == '/' {
        rel
    } else if base.len() == 0 {
        rel
    } else {
        spec_push_component(base, rel)
    }
}

/// Removing a leading directory prefix: the whole path for an empty
/// prefix, the rest after the prefix and one separator otherwise.
pub open spec fn spec_strip_prefix(p: Seq<char>, pre: Seq<char>) -> Option<Seq<char>> {
    if pre.len() == 0 {
        Some(p)
    } else if p == pre {
        Some(Seq::empty())
    } else if p.len() >= pre.len() && p.take(pre.len() as int) == pre && pre.last() == '/' {
        Some(p.skip(pre.len() as int))
    } else if p.len() > pre.len() && p.take(pre.len() as int) == pre && p[pre.len() as int]
        == '/' {
        Some(p.skip(pre.len() as int + 1))
    } else {
        None
    }
}

/// The extension of the final path component, if any.
pub fn extension_of(p: &str) -> (r: Option<String>)
    ensures
        match r {
            Some(e) => spec_extension(p@) == Some(e@),
            None => spec_extension(p@) is None,
        },
{
    let n = p.unicode_len();
    let start: usize = match rfind_char(p, '/') {
        Some(i) => i + 1,
        None => 0,
    };
    match rfind_char(p, '.') {
        Some(d) if d > start => {
            let e = p.substring_char(d + 1, n).to_owned();
            proof {
                assert(e@ =~= p@.skip(last_index_of(p@, '.') + 1));
            }
            Some(e)
        },
        _ => None,
    }
}

/// Replaces (or appends) the extension of the final component.
pub fn set_extension(p: &str, e: &str) -> (r: String)
    ensures
        r@ == spec_set_extension(p@, e@),
{
    let n = p.unicode_len();
    let start: usize = match rfind_char(p, '/') {
        Some(i) => i + 1,
        None => 0,
    };
    match rfind_char(p, '.') {
        Some(d) if d > start => {
            let mut r = p.substring_char(0, d + 1).to_owned();
            r.append(e);
            proof {
                assert(r@ =~= p@.take(last_index_of(p@, '.') + 1) + e@);
            }
            r
        },
        _ => {
            let mut r = p.to_owned();
            push_char(&mut r, '.');
            r.append(e);
            proof {
                assert(r@ =~= p@.push('.') + e@);
            }
            r
        },
    }
}

/// Appends one component, inserting a separator where needed.
pub fn push_component(p: &str, c: &str) -> (r: String)
    ensures
        r@ == spec_push_component(p@, c@),
{
    let n = p.unicode_len();
    if n == 0 {
        c.to_owned()
    } else if p.get_char(n - 1) == '/' {
        let mut r = p.to_owned();
        r.append(c);
        r
    } else {
        let mut r = p.to_owned();
        push_char(&mut r, '/');
        r.append(c);
        proof {
            assert(r@ =~= p@ + seq!['/'] + c@);
        }
        r
    }
}

/// Joins a relative path onto a base directory.
pub fn join_path(base: &str, rel: &str) -> (r: String)
    ensures
        r@ == spec_join(base@, rel@),
{
    let m = rel.unicode_len();
    if m > 0 && rel.get_char(0) == '/' {
        rel.to_owned()
    } else if base.unicode_len() == 0 {
        rel.to_owned()
    } else {
        push_component(base, rel)
    }
}

/// Strips a leading directory prefix from a path.
pub fn strip_prefix(p: &str, pre: &str) -> (r: Option<String>)
    ensures
        match r {
            Some(rest) => spec_strip_prefix(p@, pre@) == Some(rest@),
            None => spec_strip_prefix(p@, pre@) is None,
        },
{
    let n = p.unicode_len();
    let m = pre.unicode_len();
    if m == 0 {
        return Some(p.to_owned());
    }
    if str_eq(p, pre) {
        return Some(String::new());
    }
    if n < m {
        return None;
    }
    let head = p.substring_char(0, m);
    proof {
        assert(head@ =~= p@.take(m as int));
    }
    if !str_eq(head, pre) {
        return None;
    }
    if pre.get_char(m - 1) == '/' {
        let rest = p.substring_char(m, n).to_owned();
        proof {
            assert(rest@ =~= p@.skip(m as int));
        }
        return Some(rest);
    }
    if n > m && p.get_char(m) == '/' {
        let rest = p.substring_char(m + 1, n).to_owned();
        proof {
            assert(rest@ =~= p@.skip(m + 1 as int));
        }
        return Some(rest);
    }
    None
}

} // verus!
