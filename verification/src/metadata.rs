//! Document metadata: lines of the form `$[key(value)]` are taken out
//! of the Markdown source and collected into a `Metadata` value; every
//! other line stays behind.

use vstd::prelude::*;
use vstd::string::StrSliceExecFns;
use vstd::string::StringExecFns;

use crate::assoc::{assoc_set, pair_views, spec_assoc_set};
use crate::strutil::{
    ends_with_str, find_char, first_index_of, join_with, lines_vec, spec_join, spec_lines,
    spec_trim, starts_with_str, str_eq, str_views, trim_str,
};

verus! {

/// The mathematical content of a metadata block.
#[verifier::ext_equal]
pub struct MetadataModel {
    pub language: Seq<char>,
    pub charset: Seq<char>,
    pub title: Seq<char>,
    pub author: Option<Seq<char>>,
    pub description: Option<Seq<char>>,
    pub icon: Option<Seq<char>>,
    pub stylesheets: Seq<Seq<char>>,
    pub templates: Seq<Seq<char>>,
    pub other: Seq<(Seq<char>, Seq<char>)>,
}

/// The view of an optional owned string.
pub open spec fn opt_view(o: Option<String>) -> Option<Seq<char>> {
    match o {
        Some(s) => Some(s@),
        None => None,
    }
}

/// The document metadata drawn from `$[key(value)]` lines.
#[derive(Debug)]
pub struct Metadata {
    /// The `lang` attribute of the document; `en` unless set.
    pub language: String,
    /// The character set named in the head; `UTF-8` unless set.
    pub charset: String,
    /// The document title; empty unless set.
    pub title: String,
    /// The author meta tag, when set.
    pub author: Option<String>,
    /// The description meta tag, when set.
    pub description: Option<String>,
    /// The icon link, when set.
    pub icon: Option<String>,
    /// Stylesheet links, in the order written.
    pub stylesheets: Vec<String>,
    /// Template names; collected but not supported.
    pub templates: Vec<String>,
    /// Every other key, rendered as a generic meta tag; a repeated
    /// key keeps its first position with the latest value.
    pub other: Vec<(String, String)>,
}

impl View for Metadata {
    type V = MetadataModel;

    open spec fn view(&self) -> MetadataModel {
        MetadataModel {
            language: self.language@,
            charset: self.charset@,
            title: self.title@,
            author: opt_view(self.author),
            description: opt_view(self.description),
            icon: opt_view(self.icon),
            stylesheets: str_views(self.stylesheets@),
            templates: str_views(self.templates@),
            other: pair_views(self.other@),
        }
    }
}

/// The metadata of a document with no metadata lines.
pub open spec fn default_meta() -> MetadataModel {
    MetadataModel {
        language: "en"@,
        charset: "UTF-8"@,
        title: ""@,
        author: None,
        description: None,
        icon: None,
        stylesheets: Seq::empty(),
        templates: Seq::empty(),
        other: Seq::empty(),
    }
}

impl Default for Metadata {
    /// The defaults before any metadata line is read.
    fn default() -> (m: Metadata)
        ensures
            m@ == default_meta(),
    {
        let m = Metadata {
            language: String::from_str("en"),
            charset: String::from_str("UTF-8"),
            title: String::from_str(""),
            author: None,
            description: None,
            icon: None,
            stylesheets: Vec::new(),
            templates: Vec::new(),
            other: Vec::new(),
        };
        proof {
            assert(m@ =~= default_meta());
        }
        m
    }
}

/// A line that carries metadata: it is bracketed by `$[` and `)]` and
/// holds an opening parenthesis between them. Lines that merely look
/// similar stay in the document.
pub open spec fn is_meta_line(l: Seq<char>) -> bool {
    l.len() >= 4 && l.take(2) == "$["@ && l.skip(l.len() - 2) == ")]"@ && first_index_of(
        l.subrange(2, l.len() - 2),
        '(',
    ) >= 0
}

/// The key of a metadata line: what stands before its first `(`.
pub open spec fn key_of(l: Seq<char>) -> Seq<char> {
    let inner = l.subrange(2, l.len() - 2);
    inner.take(first_index_of(inner, '('))
}

/// The value of a metadata line: what follows its first `(`, with
/// whitespace and quotes trimmed.
pub open spec fn val_of(l: Seq<char>) -> Seq<char> {
    let inner = l.subrange(2, l.len() - 2);
    spec_trim(inner.skip(first_index_of(inner, '(') + 1), true)
}

/// How one metadata pair changes the collected metadata: scalar keys
/// overwrite, list keys append, anything else lands among the generic
/// meta tags.
pub open spec fn meta_apply(m: MetadataModel, key: Seq<char>, val: Seq<char>) -> MetadataModel {
    if key == "language"@ || key == "lang"@ {
        MetadataModel { language: val, ..m }
    } else if key == "charset"@ {
        MetadataModel { charset: val, ..m }
    } else if key == "title"@ {
        MetadataModel { title: val, ..m }
    } else if key == "author"@ {
        MetadataModel { author: Some(val), ..m }
    } else if key == "description"@ || key == "desc"@ {
        MetadataModel { description: Some(val), ..m }
    } else if key == "icon"@ {
        MetadataModel { icon: Some(val), ..m }
    } else if key == "stylesheet"@ || key == "style"@ {
        MetadataModel { stylesheets: m.stylesheets.push(val), ..m }
    } else if key == "template"@ {
        MetadataModel { templates: m.templates.push(val), ..m }
    } else {
        MetadataModel { other: spec_assoc_set(m.other, key, val), ..m }
    }
}

/// Walks the lines: metadata lines feed the collected metadata in
/// order, the rest are kept.
pub open spec fn extract_rec(ls: Seq<Seq<char>>, m: MetadataModel) -> (
    MetadataModel,
    Seq<Seq<char>>,
)
    decreases ls.len(),
{
    if ls.len() == 0 {
        (m, Seq::empty())
    } else if is_meta_line(ls[0]) {
        extract_rec(ls.drop_first(), meta_apply(m, key_of(ls[0]), val_of(ls[0])))
    } else {
        let r = extract_rec(ls.drop_first(), m);
        (r.0, seq![ls[0]] + r.1)
    }
}

/// What extraction yields on a whole text: the collected metadata and
/// the remaining lines joined back with newlines.
pub open spec fn spec_extract(t: Seq<char>) -> (MetadataModel, Seq<char>) {
    let r = extract_rec(spec_lines(t), default_meta());
    (r.0, spec_join(r.1, "\n"@))
}

fn is_meta_line_exec(l: &str) -> (r: bool)
    ensures
        r == is_meta_line(l@),
{
    let n = l.unicode_len();
    if n < 4 {
        return false;
    }
    proof {
        reveal_strlit("$[");
        reveal_strlit(")]");
    }
    if !starts_with_str(l, "$[") {
        return false;
    }
    if !ends_with_str(l, ")]") {
        return false;
    }
    let inner = l.substring_char(2, n - 2);
    proof {
        assert(inner@ =~= l@.subrange(2, l@.len() - 2));
    }
    match find_char(inner, '(') {
        Some(_) => true,
        None => false,
    }
}

/// Feeds one metadata line into the collected metadata.
fn apply_meta_line(meta: &mut Metadata, line: &str)
    requires
        is_meta_line(line@),
    ensures
        final(meta)@ == meta_apply(old(meta)@, key_of(line@), val_of(line@)),
{
    let n = line.unicode_len();
    proof {
        reveal_strlit("$[");
    }
    let inner = line.substring_char(2, n - 2);
    proof {
        assert(inner@ =~= line@.subrange(2, line@.len() - 2));
    }
    let k = match find_char(inner, '(') {
        Some(k) => k,
        None => {
            proof {
                assert(false);
            }
            0
        },
    };
    let inner_len = inner.unicode_len();
    let key = inner.substring_char(0, k);
    let raw = inner.substring_char(k + 1, inner_len);
    proof {
        assert(key@ =~= inner@.take(k as int));
        assert(raw@ =~= inner@.skip(k + 1 as int));
    }
    let val = trim_str(raw, true);
    if str_eq(key, "language") || str_eq(key, "lang") {
        meta.language = val;
        proof {
            assert(meta@ =~= meta_apply(old(meta)@, key_of(line@), val_of(line@)));
        }
    } else if str_eq(key, "charset") {
        meta.charset = val;
        proof {
            assert(meta@ =~= meta_apply(old(meta)@, key_of(line@), val_of(line@)));
        }
    } else if str_eq(key, "title") {
        meta.title = val;
        proof {
            assert(meta@ =~= meta_apply(old(meta)@, key_of(line@), val_of(line@)));
        }
    } else if str_eq(key, "author") {
        meta.author = Some(val);
        proof {
            assert(meta@ =~= meta_apply(old(meta)@, key_of(line@), val_of(line@)));
        }
    } else if str_eq(key, "description") || str_eq(key, "desc") {
        meta.description = Some(val);
        proof {
            assert(meta@ =~= meta_apply(old(meta)@, key_of(line@), val_of(line@)));
        }
    } else if str_eq(key, "icon") {
        meta.icon = Some(val);
        proof {
            assert(meta@ =~= meta_apply(old(meta)@, key_of(line@), val_of(line@)));
        }
    } else if str_eq(key, "stylesheet") || str_eq(key, "style") {
        meta.stylesheets.push(val);
        proof {
            assert(str_views(meta.stylesheets@) =~= str_views(old(meta).stylesheets@).push(
                val_of(line@),
            ));
            assert(meta@ =~= meta_apply(old(meta)@, key_of(line@), val_of(line@)));
        }
    } else if str_eq(key, "template") {
        meta.templates.push(val);
        proof {
            assert(str_views(meta.templates@) =~= str_views(old(meta).templates@).push(
                val_of(line@),
            ));
            assert(meta@ =~= meta_apply(old(meta)@, key_of(line@), val_of(line@)));
        }
    } else {
        assoc_set(&mut meta.other, key, val.as_str());
        proof {
            assert(meta@ =~= meta_apply(old(meta)@, key_of(line@), val_of(line@)));
        }
    }
}

/// Extracts metadata from a text: every well-formed `$[key(value)]`
/// line feeds the metadata, all other lines are kept, joined back
/// with newlines.
pub fn extract(text: &str) -> (r: (Metadata, String))
    ensures
        r.0@ == spec_extract(text@).0,
        r.1@ == spec_extract(text@).1,
{
    let lines = lines_vec(text);
    let mut meta = Metadata::default();
    let mut kept: Vec<String> = Vec::new();
    let n = lines.len();
    let ghost full = extract_rec(spec_lines(text@), default_meta());
    let mut i: usize = 0;
    proof {
        assert(str_views(lines@).skip(0) =~= str_views(lines@));
        assert(str_views(kept@) =~= Seq::<Seq<char>>::empty());
    }
    while i < n
        invariant
            i <= n,
            n == lines@.len(),
            str_views(lines@) == spec_lines(text@),
            full == extract_rec(spec_lines(text@), default_meta()),
            full.0 == extract_rec(str_views(lines@).skip(i as int), meta@).0,
            full.1 =~= str_views(kept@) + extract_rec(str_views(lines@).skip(i as int), meta@).1,
        decreases n - i,
    {
        let ghost rest = str_views(lines@).skip(i as int);
        proof {
            assert(rest[0] == lines@[i as int]@);
            assert(rest.drop_first() =~= str_views(lines@).skip(i + 1 as int));
        }
        let line = &lines[i];
        if is_meta_line_exec(line.as_str()) {
            apply_meta_line(&mut meta, line.as_str());
        } else {
            kept.push(line.clone());
            proof {
                assert(str_views(kept@) =~= str_views(kept@.drop_last()) + seq![
                    lines@[i as int]@]);
            }
        }
        i += 1;
    }
    proof {
        assert(str_views(lines@).skip(n as int) =~= Seq::<Seq<char>>::empty());
        assert(full.1 =~= str_views(kept@));
    }
    let joined = join_with(&kept, "\n");
    (meta, joined)
}

} // verus!
