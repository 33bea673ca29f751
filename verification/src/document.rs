//! Assembling a complete HTML document around a rendered body: the
//! head is built from the collected metadata, the body is the rendered
//! Markdown.

use vstd::prelude::*;
use vstd::string::StringExecFns;

use crate::metadata::{Metadata, MetadataModel};
use crate::strutil::{join_with, spec_join, spec_trim, str_views, trim_str};

verus! {

/// A generic `<meta>` tag line.
pub open spec fn spec_meta_tag(name: Seq<char>, content: Seq<char>) -> Seq<char> {
    "<meta name=\""@ + name + "\" content=\""@ + content + "\">"@
}

/// A `<link>` tag line.
pub open spec fn spec_link_tag(rel: Seq<char>, path: Seq<char>) -> Seq<char> {
    "<link rel=\""@ + rel + "\" href=\""@ + path + "\">"@
}

/// The charset declaration line.
pub open spec fn spec_charset_line(charset: Seq<char>) -> Seq<char> {
    "<meta charset=\""@ + charset + "\">"@
}

/// The title line.
pub open spec fn spec_title_line(title: Seq<char>) -> Seq<char> {
    "<title>"@ + title + "</title>"@
}

/// Every line of the document head, in order: the charset first, the
/// optional author, description and icon, the generic meta tags, the
/// title, and the stylesheet links last.
pub open spec fn spec_head_lines(m: MetadataModel) -> Seq<Seq<char>> {
    seq![spec_charset_line(m.charset)] + (match m.author {
        Some(a) => seq![spec_meta_tag("author"@, a)],
        None => Seq::empty(),
    }) + (match m.description {
        Some(d) => seq![spec_meta_tag("description"@, d)],
        None => Seq::empty(),
    }) + (match m.icon {
        Some(i) => seq![spec_link_tag("icon"@, i)],
        None => Seq::empty(),
    }) + m.other.map_values(|p: (Seq<char>, Seq<char>)| spec_meta_tag(p.0, p.1)) + seq![
        spec_title_line(m.title)] + m.stylesheets.map_values(
        |p: Seq<char>| spec_link_tag("stylesheet"@, p),
    )
}

/// The head lines joined with the document's indentation.
pub open spec fn spec_format_metadata(m: MetadataModel) -> Seq<char> {
    spec_join(spec_head_lines(m), "\n        "@)
}

/// The whole document: doctype, `<html lang>`, head, and the body
/// trimmed of surrounding whitespace.
pub open spec fn spec_format(m: MetadataModel, body: Seq<char>) -> Seq<char> {
    "<!DOCTYPE html>\n<html lang=\""@ + m.language + "\">\n    <head>\n        "@
        + spec_format_metadata(m) + "\n    </head>\n    <body>\n        "@ + spec_trim(
        body,
        false,
    ) + "\n    </body>\n</html>"@
}

fn meta_tag(name: &str, content: &str) -> (r: String)
    ensures
        r@ == spec_meta_tag(name@, content@),
{
    let mut r = String::from_str("<meta name=\"");
    r.append(name);
    r.append("\" content=\"");
    r.append(content);
    r.append("\">");
    r
}

fn link_tag(rel: &str, path: &str) -> (r: String)
    ensures
        r@ == spec_link_tag(rel@, path@),
{
    let mut r = String::from_str("<link rel=\"");
    r.append(rel);
    r.append("\" href=\"");
    r.append(path);
    r.append("\">");
    r
}

/// Builds the indented lines of the document head from the metadata.
/// Template entries are collected but not rendered; a caller that
/// wants to warn about them can inspect `metadata.templates`.
pub fn format_metadata(metadata: &Metadata) -> (r: String)
    ensures
        r@ == spec_format_metadata(metadata@),
{
    let ghost m = metadata@;
    let mut lines: Vec<String> = Vec::new();
    let mut charset_line = String::from_str("<meta charset=\"");
    charset_line.append(metadata.charset.as_str());
    charset_line.append("\">");
    lines.push(charset_line);
    match &metadata.author {
        Some(a) => {
            lines.push(meta_tag("author", a.as_str()));
        },
        None => {},
    }
    match &metadata.description {
        Some(d) => {
            lines.push(meta_tag("description", d.as_str()));
        },
        None => {},
    }
    match &metadata.icon {
        Some(i) => {
            lines.push(link_tag("icon", i.as_str()));
        },
        None => {},
    }
    let ghost fixed = seq![spec_charset_line(m.charset)] + (match m.author {
        Some(a) => seq![spec_meta_tag("author"@, a)],
        None => Seq::<Seq<char>>::empty(),
    }) + (match m.description {
        Some(d) => seq![spec_meta_tag("description"@, d)],
        None => Seq::<Seq<char>>::empty(),
    }) + (match m.icon {
        Some(i) => seq![spec_link_tag("icon"@, i)],
        None => Seq::<Seq<char>>::empty(),
    });
    proof {
        assert(str_views(lines@) =~~= fixed);
    }
    let n = metadata.other.len();
    let mut i: usize = 0;
    while i < n
        invariant
            i <= n,
            n == metadata.other@.len(),
            m == metadata@,
            str_views(lines@) =~~= fixed + m.other.take(i as int).map_values(
                |p: (Seq<char>, Seq<char>)| spec_meta_tag(p.0, p.1),
            ),
        decreases n - i,
    {
        let tag = meta_tag(metadata.other[i].0.as_str(), metadata.other[i].1.as_str());
        let ghost prev = lines@;
        lines.push(tag);
        proof {
            let f = |p: (Seq<char>, Seq<char>)| spec_meta_tag(p.0, p.1);
            assert(str_views(lines@) =~~= str_views(prev).push(tag@));
            assert(m.other.take(i + 1 as int) =~= m.other.take(i as int).push(m.other[i as int]));
            assert(m.other[i as int] == (metadata.other@[i as int].0@, metadata.other@[
                i as int].1@));
            assert(m.other.take(i + 1 as int).map_values(f) =~~= m.other.take(i as int).map_values(
                f,
            ).push(f(m.other[i as int])));
        }
        i += 1;
    }
    proof {
        assert(m.other.take(n as int) =~= m.other);
    }
    let mut title_line = String::from_str("<title>");
    title_line.append(metadata.title.as_str());
    title_line.append("</title>");
    lines.push(title_line);
    let ghost mid = fixed + m.other.map_values(|p: (Seq<char>, Seq<char>)| spec_meta_tag(p.0, p.1))
        + seq![spec_title_line(m.title)];
    proof {
        assert(str_views(lines@) =~~= mid);
    }
    let k = metadata.stylesheets.len();
    let mut j: usize = 0;
    while j < k
        invariant
            j <= k,
            k == metadata.stylesheets@.len(),
            m == metadata@,
            str_views(lines@) =~~= mid + m.stylesheets.take(j as int).map_values(
                |p: Seq<char>| spec_link_tag("stylesheet"@, p),
            ),
        decreases k - j,
    {
        let tag = link_tag("stylesheet", metadata.stylesheets[j].as_str());
        let ghost prev = lines@;
        lines.push(tag);
        proof {
            let f = |p: Seq<char>| spec_link_tag("stylesheet"@, p);
            assert(str_views(lines@) =~~= str_views(prev).push(tag@));
            assert(m.stylesheets.take(j + 1 as int) =~= m.stylesheets.take(j as int).push(
                m.stylesheets[j as int],
            ));
            assert(m.stylesheets[j as int] == metadata.stylesheets@[j as int]@);
            assert(m.stylesheets.take(j + 1 as int).map_values(f) =~~= m.stylesheets.take(
                j as int,
            ).map_values(f).push(f(m.stylesheets[j as int])));
        }
        j += 1;
    }
    proof {
        assert(m.stylesheets.take(k as int) =~= m.stylesheets);
        assert(str_views(lines@) =~~= spec_head_lines(m));
    }
    join_with(&lines, "\n        ")
}

/// Builds the whole HTML document around the rendered body.
pub fn format(metadata: Metadata, body: String) -> (r: String)
    ensures
        r@ == spec_format(metadata@, body@),
{
    let mut r = String::from_str("<!DOCTYPE html>\n<html lang=\"");
    r.append(metadata.language.as_str());
    r.append("\">\n    <head>\n        ");
    let head = format_metadata(&metadata);
    r.append(head.as_str());
    r.append("\n    </head>\n    <body>\n        ");
    let trimmed = trim_str(body.as_str(), false);
    r.append(trimmed.as_str());
    r.append("\n    </body>\n</html>");
    r
}

} // verus!
