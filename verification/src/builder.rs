//! The planning half of the static-site builder: classifying a file
//! found in the source tree and computing where its copy or rendered
//! page lands in the output tree. Walking directories, reading and
//! writing files stay outside; they follow the plan computed here.

use vstd::prelude::*;
use vstd::string::StrSliceExecFns;

use crate::paths::{
    join_path, set_extension, spec_extension, spec_join, spec_set_extension, spec_strip_prefix,
    strip_prefix,
};
use crate::strutil::str_eq;

verus! {

/// What the builder does with one file of the source tree.
#[derive(Debug)]
pub enum Action {
    /// Serve the file as it is: copy it over.
    Copy(String),
    /// A Markdown source: render it to an HTML page.
    Parse(String),
}

impl PartialEq for Action {
    fn eq(&self, other: &Action) -> (r: bool) {
        match (self, other) {
            (Action::Copy(a), Action::Copy(b)) => str_eq(a.as_str(), b.as_str()),
            (Action::Parse(a), Action::Parse(b)) => str_eq(a.as_str(), b.as_str()),
            _ => false,
        }
    }
}

impl vstd::std_specs::cmp::PartialEqSpecImpl for Action {
    open spec fn obeys_eq_spec() -> bool {
        true
    }

    open spec fn eq_spec(&self, other: &Action) -> bool {
        match (self, other) {
            (Action::Copy(a), Action::Copy(b)) => a@ == b@,
            (Action::Parse(a), Action::Parse(b)) => a@ == b@,
            _ => false,
        }
    }
}

/// How a file is classified: Markdown sources are rendered, every
/// other file is copied.
pub open spec fn spec_classify(p: Seq<char>) -> bool {
    spec_extension(p) == Some("md"@)
}

/// Classifies one file of the source tree by its extension.
pub fn classify_entry(path: &str) -> (a: Action)
    ensures
        spec_classify(path@) ==> (a matches Action::Parse(p) && p@ == path@),
        !spec_classify(path@) ==> (a matches Action::Copy(p) && p@ == path@),
{
    match crate::paths::extension_of(path) {
        Some(e) => {
            if str_eq(e.as_str(), "md") {
                Action::Parse(path.to_owned())
            } else {
                Action::Copy(path.to_owned())
            }
        },
        None => Action::Copy(path.to_owned()),
    }
}

/// Counts of what a build run did.
#[derive(Debug)]
pub struct BuildStats {
    /// Files copied over verbatim.
    pub files_copied: usize,
    /// Markdown files rendered to pages.
    pub files_parsed: usize,
}

impl BuildStats {
    /// Fresh counters, both zero.
    pub fn new() -> (r: BuildStats)
        ensures
            r.files_copied == 0,
            r.files_parsed == 0,
    {
        BuildStats { files_copied: 0, files_parsed: 0 }
    }
}

/// One planned unit of build work, with its destination computed.
#[derive(Debug)]
pub enum BuildStep {
    /// Copy the source file to the destination path.
    CopyFile {
        /// The file to read.
        src: String,
        /// Where the copy lands.
        dest: String,
    },
    /// Render the Markdown source to an HTML page at the destination.
    RenderFile {
        /// The file to read and render.
        src: String,
        /// Where the page lands.
        dest: String,
    },
}

/// Where an action's output lands: a copy keeps its whole source path
/// under the output root; a rendered page keeps its path relative to
/// the source root, with the extension turned into `html`. A Markdown
/// file that does not lie under the source root cannot be planned.
pub open spec fn spec_plan_action(from: Seq<char>, to: Seq<char>, a: &Action) -> Option<
    (bool, Seq<char>, Seq<char>),
> {
    match a {
        Action::Copy(p) => Some((false, p@, spec_join(to, p@))),
        Action::Parse(p) => match spec_strip_prefix(p@, from) {
            None => None,
            Some(rel) => Some((true, p@, spec_join(to, spec_set_extension(rel, "html"@)))),
        },
    }
}

/// Plans one action: computes the destination path of its output.
pub fn plan_action(from: &str, to: &str, action: &Action) -> (r: Option<BuildStep>)
    ensures
        r is Some <==> spec_plan_action(from@, to@, action) is Some,
        r matches Some(step) ==> ({
            let plan = spec_plan_action(from@, to@, action).unwrap();
            match step {
                BuildStep::CopyFile { src, dest } => !plan.0 && src@ == plan.1 && dest@ == plan.2,
                BuildStep::RenderFile { src, dest } => plan.0 && src@ == plan.1 && dest@ == plan.2,
            }
        }),
{
    match action {
        Action::Copy(p) => {
            let dest = join_path(to, p.as_str());
            Some(BuildStep::CopyFile { src: p.clone(), dest })
        },
        Action::Parse(p) => {
            match strip_prefix(p.as_str(), from) {
                None => None,
                Some(rel) => {
                    let page = set_extension(rel.as_str(), "html");
                    let dest = join_path(to, page.as_str());
                    Some(BuildStep::RenderFile { src: p.clone(), dest })
                },
            }
        },
    }
}

} // verus!
