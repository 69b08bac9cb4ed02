//! What the page templates are given: titles and the entries of the index.
use vstd::prelude::*;

use crate::config::Configuration;
use crate::walker::{file_name_of, MarkdownFile};

verus! {

/// One document as the index page lists it: its heading, and the name its
/// page is written under.
pub struct Element {
    pub header: String,
    pub file_path: String,
}

impl Element {
    /// The entry of the index for `file`, whose main heading is `header`.
    pub fn new(file: &MarkdownFile, header: String) -> (r: Element)
        ensures
            r.header@ == header@,
            r.file_path@ == file_name_of(file@),
    {
        Element { header, file_path: file.name_or_empty() }
    }

    /// The heading shown for the document.
    pub fn header(&self) -> (r: String)
        ensures
            r@ == self.header@,
    {
        self.header.clone()
    }

    /// The name of the document's page, without extension.
    pub fn file_path(&self) -> (r: String)
        ensures
            r@ == self.file_path@,
    {
        self.file_path.clone()
    }
}

/// The title of a document's page: the site's title, a dash, and the
/// document's heading.
pub fn page_title(config: &Configuration, heading: &str) -> (r: String)
    ensures
        r@ == config.title@ + " - "@ + heading@,
{
    let mut t = config.title();
    t.append(" - ");
    t.append(heading);
    t
}

/// The title of the index page: the site's title followed by ` - Home`.
pub fn index_title(config: &Configuration) -> (r: String)
    ensures
        r@ == config.title@ + " - Home"@,
{
    let mut t = config.title();
    t.append(" - Home");
    t
}

} // verus!
