//! A static site generator: Markdown documents become HTML pages, with an
//! index page that lists them.
//!
//! The library holds the rendering engine, which turns a document's parser
//! events into an HTML fragment, and the rules of the site: which files are
//! documents, their order and names, the configuration and its defaults, and
//! where each page is written.
use vstd::prelude::*;

pub mod config;
pub mod html;
pub mod laws;
pub mod paths;
pub mod templates;
pub mod text;
pub mod walker;

use crate::config::Configuration;
use crate::html::RenderError;
use crate::paths::{join_path, joined};
use crate::walker::{file_name_of, MarkdownFileList};

verus! {

/// Why a site could not be generated.
pub enum ConvError {
    /// Reading or writing a file failed.
    IO(String),
    /// A template failed to render.
    Template(String),
    /// A template failed to compile.
    TemplateCompile(String),
    /// The configuration file could not be read.
    Config(String),
    /// The site is not in the state its configuration describes.
    Fail(String),
    /// A document holds markup that cannot be rendered.
    Render(RenderError),
}

/// A generator for the site below `root_dir`.
pub struct Convertor {
    configuration: Configuration,
    root_dir: String,
}

/// A page ready to be written: where, and what.
pub struct ConvertedFile {
    pub path: String,
    pub content: String,
}

/// The message of the error for an index template that is named but absent.
pub open spec fn missing_template_message() -> Seq<char> {
    "Did not find index template specified in configuration"@
}

/// Check that the site is as its configuration says: where an index
/// template is named, `template_found` tells whether that file exists.
pub fn handle_config(config: &Configuration, template_found: bool) -> (r: Result<(), ConvError>)
    ensures
        r is Err <==> (config.index_template is Some && !template_found),
        r matches Err(e) ==> e matches ConvError::Fail(m) && m@ == missing_template_message(),
{
    if config.index_template.is_some() && !template_found {
        return Err(
            ConvError::Fail(
                String::from_str("Did not find index template specified in configuration"),
            ),
        );
    }
    Ok(())
}

/// The path of the index template that the configuration names, below
/// `root_dir`; `None` where it names none.
pub fn index_template_path(root_dir: &str, config: &Configuration) -> (r: Option<String>)
    ensures
        r matches Some(p) ==> config.index_template matches Some(t) && p@ == joined(root_dir@, t@),
        r is None <==> config.index_template is None,
{
    match &config.index_template {
        Some(t) => Some(join_path(root_dir, t.as_str())),
        None => None,
    }
}

/// The path that the page of a document named `name` is written to.
pub open spec fn page_path(out_dir: Seq<char>, name: Seq<char>) -> Seq<char> {
    joined(out_dir, name + ".html"@)
}

impl Convertor {
    /// The configuration that the generator follows.
    pub closed spec fn spec_configuration(&self) -> Configuration {
        self.configuration
    }

    /// The root directory that the generator reads.
    pub closed spec fn spec_root_dir(&self) -> Seq<char> {
        self.root_dir@
    }

    /// A generator for the site below `root_dir` with its configuration;
    /// `template_found` tells whether the index template that the
    /// configuration names exists. Fails as `handle_config` does.
    pub fn new(root_dir: String, configuration: Configuration, template_found: bool) -> (r: Result<
        Convertor,
        ConvError,
    >)
        ensures
            r is Ok <==> !(configuration.index_template is Some && !template_found),
            r matches Ok(c) ==> c.spec_configuration() == configuration && c.spec_root_dir() == root_dir@,
            r matches Err(e) ==> e matches ConvError::Fail(m) && m@ == missing_template_message(),
    {
        match handle_config(&configuration, template_found) {
            Ok(()) => Ok(Convertor { configuration, root_dir }),
            Err(e) => Err(e),
        }
    }

    /// The configuration of the site.
    pub fn configuration(&self) -> (r: &Configuration)
        ensures
            *r == self.spec_configuration(),
    {
        &self.configuration
    }

    /// The root directory of the site.
    pub fn root_dir(&self) -> (r: &String)
        ensures
            r@ == self.spec_root_dir(),
    {
        &self.root_dir
    }

    /// The pages of the site: the page of each document, in the order of the
    /// list, under the document's name in the output directory, then the
    /// index page as `index.html`.
    pub fn generate_site(&self, files: &MarkdownFileList, pages: Vec<String>, index_page: String) -> (r:
        Vec<ConvertedFile>)
        requires
            pages@.len() == files@.len(),
        ensures
            r@.len() == files@.len() + 1,
            forall|i: int|
                0 <= i < files@.len() ==> {
                    &&& (#[trigger] r@[i]).path@ == page_path(
                        self.spec_configuration().out_dir@,
                        file_name_of(files@[i]),
                    )
                    &&& r@[i].content@ == pages@[i]@
                },
            r@[files@.len() as int].path@ == joined(self.spec_configuration().out_dir@, "index.html"@),
            r@[files@.len() as int].content@ == index_page@,
    {
        let out_dir = self.configuration.out_dir();
        let list = files.get_files();
        let mut converted: Vec<ConvertedFile> = Vec::new();
        let mut i: usize = 0;
        while i < list.len()
            invariant
                out_dir == self.spec_configuration().out_dir,
                walker::paths_of(list@) == files@,
                pages@.len() == files@.len(),
                i <= list@.len(),
                converted@.len() == i,
                forall|k: int|
                    0 <= k < i ==> {
                        &&& (#[trigger] converted@[k]).path@ == page_path(
                            out_dir@,
                            file_name_of(files@[k]),
                        )
                        &&& converted@[k].content@ == pages@[k]@
                    },
            decreases list@.len() - i,
        {
            let mut name = list[i].name_or_empty();
            name.append(".html");
            let path = join_path(out_dir.as_str(), name.as_str());
            converted.push(ConvertedFile { path, content: pages[i].clone() });
            i = i + 1;
        }
        let index_path = join_path(out_dir.as_str(), "index.html");
        converted.push(ConvertedFile { path: index_path, content: index_page });
        converted
    }
}

} // verus!
