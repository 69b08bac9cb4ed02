//! The site configuration: each key may be left out of the file, and then
//! takes its default.
use vstd::prelude::*;

verus! {

/// The keys of a configuration file as they were read; a key that is not
/// present is `None`.
pub struct RawConfiguration {
    pub stylesheet: Option<Vec<String>>,
    pub gen_index: Option<bool>,
    pub index_template: Option<String>,
    pub out_dir: Option<String>,
    pub copy_resources: Option<bool>,
    pub title: Option<String>,
}

/// The configuration of a site, with every key resolved.
pub struct Configuration {
    /// Stylesheets that each page links, relative to the site's root.
    pub stylesheet: Vec<String>,
    /// Whether the file asks for an index page.
    pub gen_index: bool,
    /// A template for the index page, relative to the site's root.
    pub index_template: Option<String>,
    /// Where the site is written.
    pub out_dir: String,
    /// Whether stylesheets and images are copied into the output.
    pub copy_resources: bool,
    /// The title of the site.
    pub title: String,
}

/// Whether a configuration holds the default of every key.
pub open spec fn is_default(c: Configuration) -> bool {
    &&& c.stylesheet@.len() == 0
    &&& !c.gen_index
    &&& c.index_template is None
    &&& c.out_dir@ == "out"@
    &&& c.copy_resources
    &&& c.title@ == "Title"@
}

/// Whether `c` takes each key of `raw` that is present, and the default of
/// each that is not.
pub open spec fn resolves(raw: RawConfiguration, c: Configuration) -> bool {
    &&& c.stylesheet@ == (match raw.stylesheet {
        Some(v) => v@,
        None => Seq::empty(),
    })
    &&& c.gen_index == (match raw.gen_index {
        Some(b) => b,
        None => false,
    })
    &&& c.index_template == raw.index_template
    &&& c.out_dir@ == (match raw.out_dir {
        Some(s) => s@,
        None => "out"@,
    })
    &&& c.copy_resources == (match raw.copy_resources {
        Some(b) => b,
        None => true,
    })
    &&& c.title@ == (match raw.title {
        Some(s) => s@,
        None => "Title"@,
    })
}

impl Default for Configuration {
    fn default() -> (r: Configuration)
        ensures
            is_default(r),
    {
        Configuration {
            stylesheet: Vec::new(),
            gen_index: false,
            index_template: None,
            out_dir: String::from_str("out"),
            copy_resources: true,
            title: String::from_str("Title"),
        }
    }
}

impl Configuration {
    /// The configuration that a file's keys give: each key that is present
    /// is taken, each that is not takes its default.
    pub fn from(raw: RawConfiguration) -> (r: Configuration)
        ensures
            resolves(raw, r),
    {
        let def = Configuration::default();
        assert(def.stylesheet@ =~= Seq::empty());
        let stylesheet = match raw.stylesheet {
            Some(v) => v,
            None => def.stylesheet,
        };
        let gen_index = match raw.gen_index {
            Some(b) => b,
            None => def.gen_index,
        };
        let out_dir = match raw.out_dir {
            Some(s) => s,
            None => def.out_dir,
        };
        let copy_resources = match raw.copy_resources {
            Some(b) => b,
            None => def.copy_resources,
        };
        let title = match raw.title {
            Some(s) => s,
            None => def.title,
        };
        Configuration {
            stylesheet,
            gen_index,
            index_template: raw.index_template,
            out_dir,
            copy_resources,
            title,
        }
    }

    /// The stylesheets.
    pub fn stylesheet(&self) -> (r: Vec<String>)
        ensures
            r@ == self.stylesheet@,
    {
        let mut r: Vec<String> = Vec::new();
        let mut i: usize = 0;
        while i < self.stylesheet.len()
            invariant
                i <= self.stylesheet@.len(),
                r@ == self.stylesheet@.subrange(0, i as int),
            decreases self.stylesheet@.len() - i,
        {
            r.push(self.stylesheet[i].clone());
            proof {
                assert(r@ =~= self.stylesheet@.subrange(0, i + 1));
            }
            i = i + 1;
        }
        proof {
            assert(self.stylesheet@.subrange(0, i as int) =~= self.stylesheet@);
        }
        r
    }

    /// Whether an index page is asked for.
    pub fn gen_index(&self) -> (r: bool)
        ensures
            r == self.gen_index,
    {
        self.gen_index
    }

    /// The index template, if one is named.
    pub fn index_template(&self) -> (r: Option<String>)
        ensures
            r == self.index_template,
    {
        match &self.index_template {
            Some(s) => Some(s.clone()),
            None => None,
        }
    }

    /// The output directory.
    pub fn out_dir(&self) -> (r: String)
        ensures
            r == self.out_dir,
    {
        self.out_dir.clone()
    }

    /// Whether resources are copied.
    pub fn copy_resources(&self) -> (r: bool)
        ensures
            r == self.copy_resources,
    {
        self.copy_resources
    }

    /// The title of the site.
    pub fn title(&self) -> (r: String)
        ensures
            r == self.title,
    {
        self.title.clone()
    }
}

} // verus!
