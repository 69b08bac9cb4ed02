//! The Markdown documents of a site: which files count, their names, their
//! order, and the main heading of each.
use vstd::prelude::*;
use vstd::seq_lib::{to_multiset_build, to_multiset_insert};

use crate::html::{Event, Marker};
use crate::paths::{extension, extension_of, file_stem, stem_of};
use crate::text::{lower_of, lowercase};

verus! {

/// A Markdown document, by its path.
pub struct MarkdownFile {
    path: String,
}

/// The Markdown documents of a site, ordered by file name.
pub struct MarkdownFileList {
    files: Vec<MarkdownFile>,
}

/// The name of the file at `path`: its stem, or empty where it has none.
pub open spec fn file_name_of(path: Seq<char>) -> Seq<char> {
    match stem_of(path) {
        Some(s) => s,
        None => Seq::empty(),
    }
}

/// Lexicographic order on texts, character by character; a prefix comes
/// first. It is the order of std's `str`, whose bytes sort as their
/// characters do.
pub open spec fn lex_le(a: Seq<char>, b: Seq<char>) -> bool
    decreases a.len(),
{
    if a.len() == 0 {
        true
    } else if b.len() == 0 {
        false
    } else if (a[0] as u32) != (b[0] as u32) {
        (a[0] as u32) < (b[0] as u32)
    } else {
        lex_le(a.drop_first(), b.drop_first())
    }
}

/// The paths of a sequence of files.
pub open spec fn paths_of(files: Seq<MarkdownFile>) -> Seq<Seq<char>> {
    files.map_values(|f: MarkdownFile| f@)
}

/// Whether the paths are in the order of their file names.
pub open spec fn sorted_by_name(paths: Seq<Seq<char>>) -> bool {
    forall|i: int, j: int|
        0 <= i < j < paths.len() ==> lex_le(
            file_name_of(#[trigger] paths[i]),
            file_name_of(#[trigger] paths[j]),
        )
}

/// Where `path` goes among `sorted`: after every path, from the front,
/// whose name does not come after its own.
pub open spec fn insert_pos(sorted: Seq<Seq<char>>, path: Seq<char>) -> nat
    decreases sorted.len(),
{
    if sorted.len() == 0 || !lex_le(file_name_of(sorted[0]), file_name_of(path)) {
        0
    } else {
        1 + insert_pos(sorted.drop_first(), path)
    }
}

/// The paths ordered by file name, each inserted in turn after those
/// whose name does not come after its own; paths with equal names keep
/// their order.
pub open spec fn sort_by_name(paths: Seq<Seq<char>>) -> Seq<Seq<char>>
    decreases paths.len(),
{
    if paths.len() == 0 {
        Seq::empty()
    } else {
        let s = sort_by_name(paths.drop_last());
        s.insert(insert_pos(s, paths.last()) as int, paths.last())
    }
}

/// Whether a file is a Markdown document: its extension is `md` in any case.
pub open spec fn is_markdown_path(path: Seq<char>) -> bool {
    match extension_of(path) {
        Some(e) => lower_of(e) == "md"@,
        None => false,
    }
}

/// Whether an entry of the tree is skipped, with all below it: its name
/// starts with an underscore.
pub open spec fn is_excluded_name(name: Seq<char>) -> bool {
    name.len() > 0 && name[0] == '_'
}

/// The text of the first `Text` event after the start of a level-1
/// heading, looking from the front; `in_heading` says whether one has
/// started already.
pub open spec fn heading_from(events: Seq<Event>, in_heading: bool) -> Option<Seq<char>>
    decreases events.len(),
{
    if events.len() == 0 {
        None
    } else {
        match events[0] {
            Event::Start(Marker::Heading(n)) => heading_from(events.drop_first(), in_heading || n == 1),
            Event::Text(t) => if in_heading {
                Some(t@)
            } else {
                heading_from(events.drop_first(), in_heading)
            },
            _ => heading_from(events.drop_first(), in_heading),
        }
    }
}

impl View for MarkdownFile {
    type V = Seq<char>;

    closed spec fn view(&self) -> Seq<char> {
        self.path@
    }
}

impl View for MarkdownFileList {
    type V = Seq<Seq<char>>;

    closed spec fn view(&self) -> Seq<Seq<char>> {
        paths_of(self.files@)
    }
}

proof fn lemma_lex_total(a: Seq<char>, b: Seq<char>)
    ensures
        lex_le(a, b) || lex_le(b, a),
    decreases a.len(),
{
    if a.len() > 0 && b.len() > 0 && (a[0] as u32) == (b[0] as u32) {
        lemma_lex_total(a.drop_first(), b.drop_first());
    }
}

proof fn lemma_lex_trans(a: Seq<char>, b: Seq<char>, c: Seq<char>)
    requires
        lex_le(a, b),
        lex_le(b, c),
    ensures
        lex_le(a, c),
    decreases a.len(),
{
    if a.len() > 0 && b.len() > 0 && c.len() > 0 && (a[0] as u32) == (b[0] as u32) && (b[0] as u32)
        == (c[0] as u32) {
        lemma_lex_trans(a.drop_first(), b.drop_first(), c.drop_first());
    }
}

proof fn lemma_insert_pos(s: Seq<Seq<char>>, x: Seq<char>, k: int)
    requires
        0 <= k <= s.len(),
        forall|p: int| 0 <= p < k ==> lex_le(file_name_of(#[trigger] s[p]), file_name_of(x)),
        k == s.len() || !lex_le(file_name_of(s[k]), file_name_of(x)),
    ensures
        insert_pos(s, x) == k,
    decreases k,
{
    if k > 0 {
        assert(lex_le(file_name_of(s[0]), file_name_of(x)));
        let t = s.drop_first();
        assert forall|p: int| 0 <= p < k - 1 implies lex_le(
            file_name_of(#[trigger] t[p]),
            file_name_of(x),
        ) by {
            assert(t[p] == s[p + 1]);
        }
        if k - 1 < t.len() {
            assert(t[k - 1] == s[k]);
        }
        lemma_insert_pos(t, x, k - 1);
    }
}

/// Whether `a` comes before `b` or equals it, character by character.
fn lex_le_exec(a: &str, b: &str) -> (r: bool)
    ensures
        r == lex_le(a@, b@),
{
    let na: usize = a.unicode_len();
    let nb: usize = b.unicode_len();
    let mut i: usize = 0;
    assert(a@.subrange(0, na as int) =~= a@);
    assert(b@.subrange(0, nb as int) =~= b@);
    while i < na && i < nb
        invariant
            na == a@.len(),
            nb == b@.len(),
            i <= na,
            i <= nb,
            lex_le(a@, b@) == lex_le(a@.subrange(i as int, na as int), b@.subrange(i as int, nb as int)),
        decreases na - i,
    {
        let ca = a.get_char(i);
        let cb = b.get_char(i);
        let ghost sa = a@.subrange(i as int, na as int);
        let ghost sb = b@.subrange(i as int, nb as int);
        assert(sa[0] == ca && sb[0] == cb);
        if (ca as u32) != (cb as u32) {
            return (ca as u32) < (cb as u32);
        }
        assert(sa.drop_first() =~= a@.subrange(i + 1, na as int));
        assert(sb.drop_first() =~= b@.subrange(i + 1, nb as int));
        i = i + 1;
    }
    i == na
}

/// Whether the file at `path` is a Markdown document: its extension is `md`,
/// in any case.
pub fn is_accepted_markdown_file(path: &str) -> (r: bool)
    ensures
        r == is_markdown_path(path@),
{
    match extension(path) {
        Some(ext) => {
            let lowered = lowercase(ext.as_str());
            let md = String::from_str("md");
            lowered == md
        },
        None => false,
    }
}

/// Whether an entry of the tree, by its name, is skipped together with all
/// that lies below it: the name starts with an underscore.
pub fn is_excluded(name: &str) -> (r: bool)
    ensures
        r == is_excluded_name(name@),
{
    name.unicode_len() > 0 && name.get_char(0) == '_'
}

impl MarkdownFile {
    /// The document at the given path.
    pub fn from(path: &str) -> (r: MarkdownFile)
        ensures
            r@ == path@,
    {
        MarkdownFile { path: String::from_str(path) }
    }

    /// The path of the document.
    pub fn get_path(&self) -> (r: &String)
        ensures
            r@ == self@,
    {
        &self.path
    }

    /// The name of the document, or empty where the path names no file.
    pub(crate) fn name_or_empty(&self) -> (r: String)
        ensures
            r@ == file_name_of(self@),
    {
        match file_stem(self.path.as_str()) {
            Some(s) => s,
            None => String::new(),
        }
    }

    /// The name of the document: the file stem of its path. The path must
    /// name a file; `file_name` checks that first.
    pub fn get_file_name(&self) -> (r: String)
        requires
            stem_of(self@) is Some,
        ensures
            stem_of(self@) == Some(r@),
    {
        self.name_or_empty()
    }

    /// The name of the document, or `None` where its path names no file.
    pub fn file_name(&self) -> (r: Option<String>)
        ensures
            r matches Some(s) ==> stem_of(self@) == Some(s@),
            r is None ==> stem_of(self@) is None,
    {
        match file_stem(self.path.as_str()) {
            Some(_) => Some(self.get_file_name()),
            None => None,
        }
    }

    /// The main heading of the document, from its events: the text that
    /// first follows the start of a level-1 heading. The events must hold
    /// one; `has_heading` checks that first.
    pub fn get_heading(&self, events: &Vec<Event>) -> (r: String)
        requires
            heading_from(events@, false) is Some,
        ensures
            heading_from(events@, false) == Some(r@),
    {
        match find_heading(events) {
            Some(h) => h,
            None => {
                proof {
                    assert(false);
                }
                String::new()
            },
        }
    }
}

/// Whether the events hold a main heading: a text after the start of a
/// level-1 heading.
pub fn has_heading(events: &Vec<Event>) -> (r: bool)
    ensures
        r == heading_from(events@, false) is Some,
{
    find_heading(events).is_some()
}

/// The text that first follows the start of a level-1 heading, if any.
fn find_heading(events: &Vec<Event>) -> (r: Option<String>)
    ensures
        r matches Some(s) ==> heading_from(events@, false) == Some(s@),
        r is None ==> heading_from(events@, false) is None,
{
    let mut in_heading = false;
    let mut i: usize = 0;
    assert(events@.subrange(0, events@.len() as int) =~= events@);
    while i < events.len()
        invariant
            i <= events@.len(),
            heading_from(events@.subrange(i as int, events@.len() as int), in_heading)
                == heading_from(events@, false),
        decreases events@.len() - i,
    {
        let ghost rest = events@.subrange(i as int, events@.len() as int);
        assert(rest[0] == events@[i as int]);
        assert(rest.drop_first() =~= events@.subrange(i + 1, events@.len() as int));
        match &events[i] {
            Event::Start(Marker::Heading(n)) => {
                if *n == 1 {
                    in_heading = true;
                }
            },
            Event::Text(t) => {
                if in_heading {
                    return Some(t.clone());
                }
            },
            _ => {},
        }
        i = i + 1;
    }
    proof {
        assert(events@.subrange(i as int, events@.len() as int).len() == 0);
    }
    None
}

impl MarkdownFileList {
    /// The list of the given documents, ordered by file name. Documents
    /// with the same name keep their order.
    pub fn new(files: Vec<MarkdownFile>) -> (r: MarkdownFileList)
        ensures
            r@ == sort_by_name(paths_of(files@)),
            r@.to_multiset() == paths_of(files@).to_multiset(),
            sorted_by_name(r@),
    {
        let mut sorted: Vec<MarkdownFile> = Vec::new();
        let mut names: Vec<String> = Vec::new();
        let mut i: usize = 0;
        assert(paths_of(sorted@) =~= Seq::empty());
        assert(paths_of(files@.subrange(0, 0)) =~= Seq::empty());
        while i < files.len()
            invariant
                i <= files@.len(),
                sorted@.len() == names@.len(),
                forall|k: int| 0 <= k < names@.len() ==> #[trigger] names@[k]@ == file_name_of(sorted@[k]@),
                sorted_by_name(paths_of(sorted@)),
                paths_of(sorted@).to_multiset() == paths_of(files@.subrange(0, i as int)).to_multiset(),
                paths_of(sorted@) == sort_by_name(paths_of(files@.subrange(0, i as int))),
            decreases files@.len() - i,
        {
            let file = MarkdownFile { path: files[i].path.clone() };
            let name = file.name_or_empty();
            let mut k: usize = 0;
            while k < names.len() && lex_le_exec(names[k].as_str(), name.as_str())
                invariant
                    k <= names@.len(),
                    sorted@.len() == names@.len(),
                    forall|p: int| 0 <= p < k ==> lex_le(#[trigger] names@[p]@, name@),
                decreases names@.len() - k,
            {
                k = k + 1;
            }
            let ghost old_paths = paths_of(sorted@);
            let ghost old_names = names@;
            proof {
                if k < names@.len() {
                    lemma_lex_total(names@[k as int]@, name@);
                }
                assert forall|p: int| 0 <= p < k implies lex_le(
                    file_name_of(#[trigger] old_paths[p]),
                    file_name_of(files@[i as int]@),
                ) by {
                    assert(names@[p]@ == file_name_of(sorted@[p]@));
                }
                if k < names@.len() {
                    assert(names@[k as int]@ == file_name_of(sorted@[k as int]@));
                }
                lemma_insert_pos(old_paths, files@[i as int]@, k as int);
            }
            sorted.insert(k, file);
            names.insert(k, name);
            proof {
                let new_paths = paths_of(sorted@);
                assert(new_paths =~= old_paths.insert(k as int, files@[i as int]@));
                to_multiset_insert(old_paths, k as int, files@[i as int]@);
                let prefix = files@.subrange(0, i as int);
                assert(paths_of(files@.subrange(0, i + 1)) =~= paths_of(prefix).push(files@[i as int]@));
                to_multiset_build(paths_of(prefix), files@[i as int]@);
                assert(paths_of(files@.subrange(0, i + 1)).drop_last() =~= paths_of(prefix));
                assert forall|p: int, q: int| 0 <= p < q < new_paths.len() implies lex_le(
                    file_name_of(#[trigger] new_paths[p]),
                    file_name_of(#[trigger] new_paths[q]),
                ) by {
                    assert(names@[p]@ == file_name_of(sorted@[p]@));
                    assert(names@[q]@ == file_name_of(sorted@[q]@));
                    if q < k {
                        assert(new_paths[p] == old_paths[p]);
                        assert(new_paths[q] == old_paths[q]);
                    } else if q == k {
                    } else if p == k {
                        assert(names@[q]@ == old_names[q - 1]@);
                        assert(names@[q]@ == file_name_of(old_paths[q - 1]));
                        if q - 1 > k {
                            assert(file_name_of(old_paths[k as int]) == old_names[k as int]@);
                            lemma_lex_trans(name@, old_names[k as int]@, old_names[q - 1]@);
                        }
                    } else if p < k {
                        assert(new_paths[p] == old_paths[p]);
                        assert(new_paths[q] == old_paths[q - 1]);
                        assert(file_name_of(old_paths[q - 1]) == old_names[q - 1]@);
                        assert(lex_le(old_names[p]@, name@));
                        if q - 1 >= k {
                            if q - 1 > k {
                                assert(file_name_of(old_paths[k as int]) == old_names[k as int]@);
                                lemma_lex_trans(name@, old_names[k as int]@, old_names[q - 1]@);
                            }
                            lemma_lex_trans(old_names[p]@, name@, old_names[q - 1]@);
                        }
                    } else {
                        assert(new_paths[p] == old_paths[p - 1]);
                        assert(new_paths[q] == old_paths[q - 1]);
                    }
                }
                assert forall|k2: int| 0 <= k2 < names@.len() implies #[trigger] names@[k2]@ == file_name_of(sorted@[k2]@) by {
                    if k2 < k {
                        assert(names@[k2] == old_names[k2]);
                    } else if k2 > k {
                        assert(names@[k2] == old_names[k2 - 1]);
                    }
                }
            }
            i = i + 1;
        }
        proof {
            assert(files@.subrange(0, files@.len() as int) =~= files@);
        }
        MarkdownFileList { files: sorted }
    }

    /// The documents, in order.
    pub fn get_files(&self) -> (r: &Vec<MarkdownFile>)
        ensures
            paths_of(r@) == self@,
    {
        &self.files
    }
}

} // verus!
