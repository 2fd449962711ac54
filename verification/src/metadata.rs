//! The data model of an ingested document: its ordered chapters and the
//! descriptive fields read from the package metadata.
use vstd::prelude::*;

verus! {

/// One reading-order chapter of an ingested document.
pub struct Chapter {
    /// Display title, synthesized as "Chapter N" from the 1-based position.
    pub title: String,
    /// The package-internal reference used to resolve the content.
    pub path: String,
    /// Extracted plain text; empty when resolution failed.
    pub content: String,
    /// Whether some candidate path resolved to valid text, so that an
    /// empty chapter can be told apart from a resolution gap.
    pub resolved: bool,
}

/// The mathematical image of a chapter.
pub struct ChapterView {
    pub title: Seq<char>,
    pub path: Seq<char>,
    pub content: Seq<char>,
    pub resolved: bool,
}

impl View for Chapter {
    type V = ChapterView;

    open spec fn view(&self) -> ChapterView {
        ChapterView {
            title: self.title@,
            path: self.path@,
            content: self.content@,
            resolved: self.resolved,
        }
    }
}

impl DeepView for Chapter {
    type V = ChapterView;

    open spec fn deep_view(&self) -> ChapterView {
        self.view()
    }
}

/// The descriptive fields of a package together with its chapter list.
/// Each missing metadata field degrades to its own default or stays
/// absent; ingestion never aborts over one.
pub struct EpubMetadata {
    pub title: String,
    pub author: String,
    pub publication_date: Option<String>,
    pub language: Option<String>,
    pub description: Option<String>,
    pub chapters: Vec<Chapter>,
}

impl EpubMetadata {
    pub fn new(
        title: String,
        author: String,
        publication_date: Option<String>,
        language: Option<String>,
        description: Option<String>,
        chapters: Vec<Chapter>,
    ) -> (r: EpubMetadata)
        ensures
            r.title == title,
            r.author == author,
            r.publication_date == publication_date,
            r.language == language,
            r.description == description,
            r.chapters == chapters,
    {
        EpubMetadata { title, author, publication_date, language, description, chapters }
    }
}

fn copy_chapter(c: &Chapter) -> (r: Chapter)
    ensures
        r@ == c@,
{
    Chapter {
        title: c.title.clone(),
        path: c.path.clone(),
        content: c.content.clone(),
        resolved: c.resolved,
    }
}

/// A fresh chapter list carrying the same records.
pub fn duplicate_chapters(v: &Vec<Chapter>) -> (r: Vec<Chapter>)
    ensures
        r.deep_view() == v.deep_view(),
{
    let mut r: Vec<Chapter> = Vec::new();
    let mut i: usize = 0;
    while i < v.len()
        invariant
            i <= v@.len(),
            r@.len() == i,
            forall|k: int| 0 <= k < i ==> (#[trigger] r@[k])@ == v@[k]@,
        decreases v@.len() - i,
    {
        r.push(copy_chapter(&v[i]));
        i = i + 1;
    }
    proof {
        assert(r.deep_view() =~= v.deep_view());
    }
    r
}

} // verus!
