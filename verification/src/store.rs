//! The keyed in-memory document store: one long-lived handle, opened once
//! and passed to every operation.  Identifiers are assigned at save time,
//! distinct and increasing; a missing document or chapter index answers
//! with `NotFoundError` and nothing else.
use crate::metadata::Chapter;
use crate::metadata::EpubMetadata;
use crate::strutil::eq_chars;
use crate::strutil::str_to_chars;
use vstd::prelude::*;

verus! {

/// The requested document identifier or chapter index does not exist.
#[derive(Debug)]
pub struct NotFoundError;

/// One stored document: the identifier the store assigned at save time
/// and the ingested content, immutable thereafter.
pub struct Document {
    pub id: i64,
    pub metadata: EpubMetadata,
}

/// The store itself.  Identifiers are dense and 1-based: the document
/// saved n-th carries identifier n.
pub struct DocumentStore {
    pub docs: Vec<Document>,
    pub next_id: i64,
}

/// The index of the first chapter whose source path is `path`, or -1.
pub open spec fn first_path_index(chs: Seq<Chapter>, path: Seq<char>) -> int
    decreases chs.len(),
{
    if chs.len() == 0 {
        -1
    } else if chs[0].path@ == path {
        0
    } else {
        let r = first_path_index(chs.drop_first(), path);
        if r == -1 {
            -1
        } else {
            r + 1
        }
    }
}

proof fn lemma_first_path_index_range(chs: Seq<Chapter>, path: Seq<char>)
    ensures
        -1 <= first_path_index(chs, path) < chs.len(),
    decreases chs.len(),
{
    if chs.len() != 0 && chs[0].path@ != path {
        lemma_first_path_index_range(chs.drop_first(), path);
    }
}

/// What a chapter lookup by document identifier and chapter index
/// answers on a given store content.
pub open spec fn lookup_chapter_spec(docs: Seq<Document>, id: i64, index: int) -> Result<
    Seq<char>,
    NotFoundError,
> {
    if 1 <= id && id as int <= docs.len() && 0 <= index < docs[id as int
        - 1].metadata.chapters@.len() {
        Ok(docs[id as int - 1].metadata.chapters@[index].content@)
    } else {
        Err(NotFoundError {  })
    }
}

/// One successful save: how the store after the call relates to the store
/// before it and to the returned identifier.
pub open spec fn save_step(
    pre: DocumentStore,
    post: DocumentStore,
    meta: EpubMetadata,
    id: i64,
) -> bool {
    &&& id as int == pre.docs@.len() + 1
    &&& post.docs@ == pre.docs@.push((Document { id, metadata: meta }))
    &&& post.next_id as int == pre.next_id as int + 1
}

impl DocumentStore {
    pub open spec fn wf(self) -> bool {
        &&& self.next_id as int == self.docs@.len() + 1
        &&& forall|i: int|
            0 <= i < self.docs@.len() ==> (#[trigger] self.docs@[i]).id as int == i + 1
    }

    /// A store holding nothing yet.
    pub fn new() -> (r: DocumentStore)
        ensures
            r.wf(),
            r.docs@.len() == 0,
            r.next_id == 1,
    {
        DocumentStore { docs: Vec::new(), next_id: 1 }
    }

    /// Saves one ingested document and assigns it the next identifier.
    pub fn save_document(&mut self, metadata: EpubMetadata) -> (id: i64)
        requires
            old(self).wf(),
            old(self).next_id < i64::MAX,
        ensures
            final(self).wf(),
            save_step(*old(self), *final(self), metadata, id),
            id as int == old(self).docs@.len() + 1,
    {
        let id = self.next_id;
        self.docs.push(Document { id, metadata });
        self.next_id = self.next_id + 1;
        id
    }

    /// The stored document with the given identifier, if any.
    pub fn get_document(&self, id: i64) -> (r: Option<&Document>)
        requires
            self.wf(),
        ensures
            match r {
                Some(d) => 1 <= id && id as int <= self.docs@.len() && *d == self.docs@[id as int
                    - 1],
                None => id < 1 || id as int > self.docs@.len(),
            },
    {
        if id < 1 {
            return None;
        }
        proof {
            assert(self.docs@.len() == self.docs.len());
            assert(self.docs@.len() < i64::MAX);
        }
        let n = self.docs.len() as i64;
        if id <= n {
            let idx = (id - 1) as usize;
            Some(&self.docs[idx])
        } else {
            None
        }
    }

    /// The stored plain text of the chapter at `index` of document `id`.
    /// Exactly the requests whose identifier or index does not exist are
    /// answered with `NotFoundError`.
    pub fn get_chapter_html_by_index(&self, id: i64, index: usize) -> (r: Result<
        String,
        NotFoundError,
    >)
        requires
            self.wf(),
        ensures
            match r {
                Ok(t) => lookup_chapter_spec(self.docs@, id, index as int) matches Ok(c) && t@ == c,
                Err(_) => lookup_chapter_spec(self.docs@, id, index as int) is Err,
            },
    {
        match self.get_document(id) {
            Some(doc) => {
                if index < doc.metadata.chapters.len() {
                    Ok(doc.metadata.chapters[index].content.clone())
                } else {
                    Err(NotFoundError {  })
                }
            },
            None => Err(NotFoundError {  }),
        }
    }

    /// The stored plain text of the first chapter of document `id` whose
    /// source path is `chapter_path`.
    pub fn get_chapter_html(&self, id: i64, chapter_path: &str) -> (r: Result<
        String,
        NotFoundError,
    >)
        requires
            self.wf(),
        ensures
            match r {
                Ok(t) => {
                    &&& 1 <= id && id as int <= self.docs@.len()
                    &&& {
                        let chs = self.docs@[id as int - 1].metadata.chapters@;
                        let f = first_path_index(chs, chapter_path@);
                        f >= 0 && t@ == chs[f].content@
                    }
                },
                Err(_) => id < 1 || id as int > self.docs@.len() || first_path_index(
                    self.docs@[id as int - 1].metadata.chapters@,
                    chapter_path@,
                ) == -1,
            },
    {
        let target = str_to_chars(chapter_path);
        match self.get_document(id) {
            Some(doc) => {
                proof {
                    assert(1 <= id && id as int <= self.docs@.len());
                    assert(*doc == self.docs@[id as int - 1]);
                }
                let ghost chs = doc.metadata.chapters@;
                let mut j: usize = 0;
                proof {
                    assert(chs.skip(0) =~= chs);
                }
                while j < doc.metadata.chapters.len()
                    invariant
                        j <= chs.len(),
                        self.wf(),
                        1 <= id && id as int <= self.docs@.len(),
                        chs == self.docs@[id as int - 1].metadata.chapters@,
                        chs == doc.metadata.chapters@,
                        target@ == chapter_path@,
                        first_path_index(chs, chapter_path@) == {
                            let f = first_path_index(chs.skip(j as int), chapter_path@);
                            if f == -1 {
                                -1
                            } else {
                                j + f
                            }
                        },
                    decreases chs.len() - j,
                {
                    proof {
                        assert(chs.skip(j as int)[0] == chs[j as int]);
                        assert(chs.skip(j as int).drop_first() =~= chs.skip(j as int + 1));
                    }
                    let pc = str_to_chars(doc.metadata.chapters[j].path.as_str());
                    if eq_chars(&pc, &target) {
                        proof {
                            assert(chs[j as int].path@ == chapter_path@);
                            assert(first_path_index(chs.skip(j as int), chapter_path@) == 0);
                            assert(first_path_index(chs, chapter_path@) == j);
                        }
                        return Ok(doc.metadata.chapters[j].content.clone());
                    }
                    proof {
                        assert(chs[j as int].path@ != chapter_path@);
                        lemma_first_path_index_range(chs.skip(j as int + 1), chapter_path@);
                        let f0 = first_path_index(chs.skip(j as int), chapter_path@);
                        let f1 = first_path_index(chs.skip(j as int + 1), chapter_path@);
                        assert(f0 == if f1 == -1 {
                            -1
                        } else {
                            f1 + 1
                        });
                        if f1 == -1 {
                            assert(first_path_index(chs, chapter_path@) == -1);
                        } else {
                            assert(first_path_index(chs, chapter_path@) == j + f0);
                            assert(first_path_index(chs, chapter_path@) == (j + 1) + f1);
                        }
                    }
                    j = j + 1;
                }
                proof {
                    assert(chs.skip(j as int) =~= Seq::<Chapter>::empty());
                }
                Err(NotFoundError {  })
            },
            None => Err(NotFoundError {  }),
        }
    }
}

/// Law: requesting a chapter index at or beyond the chapter count of any
/// stored document answers with `NotFoundError`, never anything else.
pub proof fn lemma_out_of_range_is_not_found(docs: Seq<Document>, id: i64, index: int)
    requires
        index >= docs[id as int - 1].metadata.chapters@.len(),
    ensures
        lookup_chapter_spec(docs, id, index) is Err,
{
}

/// Law: saving twice in a row yields distinct, increasing identifiers,
/// whatever the two documents hold.
pub proof fn lemma_distinct_identifiers(
    s0: DocumentStore,
    s1: DocumentStore,
    s2: DocumentStore,
    m1: EpubMetadata,
    m2: EpubMetadata,
    i1: i64,
    i2: i64,
)
    requires
        save_step(s0, s1, m1, i1),
        save_step(s1, s2, m2, i2),
    ensures
        i2 > i1,
        i1 != i2,
{
}

} // verus!
