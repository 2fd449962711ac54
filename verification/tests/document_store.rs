//! The in-memory document store: identifiers, lookups and not-found
//! answers.
use epub_audio::metadata::Chapter;
use epub_audio::metadata::EpubMetadata;
use epub_audio::store::DocumentStore;

fn chapter(n: usize, path: &str, content: &str) -> Chapter {
    Chapter {
        title: format!("Chapter {}", n),
        path: String::from(path),
        content: String::from(content),
        resolved: true,
    }
}

fn sample_metadata() -> EpubMetadata {
    EpubMetadata::new(
        String::from("A Title"),
        String::from("An Author"),
        None,
        Some(String::from("en")),
        None,
        vec![chapter(1, "c1.xhtml", "First text."), chapter(2, "c2.xhtml", "Second text.")],
    )
}

#[test]
fn saved_documents_get_increasing_ids_from_one() {
    let mut store = DocumentStore::new();
    let id1 = store.save_document(sample_metadata());
    let id2 = store.save_document(sample_metadata());
    let id3 = store.save_document(sample_metadata());
    assert_eq!(id1, 1);
    assert_eq!(id2, 2);
    assert_eq!(id3, 3);
}

#[test]
fn get_document_finds_what_was_saved() {
    let mut store = DocumentStore::new();
    let id = store.save_document(sample_metadata());
    let doc = store.get_document(id).expect("the saved document exists");
    assert_eq!(doc.id, id);
    assert_eq!(doc.metadata.title, "A Title");
    assert_eq!(doc.metadata.chapters.len(), 2);
}

#[test]
fn unknown_id_is_not_found() {
    let mut store = DocumentStore::new();
    store.save_document(sample_metadata());
    assert!(store.get_document(0).is_none());
    assert!(store.get_document(-5).is_none());
    assert!(store.get_document(2).is_none());
}

#[test]
fn chapter_by_index_returns_its_text() {
    let mut store = DocumentStore::new();
    let id = store.save_document(sample_metadata());
    assert_eq!(store.get_chapter_html_by_index(id, 0).unwrap(), "First text.");
    assert_eq!(store.get_chapter_html_by_index(id, 1).unwrap(), "Second text.");
}

#[test]
fn chapter_index_beyond_count_is_not_found() {
    let mut store = DocumentStore::new();
    let id = store.save_document(sample_metadata());
    assert!(store.get_chapter_html_by_index(id, 2).is_err());
    assert!(store.get_chapter_html_by_index(id, 1000).is_err());
    assert!(store.get_chapter_html_by_index(id + 1, 0).is_err());
}

#[test]
fn chapter_by_path_returns_the_first_match() {
    let mut store = DocumentStore::new();
    let id = store.save_document(sample_metadata());
    assert_eq!(store.get_chapter_html(id, "c2.xhtml").unwrap(), "Second text.");
    assert!(store.get_chapter_html(id, "nowhere.xhtml").is_err());
    assert!(store.get_chapter_html(id + 7, "c1.xhtml").is_err());
}
