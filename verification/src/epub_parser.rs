//! Ingestion of a packaged document: the package is opened by an outside
//! reader, each metadata field is read with its own optional lookup, and
//! every reading-order entry is resolved to plain text through an ordered
//! list of candidate archive paths — the first candidate whose bytes
//! resolve and decode as text wins, and an entry that resolves nowhere
//! still yields its chapter, with empty text, rather than aborting the
//! whole ingestion.  The reader works over an in-memory cursor, so every
//! one of its answers is a function of the package bytes alone; the named
//! results below record that, and the ingestion contract pins the whole
//! result as a function of the input bytes.
use crate::metadata::Chapter;
use crate::metadata::EpubMetadata;
use crate::metadata::duplicate_chapters;
use crate::strutil::chapter_title;
use crate::strutil::chapter_title_spec;
use crate::text::extract_spec;
use crate::text::extract_text_from_html;
use vstd::prelude::*;
use vstd::string::StringExecFns;
use vstd::utf8::valid_utf8;

verus! {

/// The opened package: epub's `EpubDoc` over an in-memory cursor.  The
/// verifier cannot declare that type (its generics are bound by reader
/// traits it does not know), so the reader is held opaque in this struct
/// and touched only through the trusted items below.
#[verifier::external_body]
pub struct Package {
    doc: epub::doc::EpubDoc<std::io::Cursor<Vec<u8>>>,
}

/// The bytes an opened package was built over.  Every method wrapper
/// below speaks of the package through this name.
pub uninterp spec fn package_bytes(p: Package) -> Seq<u8>;

/// Whether these bytes open as a valid package: epub's `from_reader`
/// accepts them and the container's rootfile path is well-formed (see
/// `open_package`, which refuses the malformed path ahead of the call).
pub uninterp spec fn epub_opens(data: Seq<u8>) -> bool;

/// The reading-order identifiers epub's reader lists for these bytes, in
/// spine order.
pub uninterp spec fn spine_of(data: Seq<u8>) -> Seq<Seq<char>>;

/// The value of the first metadata entry with the given property that
/// epub's reader yields for these bytes.
pub uninterp spec fn package_meta(data: Seq<u8>, property: Seq<char>) -> Option<Seq<char>>;

/// The bytes stored under the given archive path of the package.
pub uninterp spec fn package_resource(data: Seq<u8>, path: Seq<char>) -> Option<Seq<u8>>;

/// Everything ingestion extracts from one package: the metadata record
/// (whose chapter list carries the same records) and the ordered chapters.
pub struct EpubContent {
    pub metadata: EpubMetadata,
    pub chapters: Vec<Chapter>,
}

/// Mirrors the byte-level decoding epub's own XML reader applies to the
/// container before parsing (epub-2.1.5 xmlutils: under four bytes is
/// refused, a UTF-8 byte-order mark is skipped, a UTF-16 byte-order mark
/// has the pairs reassembled and decoded lossily, anything else is passed
/// through), so that the guard below parses exactly the text the open
/// call will parse.
#[verifier::external_body]
fn container_slice(container: &[u8]) -> (r: Option<Vec<u8>>) {
    if container.len() < 4 {
        return None;
    }
    if container.starts_with(&[0xef, 0xbb, 0xbf]) {
        return Some(container[3..].to_vec());
    }
    if container.starts_with(&[0xfe, 0xff]) || container.starts_with(&[0xff, 0xfe]) {
        let (b, s) = if container[0] == 0xfe { (1, 0) } else { (0, 1) };
        let units: Vec<u16> =
            container[2..].chunks_exact(2).map(|a| u16::from_ne_bytes([a[b], a[s]])).collect();
        return Some(String::from_utf16_lossy(&units).into_bytes());
    }
    Some(container.to_vec())
}

/// Relies on the xml crate — the same XML layer, version and extra
/// entities epub's reader parses the container with — to read the
/// `full-path` of the first `rootfile` element below the document root
/// (the reader searches descendants only, in the same pre-order), as
/// that layer decodes it, character references included.  True exactly
/// when that path has no parent directory, the one value
/// `EpubDoc::from_reader` aborts on.  On a parse error, or no rootfile,
/// or no path attribute, the open call fails on its own before reaching
/// the abort.
#[verifier::external_body]
fn rootfile_parent_missing(slice: &[u8]) -> (r: bool) {
    let config = xml::reader::ParserConfig::new().add_entity("nbsp", " ").add_entity("copy", "©").add_entity("reg", "®");
    let mut below_root = false;
    for ev in config.create_reader(slice) {
        let (name, attributes) = match ev {
            Ok(xml::reader::XmlEvent::StartElement { name, attributes, .. }) => (name, attributes),
            Err(_) => return false,
            _ => continue,
        };
        if below_root && name.local_name == "rootfile" {
            return attributes.iter().find(|a| a.name.local_name == "full-path")
                .is_some_and(|a| std::path::Path::new(&a.value).parent().is_none());
        }
        below_root = true;
    }
    false
}

/// Relies on epub's `EpubArchive` to read `META-INF/container.xml`: true
/// exactly for the containers `EpubDoc::from_reader` aborts on instead
/// of failing — a rootfile path with no parent directory, read through
/// the same XML layer the call uses (see the two helpers above).
#[verifier::external_body]
fn container_root_malformed(data: &[u8]) -> (r: bool) {
    let opened = epub::archive::EpubArchive::from_reader(std::io::Cursor::new(data.to_vec()))
        .and_then(|mut a| a.get_container_file());
    match opened.ok().and_then(|c| container_slice(&c)) {
        Some(s) => rootfile_parent_missing(&s),
        None => false,
    }
}

/// Relies on epub's `EpubDoc::from_reader` over an in-memory cursor:
/// opens the package, or reports the cause when the bytes are no valid
/// package.  The one container `from_reader` would abort on is refused
/// first by `container_root_malformed`, so the call always returns.  The
/// whole procedure is a function of the bytes alone; `epub_opens` names
/// its success.
#[verifier::external_body]
fn open_package(data: &[u8]) -> (r: Result<Package, String>)
    ensures
        r is Ok <==> epub_opens(data@),
        r matches Ok(p) ==> package_bytes(p) == data@,
{
    if container_root_malformed(data) {
        return Err(String::from("Failed to parse EPUB: malformed rootfile path"));
    }
    let cursor = std::io::Cursor::new(data.to_vec());
    match epub::doc::EpubDoc::from_reader(cursor) {
        Ok(doc) => Ok(Package { doc }),
        Err(e) => Err(format!("Failed to parse EPUB: {}", e)),
    }
}

/// Relies on the `spine` list of epub's `EpubDoc`: the package's
/// authoritative reading order, one identifier per entry, in document
/// order — a function of the package bytes.
#[verifier::external_body]
fn spine_ids(package: &Package) -> (r: Vec<String>)
    ensures
        r.deep_view() == spine_of(package_bytes(*package)),
{
    package.doc.spine.iter().map(|item| item.idref.clone()).collect()
}

/// Relies on epub's `EpubDoc::mdata`: the value of the first metadata
/// entry with the given property name, if the package has one — a
/// function of the package bytes and the property.
#[verifier::external_body]
fn metadata_value(package: &Package, property: &str) -> (r: Option<String>)
    ensures
        r.deep_view() == package_meta(package_bytes(*package), property@),
{
    package.doc.mdata(property).map(|item| item.value.clone())
}

/// Relies on epub's `EpubDoc::get_resource_by_path`: the bytes stored
/// under the given archive path, or nothing when the path is absent — a
/// function of the package bytes and the path.  The lookup moves the
/// reader's cursor but never the data it was built over.
#[verifier::external_body]
fn resolve_resource(package: &mut Package, path: &str) -> (r: Option<Vec<u8>>)
    ensures
        package_bytes(*final(package)) == package_bytes(*old(package)),
        r.deep_view() == package_resource(package_bytes(*old(package)), path@),
{
    package.doc.get_resource_by_path(path)
}

/// Relies on std's `String::from_utf8`: the bytes as text exactly when
/// they are valid UTF-8, decoded as UTF-8 reads them.
#[verifier::external_body]
fn decode_text(bytes: Vec<u8>) -> (r: Option<String>)
    ensures
        r is Some <==> valid_utf8(bytes@),
        r matches Some(s) ==> s@ == vstd::utf8::decode_utf8(bytes@),
{
    String::from_utf8(bytes).ok()
}

/// The ordered candidate archive paths for one reading-order identifier:
/// the identifier verbatim, then under each conventional content prefix.
pub open spec fn candidates_spec(id: Seq<char>) -> Seq<Seq<char>> {
    seq!["text/"@ + id, "OEBPS/"@ + id, "OEBPS/Text/"@ + id].insert(0, id)
}

pub fn candidate_paths(id: &str) -> (r: Vec<String>)
    ensures
        r.deep_view() == candidates_spec(id@),
{
    let mut v: Vec<String> = Vec::new();
    v.push(String::from_str(id));
    v.push(String::from_str("text/").concat(id));
    v.push(String::from_str("OEBPS/").concat(id));
    v.push(String::from_str("OEBPS/Text/").concat(id));
    proof {
        assert(v.deep_view() =~= candidates_spec(id@));
    }
    v
}

/// The first candidate in order whose bytes are present and decode as
/// valid text; later candidates are not considered.
pub open spec fn first_resolved(data: Seq<u8>, cands: Seq<Seq<char>>) -> Option<Seq<char>>
    decreases cands.len(),
{
    if cands.len() == 0 {
        None
    } else {
        match package_resource(data, cands[0]) {
            Some(bytes) => if valid_utf8(bytes) {
                Some(vstd::utf8::decode_utf8(bytes))
            } else {
                first_resolved(data, cands.drop_first())
            },
            None => first_resolved(data, cands.drop_first()),
        }
    }
}

/// What resolution yields for one reading-order identifier of a package:
/// the text of the first successful candidate path, or nothing.
pub open spec fn resolved_text_spec(data: Seq<u8>, id: Seq<char>) -> Option<Seq<char>> {
    first_resolved(data, candidates_spec(id))
}

/// Tries the candidate paths of one reading-order identifier in order and
/// returns the first content that resolves and decodes as text.
fn resolve_chapter_text(package: &mut Package, id: &str) -> (r: Option<String>)
    ensures
        package_bytes(*final(package)) == package_bytes(*old(package)),
        r.deep_view() == resolved_text_spec(package_bytes(*old(package)), id@),
{
    let ghost data = package_bytes(*package);
    let cands = candidate_paths(id);
    let ghost cseq = candidates_spec(id@);
    let mut k: usize = 0;
    proof {
        assert(cseq.skip(0) =~= cseq);
        assert(cseq.len() == cands@.len());
    }
    while k < cands.len()
        invariant
            k <= cseq.len(),
            cands.deep_view() == cseq,
            cseq.len() == cands@.len(),
            data == package_bytes(*old(package)),
            package_bytes(*package) == data,
            resolved_text_spec(data, id@) == first_resolved(data, cseq.skip(k as int)),
        decreases cseq.len() - k,
    {
        proof {
            assert(cseq.skip(k as int)[0] == cseq[k as int]);
            assert(cseq[k as int] == cands@[k as int]@);
            assert(cseq.skip(k as int).drop_first() =~= cseq.skip(k as int + 1));
        }
        if let Some(bytes) = resolve_resource(package, cands[k].as_str()) {
            let ghost bseq = bytes@;
            proof {
                assert(package_resource(data, cseq[k as int]) == Some(bseq));
            }
            if let Some(text) = decode_text(bytes) {
                proof {
                    assert(first_resolved(data, cseq.skip(k as int)) == Some(
                        vstd::utf8::decode_utf8(bseq),
                    ));
                }
                return Some(text);
            }
        }
        k = k + 1;
    }
    proof {
        assert(cseq.skip(k as int) =~= Seq::<Seq<char>>::empty());
    }
    None
}

/// Builds the chapter record at the given 0-based position from whatever
/// resolution returned: the display title is always "Chapter N" with the
/// 1-based position, the source identifier is always preserved, and a
/// failed resolution yields empty text marked unresolved.
pub fn build_chapter(position: usize, id: &str, resolved: Option<String>) -> (r: Chapter)
    requires
        position < usize::MAX,
    ensures
        r@.title == chapter_title_spec((position + 1) as nat),
        r@.path == id@,
        match resolved {
            Some(t) => r@.resolved && r@.content == extract_spec(t@),
            None => !r@.resolved && r@.content == Seq::<char>::empty(),
        },
{
    let title = chapter_title(position + 1);
    let path = String::from_str(id);
    match resolved {
        Some(t) => Chapter {
            title,
            path,
            content: extract_text_from_html(t.as_str()),
            resolved: true,
        },
        None => Chapter { title, path, content: String::new(), resolved: false },
    }
}

/// Resolves every reading-order entry to a chapter record, one per entry,
/// preserving input order exactly: entry i yields the chapter at index i,
/// titled with the 1-based position, its text the extraction of the first
/// candidate that resolved — and an entry that resolves nowhere still
/// yields its chapter, with empty text.
pub fn resolve_chapters(package: &mut Package, spine: &Vec<String>) -> (r: Vec<Chapter>)
    ensures
        package_bytes(*final(package)) == package_bytes(*old(package)),
        r@.len() == spine@.len(),
        forall|i: int|
            0 <= i < r@.len() ==> {
                &&& (#[trigger] r@[i])@.title == chapter_title_spec((i + 1) as nat)
                &&& r@[i]@.path == spine@[i]@
                &&& match resolved_text_spec(package_bytes(*old(package)), spine@[i]@) {
                    Some(t) => r@[i]@.resolved && r@[i]@.content == extract_spec(t),
                    None => !r@[i]@.resolved && r@[i]@.content == Seq::<char>::empty(),
                }
            },
{
    let ghost data = package_bytes(*package);
    let mut chapters: Vec<Chapter> = Vec::new();
    let mut i: usize = 0;
    while i < spine.len()
        invariant
            i <= spine@.len(),
            chapters@.len() == i,
            data == package_bytes(*old(package)),
            package_bytes(*package) == data,
            forall|k: int|
                0 <= k < i ==> {
                    &&& (#[trigger] chapters@[k])@.title == chapter_title_spec((k + 1) as nat)
                    &&& chapters@[k]@.path == spine@[k]@
                    &&& match resolved_text_spec(data, spine@[k]@) {
                        Some(t) => chapters@[k]@.resolved && chapters@[k]@.content
                            == extract_spec(t),
                        None => !chapters@[k]@.resolved && chapters@[k]@.content
                            == Seq::<char>::empty(),
                    }
                },
        decreases spine@.len() - i,
    {
        proof {
            assert(spine@.len() == spine.len());
        }
        let text = resolve_chapter_text(package, spine[i].as_str());
        let chapter = build_chapter(i, spine[i].as_str(), text);
        chapters.push(chapter);
        i = i + 1;
    }
    chapters
}

/// The given optional value, or the given default where it is absent.
pub fn or_default(value: Option<String>, default: &str) -> (r: String)
    ensures
        match value {
            Some(s) => r@ == s@,
            None => r@ == default@,
        },
{
    match value {
        Some(s) => s,
        None => String::from_str(default),
    }
}

/// Ingests one package from its raw bytes into a complete document
/// record.  Fails, with the cause, exactly when the bytes cannot be
/// opened as a valid package at all; a missing metadata field or an
/// unresolvable entry never aborts ingestion.  On success the whole
/// result is pinned as a function of the input bytes: each metadata field
/// is the package's or its own default, and entry i of the reading order
/// yields chapter i, titled by position, carrying the extraction of the
/// first candidate that resolved.  The chapter list of the metadata
/// record carries the same records as the chapter list of the result.
pub fn parse_epub(data: &[u8]) -> (r: Result<EpubContent, String>)
    ensures
        r is Ok <==> epub_opens(data@),
        match r {
            Ok(c) => {
                &&& c.metadata.title@ == (match package_meta(data@, "title"@) {
                    Some(t) => t,
                    None => "Unknown Title"@,
                })
                &&& c.metadata.author@ == (match package_meta(data@, "creator"@) {
                    Some(a) => a,
                    None => "Unknown Author"@,
                })
                &&& c.metadata.publication_date.deep_view() == package_meta(data@, "date"@)
                &&& c.metadata.language.deep_view() == package_meta(data@, "language"@)
                &&& c.metadata.description.deep_view() == package_meta(data@, "description"@)
                &&& c.chapters@.len() == spine_of(data@).len()
                &&& c.metadata.chapters@.len() == c.chapters@.len()
                &&& c.chapters.deep_view() == c.metadata.chapters.deep_view()
                &&& forall|i: int|
                    0 <= i < c.chapters@.len() ==> {
                        &&& (#[trigger] c.chapters@[i])@.title == chapter_title_spec(
                            (i + 1) as nat,
                        )
                        &&& c.chapters@[i]@.path == spine_of(data@)[i]
                        &&& match resolved_text_spec(data@, spine_of(data@)[i]) {
                            Some(t) => c.chapters@[i]@.resolved && c.chapters@[i]@.content
                                == extract_spec(t),
                            None => !c.chapters@[i]@.resolved && c.chapters@[i]@.content
                                == Seq::<char>::empty(),
                        }
                    }
            },
            Err(_) => true,
        },
{
    let mut package = match open_package(data) {
        Ok(d) => d,
        Err(e) => {
            return Err(e);
        },
    };
    let spine = spine_ids(&package);
    proof {
        assert(spine.deep_view().len() == spine@.len());
        assert(forall|i: int|
            0 <= i < spine@.len() ==> (#[trigger] spine@[i])@ == spine.deep_view()[i]);
    }
    let title = or_default(metadata_value(&package, "title"), "Unknown Title");
    let author = or_default(metadata_value(&package, "creator"), "Unknown Author");
    let publication_date = metadata_value(&package, "date");
    let language = metadata_value(&package, "language");
    let description = metadata_value(&package, "description");
    let chapters = resolve_chapters(&mut package, &spine);
    let chapter_records = duplicate_chapters(&chapters);
    let metadata = EpubMetadata::new(
        title,
        author,
        publication_date,
        language,
        description,
        chapter_records,
    );
    proof {
        assert(chapters.deep_view().len() == chapters@.len());
        assert(metadata.chapters.deep_view().len() == metadata.chapters@.len());
        assert(chapters.deep_view() == metadata.chapters.deep_view());
    }
    Ok(EpubContent { metadata, chapters })
}

} // verus!
