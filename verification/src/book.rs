//! The book assembler: holds the open archive plus resolved metadata and
//! content list, and drives the final text emission.

use vstd::prelude::*;
use crate::content::{manifest_lookup, manifest_lookup_spec, resolve_spine, spine_entries_spec,
    ContentEntry, ContentEntryV, RawItemV};
use crate::dom::{attr_pairs_of, attr_values_of, doc_attr_pairs, doc_attr_values, doc_first_text,
    doc_records, first_text_of, records_of};
use crate::error::EpubError;
use crate::nav::{nav_contents_spec, resolve_nav};
use crate::refres::{resolve_ref, resolve_ref_spec};
use crate::render::{header_spec, render_all_spec, render_entries, render_header};
use crate::strutil::{parent_dir, parent_dir_spec};
use crate::zipio::{archive_data, open_archive, read_entry, read_error_spec, zip_entry, zip_opens,
    Archive};

verus! {

/// The resolved book: the open archive, the `(title, author, description)`
/// metadata, and the ordered content list.
pub struct Book {
    /// epub zip archive
    pub epub: Archive,
    /// `(title, author, description)`
    pub metadata: (String, String, String),
    /// the resolved content list, in reading order
    pub spine: Vec<ContentEntry>,
}

/// The navigation item's href: the manifest entry under the first of the
/// known navigation-document id conventions.
pub open spec fn nav_href_spec(items: Seq<RawItemV>) -> Option<Seq<char>> {
    match manifest_lookup_spec(items, "ncx"@) {
        Some(h) => Some(h),
        None => match manifest_lookup_spec(items, "toc"@) {
            Some(h) => Some(h),
            None => manifest_lookup_spec(items, "ncxtoc"@),
        },
    }
}

/// What the navigation-map strategy yields for a package whose manifest
/// items are `items`: locate the navigation item, resolve and read the
/// navigation document, then build the sorted, deduplicated content list.
/// An empty outcome at any step is the fatal empty-list error; a navigation
/// document whose resolved path cannot be read is fatal, since the path was
/// already resolved.
pub open spec fn nav_book_spec(data: Seq<u8>, items: Seq<RawItemV>, root: Seq<char>) -> Result<
    Seq<ContentEntryV>,
    EpubError,
> {
    match nav_href_spec(items) {
        None => Err(EpubError::EmptyNav),
        Some(href) => match resolve_ref_spec(root, href) {
            None => Err(EpubError::EmptyNav),
            Some(navpath) => match zip_entry(data, navpath) {
                None => Err(read_error_spec(data, navpath)),
                Some(nb) => {
                    let es = nav_contents_spec(
                        records_of(nb, "navpoint"@, "playorder"@, "navlabel"@, "content"@, "src"@),
                        root,
                    );
                    if es.len() == 0 {
                        Err(EpubError::EmptyNav)
                    } else {
                        Ok(es)
                    }
                },
            },
        },
    }
}

/// What constructing a book from an archive over `data` and a
/// package-document path returns: the metadata (title required, author and
/// description defaulted) and the content list, by the spine strategy when
/// the package declares itemrefs and by the navigation-map strategy
/// otherwise.
pub open spec fn book_of(data: Seq<u8>, opf: Seq<char>) -> Result<
    ((Seq<char>, Seq<char>, Seq<char>), Seq<ContentEntryV>),
    EpubError,
> {
    match zip_entry(data, opf) {
        None => Err(read_error_spec(data, opf)),
        Some(b) => match first_text_of(b, "dc\\:title"@) {
            None => Err(EpubError::NoTitle),
            Some(title) => {
                let author = match first_text_of(b, "dc\\:creator"@) {
                    Some(a) => a,
                    None => "anonymous"@,
                };
                let desc = match first_text_of(b, "dc\\:description"@) {
                    Some(d) => d,
                    None => "None"@,
                };
                let root = parent_dir_spec(opf);
                let items = attr_pairs_of(b, "item"@, "id"@, "href"@);
                let refs = attr_values_of(b, "itemref"@, "idref"@);
                if refs.len() > 0 {
                    let entries = spine_entries_spec(items, refs, root, 0);
                    if entries.len() == 0 {
                        Err(EpubError::EmptySpine)
                    } else {
                        Ok(((title, author, desc), entries))
                    }
                } else {
                    match nav_book_spec(data, items, root) {
                        Err(e) => Err(e),
                        Ok(entries) => Ok(((title, author, desc), entries)),
                    }
                }
            },
        },
    }
}

/// The package-document path that the container descriptor declares: the
/// full-path attribute of the first rootfile element.
pub open spec fn container_rootfile_spec(data: Seq<u8>) -> Result<Seq<char>, EpubError> {
    match zip_entry(data, "META-INF/container.xml"@) {
        None => Err(read_error_spec(data, "META-INF/container.xml"@)),
        Some(cb) => {
            let vals = attr_values_of(cb, "rootfile"@, "full-path"@);
            if vals.len() == 0 {
                Err(EpubError::NoRootfile)
            } else {
                match vals[0] {
                    None => Err(EpubError::NoFullPath),
                    Some(p) => Ok(p),
                }
            }
        },
    }
}

/// Constructing a book starting from the container descriptor.
pub open spec fn book_from_container_of(data: Seq<u8>) -> Result<
    ((Seq<char>, Seq<char>, Seq<char>), Seq<ContentEntryV>),
    EpubError,
> {
    match container_rootfile_spec(data) {
        Err(e) => Err(e),
        Ok(p) => book_of(data, p),
    }
}

/// What the whole emission returns: the metadata header followed by every
/// entry's rendered text.
pub open spec fn rendered_spec(
    data: Seq<u8>,
    meta: (Seq<char>, Seq<char>, Seq<char>),
    entries: Seq<ContentEntryV>,
) -> Result<Seq<char>, EpubError> {
    match render_all_spec(data, entries) {
        Err(e) => Err(e),
        Ok(body) => Ok(header_spec(meta.0, meta.1, meta.2) + body),
    }
}

/// What one whole conversion run returns for an input byte source.
pub open spec fn epub2txt_spec(b: Seq<u8>) -> Result<Seq<char>, EpubError> {
    if !zip_opens(b) {
        Err(EpubError::ArchiveInvalid)
    } else {
        match book_from_container_of(b) {
            Err(e) => Err(e),
            Ok((meta, entries)) => rendered_spec(b, meta, entries),
        }
    }
}

/// Builds the content list by the navigation-map strategy.
fn nav_entries_from(
    epub: &mut Archive,
    items: &Vec<(Option<String>, Option<String>)>,
    root: &str,
) -> (r: Result<Vec<ContentEntry>, EpubError>)
    ensures
        archive_data(*final(epub)) == archive_data(*old(epub)),
        r is Ok <==> nav_book_spec(archive_data(*old(epub)), items.deep_view(), root@) is Ok,
        r matches Ok(v) ==> Ok::<Seq<ContentEntryV>, EpubError>(v.deep_view()) == nav_book_spec(
            archive_data(*old(epub)),
            items.deep_view(),
            root@,
        ),
        r matches Err(e) ==> Err::<Seq<ContentEntryV>, EpubError>(e) == nav_book_spec(
            archive_data(*old(epub)),
            items.deep_view(),
            root@,
        ),
{
    let href = match manifest_lookup(items, "ncx") {
        Some(h) => Some(h),
        None => match manifest_lookup(items, "toc") {
            Some(h) => Some(h),
            None => manifest_lookup(items, "ncxtoc"),
        },
    };
    let href = match href {
        Some(h) => h,
        None => {
            return Err(EpubError::EmptyNav);
        },
    };
    let navpath = match resolve_ref(root, href.as_str()) {
        Some(p) => p,
        None => {
            return Err(EpubError::EmptyNav);
        },
    };
    let nav_bytes = match read_entry(epub, navpath.as_str()) {
        Ok(b) => b,
        Err(e) => {
            return Err(e);
        },
    };
    let points = doc_records(&nav_bytes, "navpoint", "playorder", "navlabel", "content", "src");
    let es = resolve_nav(&points, root);
    if es.len() == 0 {
        return Err(EpubError::EmptyNav);
    }
    Ok(es)
}

impl Book {
    /// Resolves a book out of an archive and the package-document path:
    /// extracts the metadata and builds the ordered content list.
    pub fn new(epub: Archive, opf: &str) -> (r: Result<Book, EpubError>)
        ensures
            r is Ok <==> book_of(archive_data(epub), opf@) is Ok,
            r matches Ok(b) ==> archive_data(b.epub) == archive_data(epub) && ((
                b.metadata.0@,
                b.metadata.1@,
                b.metadata.2@,
            ), b.spine.deep_view()) == book_of(archive_data(epub), opf@)->Ok_0,
            r matches Ok(b) ==> b.spine.len() > 0,
            r matches Err(e) ==> Err::<((Seq<char>, Seq<char>, Seq<char>), Seq<ContentEntryV>), EpubError>(e)
                == book_of(archive_data(epub), opf@),
    {
        let mut epub = epub;
        let bytes = match read_entry(&mut epub, opf) {
            Ok(b) => b,
            Err(e) => {
                return Err(e);
            },
        };
        let title = match doc_first_text(&bytes, "dc\\:title") {
            Some(t) => t,
            None => {
                return Err(EpubError::NoTitle);
            },
        };
        let author = match doc_first_text(&bytes, "dc\\:creator") {
            Some(a) => a,
            None => "anonymous".to_owned(),
        };
        let desc = match doc_first_text(&bytes, "dc\\:description") {
            Some(d) => d,
            None => "None".to_owned(),
        };
        let root = parent_dir(opf);
        let items = doc_attr_pairs(&bytes, "item", "id", "href");
        let refs = doc_attr_values(&bytes, "itemref", "idref");
        let entries = if refs.len() > 0 {
            let es = resolve_spine(&items, &refs, root);
            if es.len() == 0 {
                return Err(EpubError::EmptySpine);
            }
            es
        } else {
            match nav_entries_from(&mut epub, &items, root) {
                Ok(es) => es,
                Err(e) => {
                    return Err(e);
                },
            }
        };
        Ok(Book { epub, metadata: (title, author, desc), spine: entries })
    }

    /// Resolves a book by first locating the package document through the
    /// archive's fixed container descriptor.
    pub fn from_container(epub: Archive) -> (r: Result<Book, EpubError>)
        ensures
            r is Ok <==> book_from_container_of(archive_data(epub)) is Ok,
            r matches Ok(b) ==> archive_data(b.epub) == archive_data(epub) && ((
                b.metadata.0@,
                b.metadata.1@,
                b.metadata.2@,
            ), b.spine.deep_view()) == book_from_container_of(archive_data(epub))->Ok_0,
            r matches Ok(b) ==> b.spine.len() > 0,
            r matches Err(e) ==> Err::<((Seq<char>, Seq<char>, Seq<char>), Seq<ContentEntryV>), EpubError>(e)
                == book_from_container_of(archive_data(epub)),
    {
        let mut epub = epub;
        let cb = match read_entry(&mut epub, "META-INF/container.xml") {
            Ok(b) => b,
            Err(e) => {
                return Err(e);
            },
        };
        let vals = doc_attr_values(&cb, "rootfile", "full-path");
        if vals.len() == 0 {
            return Err(EpubError::NoRootfile);
        }
        let p = match &vals[0] {
            Some(p) => p.clone(),
            None => {
                return Err(EpubError::NoFullPath);
            },
        };
        Book::new(epub, p.as_str())
    }

    /// Appends the whole emission to the output buffer: the metadata header,
    /// then each entry's rendered text in content order. On failure the
    /// buffer is left unchanged.
    pub fn write_to(&mut self, output: &mut String) -> (r: Result<(), EpubError>)
        ensures
            final(self).metadata == old(self).metadata,
            final(self).spine == old(self).spine,
            archive_data(final(self).epub) == archive_data(old(self).epub),
            r is Ok <==> rendered_spec(
                archive_data(old(self).epub),
                old(self).metadata@,
                old(self).spine.deep_view(),
            ) is Ok,
            r matches Ok(_) ==> final(output)@ == old(output)@ + rendered_spec(
                archive_data(old(self).epub),
                old(self).metadata@,
                old(self).spine.deep_view(),
            )->Ok_0,
            r matches Err(e) ==> Err::<Seq<char>, EpubError>(e) == rendered_spec(
                archive_data(old(self).epub),
                old(self).metadata@,
                old(self).spine.deep_view(),
            ) && final(output)@ == old(output)@,
    {
        let header = render_header(
            self.metadata.0.as_str(),
            self.metadata.1.as_str(),
            self.metadata.2.as_str(),
        );
        let body = match render_entries(&mut self.epub, &self.spine) {
            Ok(b) => b,
            Err(e) => {
                return Err(e);
            },
        };
        let ghost pre = output@;
        output.append(header.as_str());
        output.append(body.as_str());
        proof {
            assert(output@ =~= pre + (header@ + body@));
        }
        Ok(())
    }
}

/// Converts one EPUB byte source to plain text, appending it to the output
/// buffer. On failure the buffer is left unchanged.
pub fn epub2txt(input: &Vec<u8>, output: &mut String) -> (r: Result<(), EpubError>)
    ensures
        r is Ok <==> epub2txt_spec(input@) is Ok,
        r matches Ok(_) ==> final(output)@ == old(output)@ + epub2txt_spec(input@)->Ok_0,
        r matches Err(e) ==> Err::<Seq<char>, EpubError>(e) == epub2txt_spec(input@)
            && final(output)@ == old(output)@,
{
    let archive = match open_archive(input) {
        Ok(a) => a,
        Err(e) => {
            return Err(e);
        },
    };
    let mut book = match Book::from_container(archive) {
        Ok(b) => b,
        Err(e) => {
            return Err(e);
        },
    };
    book.write_to(output)
}

} // verus!
