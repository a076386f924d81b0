//! Catalog metadata for one book, as the metadata collaborator resolves it.
//! Read-only for the pipeline; one instance per request.

use vstd::prelude::*;

verus! {

/// Marker for the catalog's source listing; the gateway reads nothing from it.
#[derive(Clone)]
pub struct Source {}

/// One author of a book, with the name parts the filename normalizer reads.
#[derive(Clone)]
pub struct BookAuthor {
    pub id: u32,
    pub first_name: String,
    pub last_name: String,
    pub middle_name: String,
}

/// A catalog entry as the metadata collaborator returns it.
#[derive(Clone)]
pub struct Book {
    pub id: u32,
    pub title: String,
    pub lang: String,
    pub file_type: String,
    pub uploaded: String,
    pub authors: Vec<BookAuthor>,
}

/// A catalog entry together with the mirror-specific id it was looked up by.
#[derive(Clone)]
pub struct BookWithRemote {
    pub id: u32,
    pub remote_id: u32,
    pub title: String,
    pub lang: String,
    pub file_type: String,
    pub uploaded: String,
    pub authors: Vec<BookAuthor>,
}

impl BookWithRemote {
    /// Pairs a catalog entry with the remote id used to resolve it,
    /// carrying every field over unchanged.
    pub fn from_book(book: Book, remote_id: u32) -> (r: Self)
        ensures
            r.id == book.id,
            r.remote_id == remote_id,
            r.title == book.title,
            r.lang == book.lang,
            r.file_type == book.file_type,
            r.uploaded == book.uploaded,
            r.authors == book.authors,
    {
        Self {
            id: book.id,
            remote_id,
            title: book.title,
            lang: book.lang,
            file_type: book.file_type,
            uploaded: book.uploaded,
            authors: book.authors,
        }
    }
}

} // verus!
