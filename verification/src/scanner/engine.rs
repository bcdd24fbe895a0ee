//! The decisions of a library scan.  A scan walks the tree below a root depth first;
//! at each directory it reads the listing and asks the scanner what to record and
//! whether to descend, at each file what book it is.

use super::strategy::{
    category_spec, hidden_path, inspection_spec, opt_book_view, opt_category_view,
    opt_scanned_view, pdf_book_spec, pdf_kind, reuses_image_average, reuses_pdf_metadata, mtime_of,
    ConfigurableRecognizer, DirEntryFacts, ImageEntryView,
};
use super::types::{books_view, categories_view, BookView, CachedBookMetadata, CategoryView, ScanResult};
use crate::paths::path_extension;
use crate::text::str_eq;
use vstd::prelude::*;

verus! {

pub struct Scanner<'a> {
    pub recognizer: &'a ConfigurableRecognizer,
    pub existing_books: Vec<CachedBookMetadata>,
}

/// The first cached book whose path is `path`.
pub open spec fn cached_for(books: Seq<CachedBookMetadata>, path: Seq<char>) -> Option<BookView>
    decreases books.len(),
{
    if books.len() == 0 {
        None
    } else if books[0].path@ == path {
        Some(books[0]@)
    } else {
        cached_for(books.drop_first(), path)
    }
}

pub open spec fn result_view(r: ScanResult) -> (Seq<BookView>, Seq<CategoryView>) {
    (books_view(r.book_files@), categories_view(r.categories@))
}

pub open spec fn opt_seq<T>(o: Option<T>) -> Seq<T> {
    match o {
        Some(x) => seq![x],
        None => Seq::empty(),
    }
}

impl<'a> Scanner<'a> {
    pub fn new(recognizer: &'a ConfigurableRecognizer) -> (r: Scanner<'a>)
        ensures
            r.recognizer == recognizer,
            r.existing_books@.len() == 0,
    {
        Scanner { recognizer, existing_books: Vec::new() }
    }

    /// A scanner that reuses what the database holds of the books it meets again.
    pub fn with_existing_books(
        recognizer: &'a ConfigurableRecognizer,
        existing_books: Vec<CachedBookMetadata>,
    ) -> (r: Scanner<'a>)
        ensures
            r.recognizer == recognizer,
            r.existing_books == existing_books,
    {
        Scanner { recognizer, existing_books }
    }

    /// The cached book for `path`, if any.
    pub fn existing_for(&self, path: &str) -> (r: Option<&CachedBookMetadata>)
        ensures
            opt_book_view(r) == cached_for(self.existing_books@, path@),
    {
        let mut i: usize = 0;
        assert(self.existing_books@.skip(0) =~= self.existing_books@);
        while i < self.existing_books.len()
            invariant
                0 <= i <= self.existing_books.len(),
                cached_for(self.existing_books@, path@) == cached_for(
                    self.existing_books@.skip(i as int),
                    path@,
                ),
            decreases self.existing_books.len() - i,
        {
            let ghost rest = self.existing_books@.skip(i as int);
            assert(rest.drop_first() =~= self.existing_books@.skip(i + 1));
            assert(rest[0] == self.existing_books@[i as int]);
            if str_eq(self.existing_books[i].path.as_str(), path) {
                return Some(&self.existing_books[i]);
            }
            i = i + 1;
        }
        None
    }

    /// Whether the walk reads the listing of a directory: the root always, any other
    /// directory unless it is hidden.
    pub fn should_inspect_dir(&self, path: &str, is_root: bool) -> (r: bool)
        ensures
            r == (is_root || !hidden_path(path@)),
    {
        is_root || !self.recognizer.is_hidden(path)
    }

    /// Records a directory from its listing and tells whether the walk descends into its
    /// entries, in listing order.  A hidden directory below the root records nothing.
    /// The root always records its category; another directory records one only where
    /// it is not a plain image-folder book.
    pub fn visit_dir(
        &self,
        path: &str,
        is_root: bool,
        dir_mtime: Option<u64>,
        dir_len: u64,
        entries: &Vec<DirEntryFacts>,
        result: &mut ScanResult,
    ) -> (recurse: bool)
        requires
            entries.len() <= usize::MAX / 5,
        ensures
            !is_root && hidden_path(path@) ==> !recurse && result_view(*final(result))
                == result_view(*old(result)),
            is_root || !hidden_path(path@) ==> exists|
                sorted: Seq<ImageEntryView>,
                dims: Seq<Option<(u32, u32)>>,
                cat: Option<CategoryView>,
                book: Option<BookView>,
            |
                #[trigger] inspection_spec(
                    self.recognizer.exts(),
                    self.recognizer.min_image_count,
                    self.recognizer.oversized_image_avg_pixels,
                    path@,
                    dir_mtime,
                    dir_len,
                    entries@,
                    cached_for(self.existing_books@, path@),
                    sorted,
                    dims,
                    cat,
                    book,
                    recurse,
                ) && result_view(*final(result)).0 == result_view(*old(result)).0 + opt_seq(book)
                    && result_view(*final(result)).1 == result_view(*old(result)).1 + if is_root {
                    seq![category_spec(path@, dir_mtime)]
                } else {
                    opt_seq(cat)
                },
    {
        if !self.should_inspect_dir(path, is_root) {
            return false;
        }
        let existing = self.existing_for(path);
        let inspection = self.recognizer.inspect_directory(path, dir_mtime, dir_len, entries, existing);
        let ghost cat = opt_category_view(inspection.category);
        let ghost book = opt_scanned_view(inspection.book);
        let recurse = inspection.recurse;
        let ghost before = result_view(*result);
        proof {
            let (sorted, dims) = choose|sorted: Seq<ImageEntryView>, dims: Seq<Option<(u32, u32)>>|
                #[trigger] inspection_spec(
                    self.recognizer.exts(),
                    self.recognizer.min_image_count,
                    self.recognizer.oversized_image_avg_pixels,
                    path@,
                    dir_mtime,
                    dir_len,
                    entries@,
                    opt_book_view(existing),
                    sorted,
                    dims,
                    cat,
                    book,
                    recurse,
                );
            if is_root && cat is Some {
                assert(cat == Some(category_spec(path@, dir_mtime)));
            }
        }
        match inspection.category {
            Some(c) => {
                result.categories.push(c);
            },
            None => {
                if is_root {
                    result.categories.push(super::strategy::fill_category_model(path, dir_mtime));
                }
            },
        }
        match inspection.book {
            Some(b) => {
                result.book_files.push(b);
            },
            None => {},
        }
        proof {
            let after = result_view(*result);
            let (sorted, dims) = choose|sorted: Seq<ImageEntryView>, dims: Seq<Option<(u32, u32)>>|
                #[trigger] inspection_spec(
                    self.recognizer.exts(),
                    self.recognizer.min_image_count,
                    self.recognizer.oversized_image_avg_pixels,
                    path@,
                    dir_mtime,
                    dir_len,
                    entries@,
                    opt_book_view(existing),
                    sorted,
                    dims,
                    cat,
                    book,
                    recurse,
                );
            assert(after.0 =~= before.0 + opt_seq(book));
            assert(after.1 =~= before.1 + if is_root {
                seq![category_spec(path@, dir_mtime)]
            } else {
                opt_seq(cat)
            });
            assert(inspection_spec(
                self.recognizer.exts(),
                self.recognizer.min_image_count,
                self.recognizer.oversized_image_avg_pixels,
                path@,
                dir_mtime,
                dir_len,
                entries@,
                cached_for(self.existing_books@, path@),
                sorted,
                dims,
                cat,
                book,
                recurse,
            ));
        }
        recurse
    }

    /// Whether the walk must read the page count of a file before `visit_file`: it is a
    /// visible `.pdf` file whose cached metadata cannot be reused.
    pub fn needs_pdf_page_count(&self, path: &str, modified: Option<u64>, len: u64) -> (r: bool)
        ensures
            r == (!hidden_path(path@) && path_extension(path@) == Some(pdf_kind())
                && !reuses_pdf_metadata(
                cached_for(self.existing_books@, path@),
                mtime_of(modified),
                len as i64,
            )),
    {
        let existing = self.existing_for(path);
        self.recognizer.needs_pdf_page_count(path, modified, len, existing)
    }

    /// Records a file: a visible `.pdf` file becomes a book, anything else nothing.
    pub fn visit_file(
        &self,
        path: &str,
        modified: Option<u64>,
        len: u64,
        page_count: Option<usize>,
        result: &mut ScanResult,
    )
        ensures
            result_view(*final(result)).1 == result_view(*old(result)).1,
            result_view(*final(result)).0 == result_view(*old(result)).0 + if !hidden_path(path@)
                && path_extension(path@) == Some(pdf_kind()) {
                seq![
                    pdf_book_spec(
                        path@,
                        modified,
                        len,
                        cached_for(self.existing_books@, path@),
                        page_count,
                    ),
                ]
            } else {
                Seq::empty()
            },
    {
        let existing = self.existing_for(path);
        let ghost before = result_view(*result);
        match self.recognizer.analyze_file(path, modified, len, existing, page_count) {
            Some(b) => {
                result.book_files.push(b);
            },
            None => {},
        }
        assert(result_view(*result).0 =~= before.0 + if !hidden_path(path@) && path_extension(
            path@,
        ) == Some(pdf_kind()) {
            seq![pdf_book_spec(path@, modified, len, cached_for(self.existing_books@, path@), page_count)]
        } else {
            Seq::empty()
        });
        assert(result_view(*result).1 =~= before.1);
    }
}

/// A scanner made without cached books and one made with an empty list of them behave
/// alike at every step: neither finds a cached book for any path, so neither reuses a
/// stored page count or pixel average; every visible PDF has its page count read and
/// every image folder is measured from its sampled files.
pub proof fn law_no_cached_books_reuse_nothing(
    a: Scanner,
    b: Scanner,
    path: Seq<char>,
    mtime: i64,
    size: i64,
    signature: Seq<char>,
)
    requires
        a.recognizer == b.recognizer,
        a.existing_books@.len() == 0,
        b.existing_books@.len() == 0,
    ensures
        cached_for(a.existing_books@, path) == cached_for(b.existing_books@, path),
        cached_for(a.existing_books@, path) is None,
        !reuses_pdf_metadata(cached_for(a.existing_books@, path), mtime, size),
        !reuses_image_average(cached_for(a.existing_books@, path), signature),
{
}

} // verus!
