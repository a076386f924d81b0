//! Download orchestrator rules: which attempts to race for a request, how a
//! fetched body is post-processed, which filenames a deliverable carries, and
//! how the winner is picked from completions in arrival order. The
//! surrounding binary launches the attempts concurrently and feeds each
//! completion through these functions; every attempt's failure only means
//! that the attempt contributes nothing.

use vstd::prelude::*;
use vstd::string::StrSliceExecFns;
use vstd::string::StringExecFns;

use crate::book::BookWithRemote;
use crate::config::SourceConfig;
use crate::filename::get_filename_by_book;
use crate::filename::spec_filename;
use crate::text::eq_str;
use crate::text::lower_of;
use crate::text::to_lower;

verus! {

/// One planned fetch: the mirror to ask, and whether this attempt requests
/// the book's native format in order to convert it afterwards (the hedge
/// against mirrors that cannot serve the target format directly).
pub struct Attempt {
    pub source: SourceConfig,
    pub converting: bool,
}

/// The two formats the conversion service accepts as output.
pub open spec fn spec_is_convert_output(file_type: Seq<char>) -> bool {
    file_type == "epub"@ || file_type == "fb2"@
}

/// Builds the attempt set for one request: for every configured source one
/// native attempt, and — when the requested format is one the conversion
/// service can produce — a second, converting attempt for that source.
pub fn plan_attempts(sources: &Vec<SourceConfig>, file_type: &str) -> (r: Vec<Attempt>)
    ensures
        spec_is_convert_output(file_type@) ==> {
            &&& r@.len() == 2 * sources@.len()
            &&& forall|i: int|
                0 <= i < sources@.len() ==> (#[trigger] r@[2 * i]).source == sources@[i] && r@[2
                    * i].converting == false && r@[2 * i + 1].source == sources@[i] && r@[2 * i
                    + 1].converting == true
        },
        !spec_is_convert_output(file_type@) ==> {
            &&& r@.len() == sources@.len()
            &&& forall|i: int|
                0 <= i < sources@.len() ==> (#[trigger] r@[i]).source == sources@[i]
                    && r@[i].converting == false
        },
{
    let hedge = eq_str(file_type, "epub") || eq_str(file_type, "fb2");
    let mut r: Vec<Attempt> = Vec::new();
    let mut i: usize = 0;
    while i < sources.len()
        invariant
            i <= sources@.len(),
            hedge == spec_is_convert_output(file_type@),
            hedge ==> r@.len() == 2 * i,
            !hedge ==> r@.len() == i,
            hedge ==> forall|j: int|
                0 <= j < i ==> (#[trigger] r@[2 * j]).source == sources@[j] && r@[2
                    * j].converting == false && r@[2 * j + 1].source == sources@[j] && r@[2 * j
                    + 1].converting == true,
            !hedge ==> forall|j: int|
                0 <= j < i ==> (#[trigger] r@[j]).source == sources@[j] && r@[j].converting
                    == false,
        decreases sources@.len() - i,
    {
        r.push(Attempt { source: sources[i].clone(), converting: false });
        if hedge {
            r.push(Attempt { source: sources[i].clone(), converting: true });
        }
        i += 1;
    }
    r
}

/// The format an attempt asks the mirror for: the book's native format when
/// the attempt will convert afterwards, and the requested format otherwise.
pub open spec fn spec_requested_type(native: Seq<char>, requested: Seq<char>, converting: bool) -> Seq<char> {
    if converting {
        native
    } else {
        requested
    }
}

/// Picks the format one attempt requests from its mirror.
pub fn requested_file_type<'a>(book_file_type: &'a str, file_type: &'a str, converting: bool) -> (r: &'a str)
    ensures
        r@ == spec_requested_type(book_file_type@, file_type@, converting),
{
    if converting {
        book_file_type
    } else {
        file_type
    }
}

/// Whether the requested output format is the zip-wrapped variant.
pub fn wants_zip_wrapped(file_type: &str) -> (r: bool)
    ensures
        r == (file_type@ == "fb2zip"@),
{
    eq_str(file_type, "fb2zip")
}

/// Whether the book's native format is HTML (case-insensitively).
pub fn is_native_html(book: &BookWithRemote) -> (r: bool)
    ensures
        r == (lower_of(book.file_type@) == "html"@),
{
    let lower = to_lower(book.file_type.as_str());
    eq_str(lower.as_str(), "html")
}

/// What to do with one attempt's fetched body.
#[derive(PartialEq, Eq, Structural, Clone, Copy, Debug)]
pub enum PostFetch {
    /// Deliver the zip container itself: some mirrors always zip HTML books.
    DeliverContainer,
    /// Deliver the fetched body unchanged (pure passthrough).
    DeliverBody,
    /// Rebuild the deliverable: extract the matching member when the body is
    /// a container (a plain body already is the file); convert the file when
    /// the attempt requested conversion; re-wrap it when the requested
    /// output is zip-wrapped.
    Unwrap { extract: bool, convert: bool, rezip: bool },
}

/// The per-attempt post-processing decision: a zip container for a book
/// whose native format is HTML is delivered whole; a non-container body is
/// delivered unchanged when neither the zip-wrapped output nor conversion
/// was requested; everything else is rebuilt — a container is unwrapped, a
/// plain body taken as the file — then converted or re-wrapped as the
/// attempt demands.
pub open spec fn spec_post_fetch(
    is_zip: bool,
    native_is_html: bool,
    requested_zip_wrapped: bool,
    converting: bool,
) -> PostFetch {
    if is_zip && native_is_html {
        PostFetch::DeliverContainer
    } else if !is_zip && !requested_zip_wrapped && !converting {
        PostFetch::DeliverBody
    } else {
        PostFetch::Unwrap {
            extract: is_zip,
            convert: converting,
            rezip: requested_zip_wrapped,
        }
    }
}

/// Decides how one attempt's fetched body is post-processed.
pub fn post_fetch_action(
    is_zip: bool,
    native_is_html: bool,
    requested_zip_wrapped: bool,
    converting: bool,
) -> (r: PostFetch)
    ensures
        r == spec_post_fetch(is_zip, native_is_html, requested_zip_wrapped, converting),
{
    if is_zip && native_is_html {
        PostFetch::DeliverContainer
    } else if !is_zip && !requested_zip_wrapped && !converting {
        PostFetch::DeliverBody
    } else {
        PostFetch::Unwrap {
            extract: is_zip,
            convert: converting,
            rezip: requested_zip_wrapped,
        }
    }
}

/// Law: a zip-wrapped output request is never satisfied by passthrough.
/// Unless a zipped HTML book is delivered as the container itself, the
/// deliverable is rebuilt and re-wrapped into a fresh container — a
/// container body is unwrapped first, a plain body is wrapped as it is —
/// converting in between exactly when the attempt asked for it.
pub proof fn lemma_zip_wrapped_is_rebuilt(is_zip: bool, native_is_html: bool, converting: bool)
    ensures
        spec_post_fetch(is_zip, native_is_html, true, converting) == if is_zip && native_is_html {
            PostFetch::DeliverContainer
        } else {
            PostFetch::Unwrap { extract: is_zip, convert: converting, rezip: true }
        },
{
}

/// The display filename a deliverable carries, by post-processing branch:
/// re-wrapped deliverables and whole containers carry the zip-marked name,
/// everything else the requested format's plain name.
pub open spec fn spec_result_display(
    book: BookWithRemote,
    file_type: Seq<char>,
    action: PostFetch,
) -> Seq<char> {
    match action {
        PostFetch::DeliverContainer => spec_filename(book, file_type, true, false),
        PostFetch::DeliverBody => spec_filename(book, file_type, false, false),
        PostFetch::Unwrap { extract, convert, rezip } => spec_filename(
            book,
            file_type,
            rezip,
            false,
        ),
    }
}

/// The transport-safe filename a deliverable carries: the same name derived
/// from the same inputs, reduced to ASCII.
pub open spec fn spec_result_ascii(
    book: BookWithRemote,
    file_type: Seq<char>,
    action: PostFetch,
) -> Seq<char> {
    match action {
        PostFetch::DeliverContainer => spec_filename(book, file_type, true, true),
        PostFetch::DeliverBody => spec_filename(book, file_type, false, true),
        PostFetch::Unwrap { extract, convert, rezip } => spec_filename(
            book,
            file_type,
            rezip,
            true,
        ),
    }
}

/// The display and transport-safe filenames of one deliverable, both
/// derived from the requested format.
pub fn result_names(book: &BookWithRemote, file_type: &str, action: PostFetch) -> (r: (
    String,
    String,
))
    ensures
        r.0@ == spec_result_display(*book, file_type@, action),
        r.1@ == spec_result_ascii(*book, file_type@, action),
{
    match action {
        PostFetch::DeliverContainer => (
            get_filename_by_book(book, file_type, true, false),
            get_filename_by_book(book, file_type, true, true),
        ),
        PostFetch::DeliverBody => (
            get_filename_by_book(book, file_type, false, false),
            get_filename_by_book(book, file_type, false, true),
        ),
        PostFetch::Unwrap { extract, convert, rezip } => (
            get_filename_by_book(book, file_type, rezip, false),
            get_filename_by_book(book, file_type, rezip, true),
        ),
    }
}

/// The format token whose filename names the entry of a re-wrapped
/// container: the native token of the zip-wrapped format, or the requested
/// format itself.
pub open spec fn spec_wrap_entry_type(file_type: Seq<char>) -> Seq<char> {
    if file_type == "fb2zip"@ {
        "fb2"@
    } else {
        file_type
    }
}

/// Picks the format token naming the entry of a re-wrapped container.
pub fn wrap_entry_type<'a>(file_type: &'a str) -> (r: &'a str)
    ensures
        r@ == spec_wrap_entry_type(file_type@),
{
    if eq_str(file_type, "fb2zip") {
        "fb2"
    } else {
        file_type
    }
}

/// What the orchestrator does on observing one attempt completion.
pub enum RaceStep<T> {
    /// The completion is a usable result: commit to it and abandon the rest.
    Commit(T),
    /// The attempt contributed nothing: keep consuming completions.
    Continue,
}

/// Decides one step of the completion-order race: the first usable result
/// wins immediately; a failed attempt never stops the race.
pub fn race_decision<T>(completion: Option<T>) -> (r: RaceStep<T>)
    ensures
        match completion {
            Some(v) => r == RaceStep::Commit(v),
            None => r == RaceStep::<T>::Continue,
        },
{
    match completion {
        Some(v) => RaceStep::Commit(v),
        None => RaceStep::Continue,
    }
}

/// The first usable result among attempt completions in arrival order.
pub open spec fn spec_first_success<T>(results: Seq<Option<T>>) -> Option<T>
    decreases results.len(),
{
    if results.len() == 0 {
        None
    } else {
        match results[0] {
            Some(v) => Some(v),
            None => spec_first_success(results.drop_first()),
        }
    }
}

/// Returns the first usable result among completions in arrival order, or
/// nothing when every attempt failed.
pub fn first_success<T>(results: Vec<Option<T>>) -> (r: Option<T>)
    ensures
        r == spec_first_success(results@),
{
    let ghost all = results@;
    let mut rest = results;
    let mut acc: Option<T> = None;
    while rest.len() > 0
        invariant
            rest@.len() <= all.len(),
            rest@ == all.take(rest@.len() as int),
            acc == spec_first_success(all.subrange(rest@.len() as int, all.len() as int)),
        decreases rest@.len(),
    {
        let ghost k: int = rest@.len() - 1;
        let e = match rest.pop() {
            Some(e) => e,
            None => {
                return None;
            },
        };
        proof {
            assert(rest@ =~= all.take(k));
            assert(e == all[k]);
            assert(all.subrange(k, all.len() as int).drop_first() =~= all.subrange(
                k + 1,
                all.len() as int,
            ));
            assert(all.subrange(k, all.len() as int)[0] == all[k]);
        }
        acc = match e {
            Some(v) => Some(v),
            None => acc,
        };
    }
    proof {
        assert(all.subrange(0, all.len() as int) =~= all);
    }
    acc
}

/// Law: when every attempt fails, the race yields nothing — the request's
/// outcome is "not found", never an error.
pub proof fn lemma_all_failed_not_found<T>(results: Seq<Option<T>>)
    requires
        forall|i: int| 0 <= i < results.len() ==> (#[trigger] results[i]) is None,
    ensures
        spec_first_success(results) is None,
    decreases results.len(),
{
    if results.len() > 0 {
        assert(results[0] is None);
        assert forall|i: int|
            0 <= i < results.drop_first().len() implies (#[trigger] results.drop_first()[i]) is None by {
            assert(results.drop_first()[i] == results[i + 1]);
        }
        lemma_all_failed_not_found(results.drop_first());
    }
}

/// Law: when exactly one attempt yields a usable result, the race commits to
/// that result, whatever position it completed at.
pub proof fn lemma_single_winner<T>(results: Seq<Option<T>>, w: int)
    requires
        0 <= w < results.len(),
        results[w] is Some,
        forall|i: int| 0 <= i < results.len() && i != w ==> (#[trigger] results[i]) is None,
    ensures
        spec_first_success(results) == results[w],
    decreases results.len(),
{
    if w == 0 {
    } else {
        assert(results[0] is None);
        assert forall|i: int|
            0 <= i < results.drop_first().len() && i != w - 1 implies (
        #[trigger] results.drop_first()[i]) is None by {
            assert(results.drop_first()[i] == results[i + 1]);
        }
        assert(results.drop_first()[w - 1] == results[w]);
        lemma_single_winner(results.drop_first(), w - 1);
    }
}

} // verus!
