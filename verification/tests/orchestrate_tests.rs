use book_gateway::archive::buffer_contents;
use book_gateway::archive::buffer_from_bytes;
use book_gateway::archive::unzip;
use book_gateway::archive::zip;
use book_gateway::book::Book;
use book_gateway::book::BookWithRemote;
use book_gateway::config::SourceConfig;
use book_gateway::filename::get_filename_by_book;
use book_gateway::orchestrate::first_success;
use book_gateway::orchestrate::is_native_html;
use book_gateway::orchestrate::plan_attempts;
use book_gateway::orchestrate::post_fetch_action;
use book_gateway::orchestrate::race_decision;
use book_gateway::orchestrate::requested_file_type;
use book_gateway::orchestrate::result_names;
use book_gateway::orchestrate::wants_zip_wrapped;
use book_gateway::orchestrate::wrap_entry_type;
use book_gateway::orchestrate::PostFetch;
use book_gateway::orchestrate::RaceStep;

fn sources() -> Vec<SourceConfig> {
    vec![
        SourceConfig { url: "http://one".to_string(), proxy: None },
        SourceConfig { url: "http://two".to_string(), proxy: Some("http://p".to_string()) },
    ]
}

fn book(file_type: &str) -> BookWithRemote {
    BookWithRemote {
        id: 1,
        remote_id: 11,
        title: "Test".to_string(),
        lang: "ru".to_string(),
        file_type: file_type.to_string(),
        uploaded: "2020-01-01".to_string(),
        authors: vec![],
    }
}

#[test]
fn plan_attempts_one_per_source() {
    let attempts = plan_attempts(&sources(), "pdf");
    assert_eq!(attempts.len(), 2);
    assert_eq!(attempts[0].source.url, "http://one");
    assert!(!attempts[0].converting);
    assert_eq!(attempts[1].source.url, "http://two");
    assert!(!attempts[1].converting);
}

#[test]
fn plan_attempts_hedges_convertible_formats() {
    let attempts = plan_attempts(&sources(), "fb2");
    assert_eq!(attempts.len(), 4);
    assert_eq!(attempts[0].source.url, "http://one");
    assert!(!attempts[0].converting);
    assert_eq!(attempts[1].source.url, "http://one");
    assert!(attempts[1].converting);
    assert_eq!(attempts[2].source.url, "http://two");
    assert!(!attempts[2].converting);
    assert_eq!(attempts[3].source.url, "http://two");
    assert!(attempts[3].converting);
    assert_eq!(plan_attempts(&sources(), "epub").len(), 4);
}

#[test]
fn single_winner_is_returned() {
    let results: Vec<Option<u32>> = vec![None, Some(7), None, None];
    assert_eq!(first_success(results), Some(7));
}

#[test]
fn all_failed_is_not_found() {
    let results: Vec<Option<u32>> = vec![None, None, None];
    assert_eq!(first_success(results), None);
}

#[test]
fn earliest_completion_wins() {
    let results: Vec<Option<u32>> = vec![None, Some(1), Some(2)];
    assert_eq!(first_success(results), Some(1));
}

#[test]
fn race_commits_on_first_success() {
    assert!(matches!(race_decision(Some(5u32)), RaceStep::Commit(5)));
    assert!(matches!(race_decision::<u32>(None), RaceStep::Continue));
}

#[test]
fn post_fetch_decision_tree() {
    assert_eq!(post_fetch_action(true, true, false, false), PostFetch::DeliverContainer);
    assert_eq!(post_fetch_action(false, false, false, false), PostFetch::DeliverBody);
    assert_eq!(
        post_fetch_action(false, false, true, false),
        PostFetch::Unwrap { extract: false, convert: false, rezip: true }
    );
    assert_eq!(
        post_fetch_action(true, false, false, true),
        PostFetch::Unwrap { extract: true, convert: true, rezip: false }
    );
    assert_eq!(
        post_fetch_action(true, false, true, false),
        PostFetch::Unwrap { extract: true, convert: false, rezip: true }
    );
    assert_eq!(
        post_fetch_action(false, false, false, true),
        PostFetch::Unwrap { extract: false, convert: true, rezip: false }
    );
}

#[test]
fn requested_type_hedges_to_native() {
    assert_eq!(requested_file_type("fb2", "epub", true), "fb2");
    assert_eq!(requested_file_type("fb2", "epub", false), "epub");
}

#[test]
fn zip_wrapped_format_detected() {
    assert!(wants_zip_wrapped("fb2zip"));
    assert!(!wants_zip_wrapped("fb2"));
}

#[test]
fn native_html_detected_case_insensitively() {
    assert!(is_native_html(&book("HTML")));
    assert!(is_native_html(&book("html")));
    assert!(!is_native_html(&book("fb2")));
}

#[test]
fn wrap_entry_type_uses_native_token() {
    assert_eq!(wrap_entry_type("fb2zip"), "fb2");
    assert_eq!(wrap_entry_type("epub"), "epub");
}

#[test]
fn result_names_passthrough_same_inputs() {
    let b = book("fb2");
    let (display, ascii) = result_names(&b, "epub", PostFetch::DeliverBody);
    assert!(display.ends_with(".11.epub"));
    assert!(ascii.ends_with(".11.epub"));
}

#[test]
fn result_names_rezip_marks_zip() {
    let b = book("fb2");
    let (display, ascii) = result_names(
        &b,
        "fb2zip",
        PostFetch::Unwrap { extract: true, convert: false, rezip: true },
    );
    assert!(display.ends_with(".11.fb2.zip"));
    assert!(ascii.ends_with(".11.fb2.zip"));
}

#[test]
fn from_book_carries_fields() {
    let b = Book {
        id: 4,
        title: "T".to_string(),
        lang: "en".to_string(),
        file_type: "fb2".to_string(),
        uploaded: "u".to_string(),
        authors: vec![],
    };
    let r = BookWithRemote::from_book(b, 99);
    assert_eq!(r.id, 4);
    assert_eq!(r.remote_id, 99);
    assert_eq!(r.title, "T");
    assert_eq!(r.lang, "en");
    assert_eq!(r.file_type, "fb2");
    assert_eq!(r.uploaded, "u");
    assert!(r.authors.is_empty());
}

#[test]
fn zip_wrapped_request_rebuilds_container() {
    let fb2_bytes: Vec<u8> = b"<fb2>mirror copy</fb2>".to_vec();
    let mut raw = buffer_from_bytes(&fb2_bytes).unwrap();
    let (mirror_container, _) = zip(&mut raw, "book.fb2").unwrap();

    let b = book("fb2");
    let action = post_fetch_action(true, is_native_html(&b), wants_zip_wrapped("fb2zip"), false);
    assert_eq!(action, PostFetch::Unwrap { extract: true, convert: false, rezip: true });

    let (mut extracted, extracted_size) = unzip(mirror_container, &b.file_type).unwrap();
    assert_eq!(extracted_size, fb2_bytes.len());

    let entry_name = get_filename_by_book(&b, wrap_entry_type("fb2zip"), false, false);
    let (deliverable, size) = zip(&mut extracted, &entry_name).unwrap();

    let (mut again, again_size) = unzip(deliverable, "fb2").unwrap();
    assert_eq!(buffer_contents(&mut again).unwrap(), fb2_bytes);
    assert_eq!(again_size, fb2_bytes.len());

    let mut raw2 = buffer_from_bytes(&fb2_bytes).unwrap();
    let (mut deliverable2, size2) = zip(&mut raw2, &entry_name).unwrap();
    assert_eq!(size2, buffer_contents(&mut deliverable2).unwrap().len());
    assert!(size > 0);
}

#[test]
fn zip_wrapped_request_wraps_plain_body() {
    let fb2_bytes: Vec<u8> = b"<fb2>served directly, not pre-zipped</fb2>".to_vec();

    let b = book("fb2");
    let action = post_fetch_action(false, is_native_html(&b), wants_zip_wrapped("fb2zip"), false);
    assert_eq!(action, PostFetch::Unwrap { extract: false, convert: false, rezip: true });

    let mut body = buffer_from_bytes(&fb2_bytes).unwrap();
    let entry_name = get_filename_by_book(&b, wrap_entry_type("fb2zip"), false, false);
    let (mut deliverable, size) = zip(&mut body, &entry_name).unwrap();

    let container_bytes = buffer_contents(&mut deliverable).unwrap();
    assert_eq!(container_bytes.len(), size);

    let (mut entry, entry_size) = unzip(deliverable, "fb2").unwrap();
    assert_eq!(buffer_contents(&mut entry).unwrap(), fb2_bytes);
    assert_eq!(entry_size, fb2_bytes.len());
}
