use book_gateway::book::BookAuthor;
use book_gateway::book::BookWithRemote;
use book_gateway::filename::get_author_short_name;
use book_gateway::filename::get_filename_by_book;

fn author(last: &str, first: &str, middle: &str) -> BookAuthor {
    BookAuthor {
        id: 1,
        first_name: first.to_string(),
        last_name: last.to_string(),
        middle_name: middle.to_string(),
    }
}

fn book(title: &str, remote_id: u32, file_type: &str, authors: Vec<BookAuthor>) -> BookWithRemote {
    BookWithRemote {
        id: 100,
        remote_id,
        title: title.to_string(),
        lang: "ru".to_string(),
        file_type: file_type.to_string(),
        uploaded: "2020-01-01".to_string(),
        authors,
    }
}

#[test]
fn short_name_without_middle() {
    let r = get_author_short_name(author("Ivanov", "Pyotr", ""));
    assert_eq!(r, "Ivanov P");
}

#[test]
fn short_name_full() {
    let r = get_author_short_name(author("Ivanov", "Pyotr", "Sergeevich"));
    assert_eq!(r, "Ivanov PS");
}

#[test]
fn short_name_initials_only() {
    let r = get_author_short_name(author("", "Pyotr", "Sergeevich"));
    assert_eq!(r, "PS");
}

#[test]
fn short_name_only_first() {
    let r = get_author_short_name(author("", "Pyotr", ""));
    assert_eq!(r, "P");
}

#[test]
fn short_name_empty() {
    let r = get_author_short_name(author("", "", ""));
    assert_eq!(r, "");
}

#[test]
fn filename_basic() {
    let b = book("Test", 42, "fb2", vec![author("Ivanov", "Pyotr", "")]);
    let r = get_filename_by_book(&b, "fb2", false, false);
    assert_eq!(r, "Ivanov_P_Tes.42.fb2");
}

#[test]
fn filename_cyrillic_transliterated() {
    let b = book(
        "\u{422}\u{435}\u{441}\u{442}",
        7,
        "fb2",
        vec![author("\u{418}\u{432}\u{430}\u{43d}\u{43e}\u{432}", "\u{41f}\u{451}\u{442}\u{440}", "")],
    );
    let r = get_filename_by_book(&b, "fb2", false, false);
    assert_eq!(r, "Ivanov_P_Tes.7.fb2");
}

#[test]
fn filename_zip_wrapped_token() {
    let b = book("T", 5, "fb2", vec![]);
    let r = get_filename_by_book(&b, "fb2zip", false, false);
    assert_eq!(r, ".5.fb2.zip");
}

#[test]
fn filename_force_zip_token() {
    let b = book("Title", 9, "epub", vec![]);
    let r = get_filename_by_book(&b, "epub", true, false);
    assert!(r.ends_with(".9.epub.zip"));
}

#[test]
fn filename_ascii_only_drops_non_ascii() {
    let b = book("T\u{e9}st", 1, "txt", vec![]);
    let display = get_filename_by_book(&b, "txt", false, false);
    let ascii = get_filename_by_book(&b, "txt", false, true);
    assert_eq!(display, "T\u{e9}s.1.txt");
    assert_eq!(ascii, "Ts.1.txt");
}

#[test]
fn filename_strip_and_substitute() {
    let b = book("A (B), C\u{2026}: D/E", 9, "txt", vec![]);
    let r = get_filename_by_book(&b, "txt", false, false);
    assert_eq!(r, "A_B_C_D_.9.txt");
}

#[test]
fn filename_title_trimmed() {
    let b = book("  Test  ", 3, "fb2", vec![]);
    let r = get_filename_by_book(&b, "fb2", false, false);
    assert_eq!(r, "Tes.3.fb2");
}

#[test]
fn filename_authors_joined() {
    let b = book(
        "Test",
        8,
        "fb2",
        vec![author("Ivanov", "Pyotr", ""), author("Petrov", "Ivan", "")],
    );
    let r = get_filename_by_book(&b, "fb2", false, false);
    assert_eq!(r, "Ivanov_P_-_Petrov_I_Tes.8.fb2");
}

#[test]
fn filename_length_bounded_native() {
    let b = book(&"a".repeat(100), 42, "fb2", vec![]);
    let r = get_filename_by_book(&b, "fb2", false, false);
    assert!(r.chars().count() <= 64);
    assert!(r.ends_with(".42.fb2"));
}

#[test]
fn filename_length_bounded_zip_wrapped() {
    let b = book(&"a".repeat(100), 42, "fb2", vec![author("Ivanov", "Pyotr", "")]);
    let r = get_filename_by_book(&b, "fb2zip", false, false);
    assert!(r.chars().count() <= 64);
    assert!(r.ends_with(".42.fb2.zip"));
    let ascii = get_filename_by_book(&b, "fb2zip", false, true);
    assert!(ascii.chars().count() <= 64);
    assert!(ascii.ends_with(".42.fb2.zip"));
}
