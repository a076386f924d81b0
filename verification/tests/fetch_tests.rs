use book_gateway::fetch::classify_response;
use book_gateway::fetch::mirror_url;
use book_gateway::fetch::parse_size;

#[test]
fn mirror_url_reader_formats() {
    assert_eq!(mirror_url("http://m", 10, "fb2"), "http://m/b/10/fb2");
    assert_eq!(mirror_url("http://m", 10, "epub"), "http://m/b/10/epub");
    assert_eq!(mirror_url("http://m", 10, "mobi"), "http://m/b/10/mobi");
}

#[test]
fn mirror_url_generic_download() {
    assert_eq!(mirror_url("http://m", 10, "pdf"), "http://m/b/10/download");
    assert_eq!(mirror_url("http://m", 7, "fb2zip"), "http://m/b/7/download");
}

#[test]
fn classify_disguised_html_is_failure() {
    let r = classify_response("fb2", "text/html; charset=utf-8");
    assert_eq!(r, None);
}

#[test]
fn classify_html_request_served_html() {
    assert_eq!(classify_response("html", "text/html"), Some(false));
    assert_eq!(classify_response("HTML", "text/html"), Some(false));
}

#[test]
fn classify_zip_container() {
    assert_eq!(classify_response("fb2", "application/zip"), Some(true));
}

#[test]
fn classify_plain_file() {
    assert_eq!(classify_response("fb2", "application/octet-stream"), Some(false));
}

#[test]
fn parse_size_reads_decimal() {
    assert_eq!(parse_size("12345"), Some(12345));
    assert_eq!(parse_size("0"), Some(0));
    assert_eq!(parse_size("18446744073709551615"), Some(u64::MAX));
}

#[test]
fn parse_size_rejects_bad_input() {
    assert_eq!(parse_size(""), None);
    assert_eq!(parse_size("12a"), None);
    assert_eq!(parse_size("-5"), None);
    assert_eq!(parse_size("18446744073709551616"), None);
    assert_eq!(parse_size("99999999999999999999999999"), None);
}
