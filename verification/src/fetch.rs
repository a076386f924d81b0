//! Source-fetcher rules for one mirror attempt: the shape of the mirror URL,
//! the classification of a successful response by its declared content type
//! (the defense against disguised HTML error pages), and the reading of a
//! declared content length. The HTTP transfer itself is driven by the
//! surrounding binary, which feeds its observations through these functions.

use vstd::prelude::*;
use vstd::string::StrSliceExecFns;
use vstd::string::StringExecFns;

use crate::text::all_ascii;
use crate::text::append_dec;
use crate::text::ascii_lower;
use crate::text::contains_seq;
use crate::text::contains_str;
use crate::text::eq_str;
use crate::text::lower_of;
use crate::text::matches_at;
use crate::text::spec_dec;
use crate::text::to_lower;

verus! {

/// Whether a requested format is served from the book-reader path
/// `/b/{id}/{format}`; every other format uses the generic download path.
pub open spec fn spec_is_reader_format(file_type: Seq<char>) -> bool {
    file_type == "fb2"@ || file_type == "epub"@ || file_type == "mobi"@
}

/// The URL requested from a mirror for one attempt.
pub open spec fn spec_mirror_url(base: Seq<char>, book_id: nat, file_type: Seq<char>) -> Seq<
    char,
> {
    base + "/b/"@ + spec_dec(book_id) + "/"@ + (if spec_is_reader_format(file_type) {
        file_type
    } else {
        "download"@
    })
}

/// Builds the URL requested from the mirror at `base` for book `book_id` in
/// the requested `file_type`.
pub fn mirror_url(base: &str, book_id: u32, file_type: &str) -> (r: String)
    ensures
        r@ == spec_mirror_url(base@, book_id as nat, file_type@),
{
    let mut url = String::from_str(base);
    url.append("/b/");
    append_dec(&mut url, book_id);
    url.append("/");
    if eq_str(file_type, "fb2") || eq_str(file_type, "epub") || eq_str(file_type, "mobi") {
        url.append(file_type);
    } else {
        url.append("download");
    }
    url
}

/// How a 2xx mirror response is classified, from the requested format and
/// the declared content type: a requested HTML page served as HTML is a
/// success and no archive (`Some(false)`); HTML served for any other format
/// is a disguised error page (`None`); anything else is a success whose
/// archive flag says whether the content type declares a zip container.
pub open spec fn spec_classify(file_type: Seq<char>, content_type: Seq<char>) -> Option<bool> {
    let is_html = contains_seq(content_type, "text/html"@);
    if lower_of(file_type) == "html"@ && is_html {
        Some(false)
    } else if is_html {
        None
    } else {
        Some(contains_seq(content_type, "application/zip"@))
    }
}

/// `spec_classify` with the format's lowercasing written out, usable for
/// formats made of ASCII characters alone.
pub open spec fn spec_classify_ascii(file_type: Seq<char>, content_type: Seq<char>) -> Option<
    bool,
> {
    let is_html = contains_seq(content_type, "text/html"@);
    if ascii_lower(file_type) == "html"@ && is_html {
        Some(false)
    } else if is_html {
        None
    } else {
        Some(contains_seq(content_type, "application/zip"@))
    }
}

/// Classifies a mirror response that carried a success status, given the
/// requested format and the declared content type. Returns `None` for a
/// disguised HTML error page, and otherwise `Some(is_zip)`.
pub fn classify_response(file_type: &str, content_type: &str) -> (r: Option<bool>)
    ensures
        r == spec_classify(file_type@, content_type@),
        all_ascii(file_type@) ==> r == spec_classify_ascii(file_type@, content_type@),
{
    let is_html = contains_str(content_type, "text/html");
    let ft_lower = to_lower(file_type);
    if eq_str(ft_lower.as_str(), "html") && is_html {
        Some(false)
    } else if is_html {
        None
    } else {
        Some(contains_str(content_type, "application/zip"))
    }
}

/// Law: a success response whose declared content type is HTML, for a
/// request whose format is not the HTML case, is a disguised error page and
/// is classified as a failure, never as a success.
pub proof fn lemma_disguised_html_is_failure(file_type: Seq<char>, content_type: Seq<char>)
    requires
        lower_of(file_type) != "html"@,
        contains_seq(content_type, "text/html"@),
    ensures
        spec_classify(file_type, content_type) is None,
{
}

/// Law: a mirror answering a native fb2 request with an HTML content type is
/// classified as a disguised error page, not as a success.
pub proof fn lemma_fb2_html_disguised()
    ensures
        spec_classify_ascii("fb2"@, "text/html"@) is None,
{
    reveal_strlit("fb2");
    reveal_strlit("html");
    reveal_strlit("text/html");
    assert(ascii_lower("fb2"@).len() == 3);
    assert(contains_seq("text/html"@, "text/html"@)) by {
        assert(matches_at("text/html"@, "text/html"@, 0)) by {
            assert("text/html"@.subrange(0, 9) =~= "text/html"@);
        }
    }
}

/// A decimal digit character.
pub open spec fn is_digit(c: char) -> bool {
    48 <= c as u32 && c as u32 <= 57
}

/// Every character of `s` is a decimal digit.
pub open spec fn all_digits(s: Seq<char>) -> bool {
    forall|i: int| 0 <= i < s.len() ==> is_digit(#[trigger] s[i])
}

/// The number denoted by `s` read as decimal digits, most significant first.
pub open spec fn dec_value(s: Seq<char>) -> int
    decreases s.len(),
{
    if s.len() == 0 {
        0
    } else {
        dec_value(s.drop_last()) * 10 + (s.last() as u32 - 48)
    }
}

proof fn lemma_dec_value_nonneg(s: Seq<char>)
    requires
        all_digits(s),
    ensures
        dec_value(s) >= 0,
    decreases s.len(),
{
    if s.len() > 0 {
        assert(all_digits(s.drop_last()));
        lemma_dec_value_nonneg(s.drop_last());
    }
}

proof fn lemma_dec_value_prefix(s: Seq<char>, j: int)
    requires
        all_digits(s),
        0 <= j <= s.len(),
    ensures
        dec_value(s.take(j)) <= dec_value(s),
    decreases s.len() - j,
{
    if j == s.len() {
        assert(s.take(j) =~= s);
    } else {
        assert(s.take(j + 1).drop_last() =~= s.take(j));
        assert(s.take(j + 1).last() == s[j]);
        assert(all_digits(s.take(j)));
        lemma_dec_value_nonneg(s.take(j));
        assert(dec_value(s.take(j)) <= dec_value(s.take(j + 1)));
        lemma_dec_value_prefix(s, j + 1);
    }
}

/// Reads a declared content length: the number denoted by `s` when `s` is a
/// nonempty string of decimal digits whose value fits, and nothing otherwise.
pub fn parse_size(s: &str) -> (r: Option<u64>)
    ensures
        r is Some <==> (s@.len() > 0 && all_digits(s@) && dec_value(s@) <= u64::MAX),
        r is Some ==> r.unwrap() as int == dec_value(s@),
{
    let n = s.unicode_len();
    if n == 0 {
        return None;
    }
    let mut acc: u64 = 0;
    let mut i: usize = 0;
    while i < n
        invariant
            n == s@.len(),
            0 < n,
            i <= n,
            all_digits(s@.take(i as int)),
            acc as int == dec_value(s@.take(i as int)),
        decreases n - i,
    {
        let c = s.get_char(i);
        let cv = c as u32;
        if cv < 48 || cv > 57 {
            proof {
                assert(!is_digit(s@[i as int]));
            }
            return None;
        }
        let d = (cv - 48) as u64;
        let next = match acc.checked_mul(10) {
            Some(m) => m.checked_add(d),
            None => None,
        };
        proof {
            assert(s@.take(i + 1).drop_last() =~= s@.take(i as int));
            assert(s@.take(i + 1).last() == s@[i as int]);
            assert(dec_value(s@.take(i + 1)) == acc as int * 10 + d);
        }
        match next {
            Some(v) => {
                acc = v;
            },
            None => {
                proof {
                    if all_digits(s@) {
                        lemma_dec_value_prefix(s@, i + 1);
                    }
                }
                return None;
            },
        }
        i += 1;
    }
    proof {
        assert(s@.take(n as int) =~= s@);
    }
    Some(acc)
}

} // verus!
