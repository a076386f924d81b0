//! Filename normalizer: derives a display filename and an ASCII-safe
//! filename from catalog metadata. The pipeline: join author short names and
//! the trimmed title, transliterate Cyrillic to Latin, strip a fixed
//! punctuation set, apply character substitutions, optionally drop non-ASCII
//! characters, and append a `.{remoteId}.{effectiveType}` suffix while
//! keeping the whole name within 64 characters.

use vstd::prelude::*;
use vstd::string::StrSliceExecFns;
use vstd::string::StringExecFns;

use crate::book::BookAuthor;
use crate::book::BookWithRemote;
use crate::text::append_dec;
use crate::text::eq_str;
use crate::text::spec_dec;
use crate::text::trim_of;
use crate::text::trim_str;

verus! {

/// `parts` joined with `sep` between consecutive elements.
pub open spec fn join_with(parts: Seq<Seq<char>>, sep: Seq<char>) -> Seq<char>
    decreases parts.len(),
{
    if parts.len() == 0 {
        seq![]
    } else if parts.len() == 1 {
        parts[0]
    } else {
        parts[0] + sep + join_with(parts.drop_first(), sep)
    }
}

/// Joining one more part appends a separator and that part.
pub proof fn lemma_join_push(parts: Seq<Seq<char>>, sep: Seq<char>, x: Seq<char>)
    ensures
        join_with(parts.push(x), sep) == if parts.len() == 0 {
            x
        } else {
            join_with(parts, sep) + sep + x
        },
    decreases parts.len(),
{
    if parts.len() == 0 {
        assert(parts.push(x)[0] == x);
    } else if parts.len() == 1 {
        assert(parts.push(x).drop_first() =~= seq![x]);
        assert(join_with(seq![x], sep) == x);
    } else {
        assert(parts.push(x).drop_first() =~= parts.drop_first().push(x));
        lemma_join_push(parts.drop_first(), sep, x);
        assert(parts.push(x)[0] == parts[0]);
        assert((parts[0] + sep + (join_with(parts.drop_first(), sep) + sep + x)) =~= ((parts[0]
            + sep + join_with(parts.drop_first(), sep)) + sep + x));
    }
}

/// Joins the strings in `parts`, writing `sep` between consecutive entries.
pub fn join_strings(parts: &Vec<String>, sep: &str) -> (r: String)
    ensures
        r@ == join_with(parts.deep_view(), sep@),
{
    let mut out = String::new();
    let mut i: usize = 0;
    while i < parts.len()
        invariant
            i <= parts@.len(),
            out@ == join_with(parts.deep_view().take(i as int), sep@),
        decreases parts@.len() - i,
    {
        if i > 0 {
            out.append(sep);
        }
        out.append(parts[i].as_str());
        proof {
            let dv = parts.deep_view();
            assert(dv.take(i as int).push(dv[i as int]) =~= dv.take(i + 1));
            lemma_join_push(dv.take(i as int), sep@, dv[i as int]);
            assert(dv[i as int] == parts@[i as int]@);
        }
        i += 1;
    }
    proof {
        assert(parts.deep_view().take(parts@.len() as int) =~= parts.deep_view());
    }
    out
}

/// The initials block of a short name: the first character of the first
/// name directly followed by the first character of the middle name, with an
/// empty name part contributing no initial.
pub open spec fn spec_initials(first: Seq<char>, middle: Seq<char>) -> Seq<char> {
    (if first.len() > 0 {
        seq![first[0]]
    } else {
        seq![]
    }) + (if middle.len() > 0 {
        seq![middle[0]]
    } else {
        seq![]
    })
}

/// The short-name parts for an author: the last name, then the adjoined
/// initials, with empty components omitted.
pub open spec fn spec_author_parts(last: Seq<char>, first: Seq<char>, middle: Seq<char>) -> Seq<
    Seq<char>,
> {
    let p0: Seq<Seq<char>> = if last.len() > 0 {
        seq![last]
    } else {
        seq![]
    };
    let ini = spec_initials(first, middle);
    if ini.len() > 0 {
        p0.push(ini)
    } else {
        p0
    }
}

/// An author's short display name: "{lastName} {firstInitial}{middleInitial}"
/// with empty components omitted and no initial for an empty name part.
pub open spec fn spec_short_name(a: BookAuthor) -> Seq<char> {
    join_with(spec_author_parts(a.last_name@, a.first_name@, a.middle_name@), seq![' '])
}

fn short_name_string(last: &str, first: &str, middle: &str) -> (r: String)
    ensures
        r@ == join_with(spec_author_parts(last@, first@, middle@), seq![' ']),
{
    let mut parts: Vec<String> = Vec::new();
    if last.unicode_len() > 0 {
        parts.push(String::from_str(last));
    }
    let mut initials = String::new();
    if first.unicode_len() > 0 {
        let c = first.substring_char(0, 1);
        proof {
            assert(c@ =~= seq![first@[0]]);
        }
        initials.append(c);
    }
    if middle.unicode_len() > 0 {
        let c = middle.substring_char(0, 1);
        proof {
            assert(c@ =~= seq![middle@[0]]);
        }
        initials.append(c);
    }
    proof {
        assert(initials@ =~= spec_initials(first@, middle@));
    }
    if initials.as_str().unicode_len() > 0 {
        parts.push(initials);
    }
    proof {
        assert(parts.deep_view() =~= spec_author_parts(last@, first@, middle@));
        reveal_strlit(" ");
        assert(" "@ =~= seq![' ']);
    }
    join_strings(&parts, " ")
}

/// The author's short display name: the last name, one space, and the
/// adjoined initials, such as "Ivanov P" for an author with an empty middle
/// name.
pub fn get_author_short_name(author: BookAuthor) -> (r: String)
    ensures
        r@ == spec_short_name(author),
{
    short_name_string(author.last_name.as_str(), author.first_name.as_str(), author.middle_name.as_str())
}

/// Characters of the fixed punctuation set that is stripped outright:
/// parentheses, comma, ellipsis, typographic apostrophe, exclamation and
/// question marks, quotes, guillemets, colon.
pub open spec fn is_stripped(c: char) -> bool {
    ||| c == '('
    ||| c == ')'
    ||| c == ','
    ||| c == '\u{2026}'
    ||| c == '\u{2019}'
    ||| c == '!'
    ||| c == '"'
    ||| c == '?'
    ||| c == '\u{bb}'
    ||| c == '\u{ab}'
    ||| c == '\''
    ||| c == ':'
}

/// `s` with every stripped-set character removed.
pub open spec fn strip_marks(s: Seq<char>) -> Seq<char>
    decreases s.len(),
{
    if s.len() == 0 {
        seq![]
    } else if is_stripped(s.last()) {
        strip_marks(s.drop_last())
    } else {
        strip_marks(s.drop_last()).push(s.last())
    }
}

/// The per-character substitution applied after stripping: em and en dash to
/// hyphen; slash, space and no-break space to underscore; numero sign to `N`;
/// `a` with acute to `a`; straight quotes, backtick and square brackets
/// removed; anything else kept.
pub open spec fn subst_char(c: char) -> Seq<char> {
    if c == '\u{2014}' || c == '\u{2013}' {
        seq!['-']
    } else if c == '/' || c == ' ' || c == '\u{a0}' {
        seq!['_']
    } else if c == '\u{2116}' {
        seq!['N']
    } else if c == '\u{e1}' {
        seq!['a']
    } else if c == '\'' || c == '`' || c == '[' || c == ']' || c == '"' {
        seq![]
    } else {
        seq![c]
    }
}

/// `s` with the substitution applied to every character.
pub open spec fn subst_marks(s: Seq<char>) -> Seq<char>
    decreases s.len(),
{
    if s.len() == 0 {
        seq![]
    } else {
        subst_marks(s.drop_last()) + subst_char(s.last())
    }
}

pub open spec fn is_ascii_char(c: char) -> bool {
    (c as u32) < 128
}

/// `s` with every non-ASCII character removed.
pub open spec fn keep_ascii(s: Seq<char>) -> Seq<char>
    decreases s.len(),
{
    if s.len() == 0 {
        seq![]
    } else if is_ascii_char(s.last()) {
        keep_ascii(s.drop_last()).push(s.last())
    } else {
        keep_ascii(s.drop_last())
    }
}

fn strip_pass(s: &str) -> (r: String)
    ensures
        r@ == strip_marks(s@),
{
    let n = s.unicode_len();
    let mut out = String::new();
    let mut i: usize = 0;
    while i < n
        invariant
            n == s@.len(),
            i <= n,
            out@ == strip_marks(s@.take(i as int)),
        decreases n - i,
    {
        let c = s.get_char(i);
        let keep = !(c == '(' || c == ')' || c == ',' || c == '\u{2026}' || c == '\u{2019}' || c
            == '!' || c == '"' || c == '?' || c == '\u{bb}' || c == '\u{ab}' || c == '\'' || c
            == ':');
        if keep {
            out.append(s.substring_char(i, i + 1));
        }
        proof {
            assert(s@.take(i + 1).drop_last() =~= s@.take(i as int));
            assert(s@.take(i + 1).last() == s@[i as int]);
            assert(s@.subrange(i as int, i + 1) =~= seq![s@[i as int]]);
        }
        i += 1;
    }
    proof {
        assert(s@.take(n as int) =~= s@);
    }
    out
}

fn subst_pass(s: &str) -> (r: String)
    ensures
        r@ == subst_marks(s@),
{
    let n = s.unicode_len();
    let mut out = String::new();
    let mut i: usize = 0;
    while i < n
        invariant
            n == s@.len(),
            i <= n,
            out@ == subst_marks(s@.take(i as int)),
        decreases n - i,
    {
        let c = s.get_char(i);
        if c == '\u{2014}' || c == '\u{2013}' {
            out.append("-");
            proof {
                reveal_strlit("-");
                assert("-"@ =~= seq!['-']);
            }
        } else if c == '/' || c == ' ' || c == '\u{a0}' {
            out.append("_");
            proof {
                reveal_strlit("_");
                assert("_"@ =~= seq!['_']);
            }
        } else if c == '\u{2116}' {
            out.append("N");
            proof {
                reveal_strlit("N");
                assert("N"@ =~= seq!['N']);
            }
        } else if c == '\u{e1}' {
            out.append("a");
            proof {
                reveal_strlit("a");
                assert("a"@ =~= seq!['a']);
            }
        } else if c == '\'' || c == '`' || c == '[' || c == ']' || c == '"' {
        } else {
            out.append(s.substring_char(i, i + 1));
            proof {
                assert(s@.subrange(i as int, i + 1) =~= seq![s@[i as int]]);
            }
        }
        proof {
            assert(s@.take(i + 1).drop_last() =~= s@.take(i as int));
            assert(s@.take(i + 1).last() == s@[i as int]);
        }
        i += 1;
    }
    proof {
        assert(s@.take(n as int) =~= s@);
    }
    out
}

fn ascii_pass(s: &str) -> (r: String)
    ensures
        r@ == keep_ascii(s@),
{
    let n = s.unicode_len();
    let mut out = String::new();
    let mut i: usize = 0;
    while i < n
        invariant
            n == s@.len(),
            i <= n,
            out@ == keep_ascii(s@.take(i as int)),
        decreases n - i,
    {
        let c = s.get_char(i);
        if (c as u32) < 128 {
            out.append(s.substring_char(i, i + 1));
            proof {
                assert(s@.subrange(i as int, i + 1) =~= seq![s@[i as int]]);
            }
        }
        proof {
            assert(s@.take(i + 1).drop_last() =~= s@.take(i as int));
            assert(s@.take(i + 1).last() == s@[i as int]);
        }
        i += 1;
    }
    proof {
        assert(s@.take(n as int) =~= s@);
    }
    out
}

/// What translit's GOST 7.79 System B Russian table maps a string to:
/// a function of the input characters alone.
pub uninterp spec fn gost_of(s: Seq<char>) -> Seq<char>;

/// Relies on translit's `Transliterator::convert` with the `gost779b_ru`
/// table: Cyrillic-to-Latin replacement, determined by the input characters
/// alone.
#[verifier::external_body]
fn transliterate_gost(s: &str) -> (r: String)
    ensures
        r@ == gost_of(s@),
{
    translit::Transliterator::new(translit::gost779b_ru()).convert(s, false)
}

/// The effective type token of the output filename: `fb2.zip` for the
/// zip-wrapped fb2 format, `{format}.zip` when the deliverable was re-zipped,
/// and the format itself otherwise.
pub open spec fn spec_type_token(file_type: Seq<char>, force_zip: bool) -> Seq<char> {
    if file_type == "fb2zip"@ {
        "fb2.zip"@
    } else if force_zip {
        file_type + ".zip"@
    } else {
        file_type
    }
}

/// The short names of a sequence of authors, in order.
pub open spec fn spec_short_names(authors: Seq<BookAuthor>) -> Seq<Seq<char>> {
    authors.map_values(|a: BookAuthor| spec_short_name(a))
}

/// The short names of all authors, joined by `_-_`.
pub open spec fn spec_authors_joined(authors: Seq<BookAuthor>) -> Seq<char> {
    join_with(spec_short_names(authors), "_-_"@)
}

/// The name parts before transliteration: the joined author short names
/// (omitted when the book has no authors), then the trimmed title.
pub open spec fn spec_name_parts(book: BookWithRemote) -> Seq<Seq<char>> {
    let base: Seq<Seq<char>> = if book.authors@.len() > 0 {
        seq![spec_authors_joined(book.authors@)]
    } else {
        seq![]
    };
    base.push(trim_of(book.title@))
}

/// The `.{remoteId}.{effectiveType}` suffix of the output filename.
pub open spec fn spec_suffix(book: BookWithRemote, file_type: Seq<char>, force_zip: bool) -> Seq<
    char,
> {
    seq!['.'] + spec_dec(book.remote_id as nat) + seq!['.'] + spec_type_token(file_type, force_zip)
}

/// How many characters of the normalized name stand before the suffix:
/// whatever fits in 64 characters less the suffix and one, never more than
/// one less than the name itself, and never negative.
pub open spec fn spec_left_len(base_len: int, suffix_len: int) -> int {
    let cap = 64 - suffix_len - 1;
    let avail = base_len - 1;
    let m = if cap <= avail {
        cap
    } else {
        avail
    };
    if m <= 0 {
        0
    } else {
        m
    }
}

/// The normalized name before truncation: parts joined by `_`,
/// transliterated, stripped, substituted, and reduced to ASCII on demand.
pub open spec fn spec_base_name(book: BookWithRemote, only_ascii: bool) -> Seq<char> {
    let joined = join_with(spec_name_parts(book), seq!['_']);
    let subst = subst_marks(strip_marks(gost_of(joined)));
    if only_ascii {
        keep_ascii(subst)
    } else {
        subst
    }
}

/// The output filename for a book: the truncated normalized name followed by
/// the `.{remoteId}.{effectiveType}` suffix.
pub open spec fn spec_filename(
    book: BookWithRemote,
    file_type: Seq<char>,
    force_zip: bool,
    only_ascii: bool,
) -> Seq<char> {
    let base = spec_base_name(book, only_ascii);
    let suffix = spec_suffix(book, file_type, force_zip);
    base.take(spec_left_len(base.len() as int, suffix.len() as int)) + suffix
}

/// Derives the output filename for `book` when delivered as `file_type`.
/// `force_zip` marks a deliverable that was re-wrapped into a zip container;
/// `only_ascii` selects the transport-safe variant over the display variant.
pub fn get_filename_by_book(
    book: &BookWithRemote,
    file_type: &str,
    force_zip: bool,
    only_ascii: bool,
) -> (r: String)
    ensures
        r@ == spec_filename(*book, file_type@, force_zip, only_ascii),
{
    let token: String = if eq_str(file_type, "fb2zip") {
        String::from_str("fb2.zip")
    } else if force_zip {
        let mut t = String::from_str(file_type);
        t.append(".zip");
        t
    } else {
        String::from_str(file_type)
    };

    let mut parts: Vec<String> = Vec::new();
    if book.authors.len() > 0 {
        let mut names: Vec<String> = Vec::new();
        let mut i: usize = 0;
        while i < book.authors.len()
            invariant
                i <= book.authors@.len(),
                names.deep_view() == spec_short_names(book.authors@.take(i as int)),
            decreases book.authors@.len() - i,
        {
            let ghost old_names = names.deep_view();
            let a = &book.authors[i];
            let n = short_name_string(a.last_name.as_str(), a.first_name.as_str(), a.middle_name.as_str());
            names.push(n);
            proof {
                let dv = names.deep_view();
                let target = spec_short_names(book.authors@.take(i + 1));
                assert(old_names.len() == i as int);
                assert(names@.len() == i + 1);
                assert(dv.len() == names@.len());
                assert(target.len() == i + 1);
                assert(dv.len() == target.len());
                assert forall|j: int| 0 <= j < dv.len() implies dv[j] == target[j] by {
                    assert(book.authors@.take(i + 1)[j] == book.authors@[j]);
                    if j < i {
                        assert(dv[j] == old_names[j]);
                        assert(old_names[j] == spec_short_names(book.authors@.take(i as int))[j]);
                        assert(spec_short_names(book.authors@.take(i as int))[j]
                            == spec_short_name(book.authors@[j]));
                    } else {
                        assert(dv[j] == n@);
                        assert(n@ == spec_short_name(book.authors@[i as int]));
                    }
                }
                assert(dv =~= target);
            }
            i += 1;
        }
        proof {
            assert(book.authors@.take(book.authors@.len() as int) =~= book.authors@);
        }
        parts.push(join_strings(&names, "_-_"));
    }
    parts.push(String::from_str(trim_str(book.title.as_str())));
    proof {
        assert(parts.deep_view() =~= spec_name_parts(*book));
    }

    let joined = join_strings(&parts, "_");
    proof {
        reveal_strlit("_");
        assert("_"@ =~= seq!['_']);
    }
    let translit_out = transliterate_gost(joined.as_str());
    let stripped = strip_pass(translit_out.as_str());
    let substd = subst_pass(stripped.as_str());
    let base: String = if only_ascii {
        ascii_pass(substd.as_str())
    } else {
        substd
    };

    let mut suffix = String::from_str(".");
    append_dec(&mut suffix, book.remote_id);
    suffix.append(".");
    suffix.append(token.as_str());
    proof {
        reveal_strlit(".");
        assert("."@ =~= seq!['.']);
        assert(suffix@ =~= spec_suffix(*book, file_type@, force_zip));
    }

    let n = base.as_str().unicode_len();
    let m = suffix.as_str().unicode_len();
    let k: usize = if m >= 63 || n == 0 {
        0
    } else {
        let cap = 64 - m - 1;
        let avail = n - 1;
        if cap <= avail {
            cap
        } else {
            avail
        }
    };
    proof {
        assert(k as int == spec_left_len(n as int, m as int));
    }

    let mut r = String::from_str(base.as_str().substring_char(0, k));
    r.append(suffix.as_str());
    proof {
        assert(base@.subrange(0, k as int) =~= base@.take(k as int));
        assert(r@ =~= spec_filename(*book, file_type@, force_zip, only_ascii));
    }
    r
}

/// Law: whenever the `.{remoteId}.{effectiveType}` suffix leaves room within
/// the limit (at most 63 characters), the derived filename is at most 64
/// characters long and ends with that suffix.
pub proof fn lemma_filename_bounded(
    book: BookWithRemote,
    file_type: Seq<char>,
    force_zip: bool,
    only_ascii: bool,
)
    requires
        spec_suffix(book, file_type, force_zip).len() <= 63,
    ensures
        spec_filename(book, file_type, force_zip, only_ascii).len() <= 64,
        spec_filename(book, file_type, force_zip, only_ascii).len() >= spec_suffix(
            book,
            file_type,
            force_zip,
        ).len(),
        ({
            let r = spec_filename(book, file_type, force_zip, only_ascii);
            let suffix = spec_suffix(book, file_type, force_zip);
            r.subrange(r.len() - suffix.len(), r.len() as int) == suffix
        }),
{
    let base = spec_base_name(book, only_ascii);
    let suffix = spec_suffix(book, file_type, force_zip);
    let k = spec_left_len(base.len() as int, suffix.len() as int);
    let r = spec_filename(book, file_type, force_zip, only_ascii);
    assert(0 <= k <= base.len());
    assert(k + suffix.len() <= 64);
    assert(r == base.take(k) + suffix);
    assert(r.subrange(r.len() - suffix.len(), r.len() as int) =~= suffix);
}

} // verus!
