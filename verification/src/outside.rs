//! The library's trusted boundary: named results of, and thin wrappers
//! around, the outside calls that resolution and document assembly rely on.
use vstd::prelude::*;

verus! {

/// The character sequence that lowercasing produces for `s`; a function of
/// the characters alone.
pub uninterp spec fn lower_of(s: Seq<char>) -> Seq<char>;

/// Relies on str::to_lowercase: the result depends on the characters alone.
#[verifier::external_body]
pub(crate) fn lowercase(s: &str) -> (r: String)
    ensures
        r@ == lower_of(s@),
{
    s.to_lowercase()
}

/// Relies on std::time::SystemTime::now and chrono::DateTime::from_timestamp
/// (the two steps of chrono::Utc::now, taken without its panicking unwraps)
/// and chrono::Datelike::year: the year of the current UTC date, or `None`
/// when the system clock stands before the Unix epoch or past chrono's
/// maximum timestamp. chrono documents that the year of any of its dates lies
/// between its MIN_YEAR and MAX_YEAR, -262143 and 262142.
#[verifier::external_body]
pub(crate) fn current_utc_year() -> (y: Option<i32>)
    ensures
        y is Some ==> -262143 <= y->0 <= 262142,
{
    match std::time::SystemTime::now().duration_since(std::time::UNIX_EPOCH) {
        Ok(d) => chrono::DateTime::from_timestamp(d.as_secs() as i64, d.subsec_nanos()).map(
            |t| chrono::Datelike::year(&t),
        ),
        Err(_) => None,
    }
}

/// Whether `s` parses as a URI and, if so, the URI's path component; both
/// depend on the characters alone.
pub uninterp spec fn uri_path_opt(s: Seq<char>) -> Option<Seq<char>>;

/// Relies on http::Uri's FromStr and on Uri::path, which returns the path
/// component of the parsed URI; the outcome depends on the characters alone.
#[verifier::external_body]
pub(crate) fn parse_uri_path(s: &str) -> (r: Option<String>)
    ensures
        r.deep_view() == uri_path_opt(s@),
{
    match s.parse::<http::Uri>() {
        Ok(u) => Some(u.path().to_string()),
        Err(_) => None,
    }
}

/// The HTML that default-option Markdown rendering produces for `md`; a
/// function of the text alone.
pub uninterp spec fn html_of(md: Seq<char>) -> Seq<char>;

/// Relies on comrak::markdown_to_html with default options: the rendering
/// depends on the Markdown text alone.
#[verifier::external_body]
pub(crate) fn markdown_to_html_text(md: &str) -> (r: String)
    ensures
        r@ == html_of(md@),
{
    comrak::markdown_to_html(md, &comrak::Options::default())
}

} // verus!
