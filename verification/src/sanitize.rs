use vstd::prelude::*;
use crate::part::{PartV, html_contents, joined_plain, joined_html};
use crate::textutil::spec_joined;

verus! {

/// What regex::Regex::replace_all returns for a pattern, a replacement
/// and a subject.
pub uninterp spec fn re_replaced(pat: Seq<char>, rep: Seq<char>, s: Seq<char>) -> Seq<char>;

/// What ammonia's cleaner with an empty tag set returns: the input
/// with every markup tag removed.
pub uninterp spec fn tags_stripped(s: Seq<char>) -> Seq<char>;

/// What html_escape::decode_html_entities returns.
pub uninterp spec fn html_decoded(s: Seq<char>) -> Seq<char>;

/// Relies on regex::Regex::replace_all with the fixed, valid pattern
/// `(\r?\n\s*){2,}`: runs of blank lines collapse to one.
#[verifier::external_body]
pub(crate) fn collapse_blank_lines(s: &str) -> (r: String)
    ensures
        r@ == re_replaced(r"(\r?\n\s*){2,}"@, "\n\n"@, s@),
{
    regex::Regex::new(r"(\r?\n\s*){2,}").unwrap().replace_all(s, "\n\n").to_string()
}

/// Relies on regex::Regex::replace_all with the fixed, valid pattern
/// `(\r?\n){2,}`: runs of line breaks collapse to one blank line.
#[verifier::external_body]
pub(crate) fn collapse_line_breaks(s: &str) -> (r: String)
    ensures
        r@ == re_replaced(r"(\r?\n){2,}"@, "\n\n"@, s@),
{
    regex::Regex::new(r"(\r?\n){2,}").unwrap().replace_all(s, "\n\n").to_string()
}

/// Relies on regex::Regex::replace_all with the fixed, valid pattern
/// `\t`: each tab becomes a space.
#[verifier::external_body]
pub(crate) fn collapse_tabs(s: &str) -> (r: String)
    ensures
        r@ == re_replaced(r"\t"@, " "@, s@),
{
    regex::Regex::new(r"\t").unwrap().replace_all(s, " ").to_string()
}

/// Relies on regex::Regex::replace_all with the fixed, valid pattern
/// `(\t|&nbsp;)`: each tab or non-breaking-space entity becomes a
/// space.
#[verifier::external_body]
pub(crate) fn collapse_tabs_nbsp(s: &str) -> (r: String)
    ensures
        r@ == re_replaced(r"(\t|&nbsp;)"@, " "@, s@),
{
    regex::Regex::new(r"(\t|&nbsp;)").unwrap().replace_all(s, " ").to_string()
}

/// Relies on regex::Regex::replace_all with the fixed, valid pattern
/// ` {2,}`: runs of spaces collapse to two.
#[verifier::external_body]
pub(crate) fn collapse_spaces(s: &str) -> (r: String)
    ensures
        r@ == re_replaced(" {2,}"@, "  "@, s@),
{
    regex::Regex::new(" {2,}").unwrap().replace_all(s, "  ").to_string()
}

/// Relies on ammonia: a Builder whose allowed tag set is empty removes
/// every markup tag and keeps the text.
#[verifier::external_body]
pub(crate) fn strip_tags(s: &str) -> (r: String)
    ensures
        r@ == tags_stripped(s@),
{
    ammonia::Builder::new().tags(std::collections::HashSet::default()).clean(s).to_string()
}

/// Relies on html_escape::decode_html_entities: decodes entity
/// references into their characters.
#[verifier::external_body]
pub(crate) fn decode_entities(s: &str) -> (r: String)
    ensures
        r@ == html_decoded(s@),
{
    html_escape::decode_html_entities(s).to_string()
}

/// The sanitizing pipeline for a joined plain-text body: blank-line
/// runs collapse, tabs become spaces, space runs collapse to two.
pub open spec fn plain_sanitized(s: Seq<char>) -> Seq<char> {
    re_replaced(
        " {2,}"@,
        "  "@,
        re_replaced(r"\t"@, " "@, re_replaced(r"(\r?\n\s*){2,}"@, "\n\n"@, s)),
    )
}

/// The sanitizing pipeline for a joined HTML body: markup stripped,
/// blank-line runs collapsed, tabs and non-breaking spaces turned into
/// spaces, space runs collapsed, entities decoded.
pub open spec fn html_sanitized(s: Seq<char>) -> Seq<char> {
    html_decoded(
        re_replaced(
            " {2,}"@,
            "  "@,
            re_replaced(
                r"(\t|&nbsp;)"@,
                " "@,
                re_replaced(r"(\r?\n\s*){2,}"@, "\n\n"@, tags_stripped(s)),
            ),
        ),
    )
}

/// What folding a part collection to plain text yields: the sanitized
/// joined plain parts, or, when there are none, the sanitized joined
/// HTML parts.
pub open spec fn folded_plain(parts: Seq<PartV>) -> Seq<char> {
    if joined_plain(parts).len() == 0 {
        html_sanitized(joined_html(parts))
    } else {
        plain_sanitized(joined_plain(parts))
    }
}

/// What folding a part collection to HTML yields: the HTML parts
/// joined by a blank line, runs of line breaks collapsed.
pub open spec fn folded_html(parts: Seq<PartV>) -> Seq<char> {
    re_replaced(r"(\r?\n){2,}"@, "\n\n"@, spec_joined(html_contents(parts), "\n\n"@))
}

} // verus!
