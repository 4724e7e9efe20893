use vstd::prelude::*;

verus! {

// Page extraction is an opaque capability: each function below names what one
// fixed CSS selection yields on a page's text. The results are functions of
// the page text alone, so each gets an uninterpreted name that the callers'
// contracts are stated over.

/// The chapter title a page shows: the concatenated text of the first
/// element matching the story-header heading selector.
pub uninterp spec fn title_of(html: Seq<char>) -> Option<Seq<char>>;

/// The story-body fragment of a page: the inner HTML of the first element
/// matching the story-body selector.
pub uninterp spec fn body_of(html: Seq<char>) -> Option<Seq<char>>;

/// The in-chapter "next page" link of a page: the `href` of the first
/// element matching the pager-next selector.
pub uninterp spec fn next_page_of(html: Seq<char>) -> Option<Seq<char>>;

/// The series-navigation links of a page, in document order: the `href` of
/// every element matching the series-link selector.
pub uninterp spec fn series_links_of(html: Seq<char>) -> Seq<Seq<char>>;

/// The author's listing-page link of a page: the `href` of the first
/// element matching the author-link selector.
pub uninterp spec fn author_link_of(html: Seq<char>) -> Option<Seq<char>>;

/// The author's display name on a listing page: the first text node of the
/// first element matching the author-name selector.
pub uninterp spec fn author_name_of(html: Seq<char>) -> Option<Seq<char>>;

/// The listing rows of an author page, in document order. For each row:
/// its title text, its detail URL, its description text, and its date text,
/// each absent when the row lacks the matching cell.
pub uninterp spec fn story_rows_of(html: Seq<char>) -> Seq<
    (Option<Seq<char>>, Option<Seq<char>>, Option<Seq<char>>, Option<Seq<char>>),
>;

/// Relies on scraper's `Html::parse_document`, `Selector::parse` and
/// `ElementRef::text`: the text of the first `.b-story-header h1` element.
#[verifier::external_body]
pub(crate) fn extract_title(html: &str) -> (r: Option<String>)
    ensures
        r.deep_view() == title_of(html@),
{
    let doc = scraper::Html::parse_document(html);
    let sel = scraper::Selector::parse(".b-story-header h1").unwrap();
    doc.select(&sel).next().map(|e| e.text().collect::<String>())
}

/// Relies on scraper's `Html::parse_document`, `Selector::parse` and
/// `ElementRef::inner_html`: the inner HTML of the first `.b-story-body-x`
/// element.
#[verifier::external_body]
pub(crate) fn extract_body(html: &str) -> (r: Option<String>)
    ensures
        r.deep_view() == body_of(html@),
{
    let doc = scraper::Html::parse_document(html);
    let sel = scraper::Selector::parse(".b-story-body-x").unwrap();
    doc.select(&sel).next().map(|e| e.inner_html())
}

/// Relies on scraper's `Html::parse_document`, `Selector::parse` and
/// `ElementRef::attr`: the `href` of the first `.b-pager-next` element.
#[verifier::external_body]
pub(crate) fn extract_next_page(html: &str) -> (r: Option<String>)
    ensures
        r.deep_view() == next_page_of(html@),
{
    let doc = scraper::Html::parse_document(html);
    let sel = scraper::Selector::parse(".b-pager-next").unwrap();
    doc.select(&sel).next().and_then(|e| e.attr("href").map(|s| s.to_string()))
}

/// Relies on scraper's `Html::parse_document`, `Selector::parse` and
/// `ElementRef::attr`: the `href` of every `#b-series a.ser_link` element,
/// in document order.
#[verifier::external_body]
pub(crate) fn extract_series_links(html: &str) -> (r: Vec<String>)
    ensures
        r.deep_view() == series_links_of(html@),
{
    let doc = scraper::Html::parse_document(html);
    let sel = scraper::Selector::parse("#b-series a.ser_link").unwrap();
    doc.select(&sel).flat_map(|e| e.attr("href").map(|s| s.to_string())).collect()
}

/// Relies on scraper's `Html::parse_document`, `Selector::parse` and
/// `ElementRef::attr`: the `href` of the first `.b-story-user-y > a`
/// element.
#[verifier::external_body]
pub(crate) fn extract_author_link(html: &str) -> (r: Option<String>)
    ensures
        r.deep_view() == author_link_of(html@),
{
    let doc = scraper::Html::parse_document(html);
    let sel = scraper::Selector::parse(".b-story-user-y > a").unwrap();
    doc.select(&sel).next().and_then(|e| e.attr("href").map(|s| s.to_string()))
}

/// Relies on scraper's `Html::parse_document`, `Selector::parse` and
/// `ElementRef::text`: the first text node of the first `a.contactheader`
/// element.
#[verifier::external_body]
pub(crate) fn extract_author_name(html: &str) -> (r: Option<String>)
    ensures
        r.deep_view() == author_name_of(html@),
{
    let doc = scraper::Html::parse_document(html);
    let sel = scraper::Selector::parse("a.contactheader").unwrap();
    doc.select(&sel).next().and_then(|e| e.text().next().map(|t| t.to_string()))
}

/// Relies on scraper's `Html::parse_document`, `Selector::parse`,
/// `ElementRef::text` and `ElementRef::attr`: for every `.sl, .r-ott` row,
/// the trimmed joined text and the `href` of its first `td:nth-child(1) a`,
/// and the trimmed joined text of its first `td:nth-child(2)` and
/// `td:nth-child(4)`.
#[verifier::external_body]
pub(crate) fn extract_story_rows(html: &str) -> (r: Vec<
    (Option<String>, Option<String>, Option<String>, Option<String>),
>)
    ensures
        r.deep_view() == story_rows_of(html@),
{
    let doc = scraper::Html::parse_document(html);
    let sel = |s: &str| scraper::Selector::parse(s).unwrap();
    let (r, t, d, a) = (sel(".sl, .r-ott"), sel("td:nth-child(1) a"), sel("td:nth-child(2)"), sel("td:nth-child(4)"));
    let text = |e: scraper::ElementRef| e.text().map(str::trim).collect::<String>();
    doc.select(&r).map(|row| (
        row.select(&t).next().map(&text),
        row.select(&t).next().and_then(|e| e.attr("href")).map(String::from),
        row.select(&d).next().map(&text),
        row.select(&a).next().map(&text),
    )).collect()
}

} // verus!
