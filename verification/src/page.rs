use vstd::prelude::*;

use crate::error::{CrawlError, ErrorKind};
use crate::extract::{
    author_link_of, body_of, extract_author_link, extract_body, extract_next_page, extract_title,
    next_page_of, title_of,
};

verus! {

/// Extracts the chapter title of a page; a page without one is an
/// extraction error.
pub fn get_title(html: &str) -> (r: Result<String, CrawlError>)
    ensures
        match r {
            Ok(t) => title_of(html@) == Some(t@),
            Err(e) => title_of(html@) is None && e.kind == ErrorKind::Extraction,
        },
{
    match extract_title(html) {
        Some(t) => Ok(t),
        None => Err(CrawlError::new(ErrorKind::Extraction, String::from_str("chapter title"))),
    }
}

/// Extracts the story-body fragment and the optional "next page" link of a
/// page; a page without a story-body block is a missing-content error.
pub fn get_contents(html: &str) -> (r: Result<(String, Option<String>), CrawlError>)
    ensures
        match r {
            Ok(p) => body_of(html@) == Some(p.0@) && p.1.deep_view() == next_page_of(html@),
            Err(e) => body_of(html@) is None && e.kind == ErrorKind::MissingContent,
        },
{
    match extract_body(html) {
        Some(b) => Ok((b, extract_next_page(html))),
        None => Err(CrawlError::new(ErrorKind::MissingContent, String::from_str("story block"))),
    }
}

/// Extracts the author's listing-page link of a page; a page without one is
/// an extraction error.
pub fn get_author_link(html: &str) -> (r: Result<String, CrawlError>)
    ensures
        match r {
            Ok(l) => author_link_of(html@) == Some(l@),
            Err(e) => author_link_of(html@) is None && e.kind == ErrorKind::Extraction,
        },
{
    match extract_author_link(html) {
        Some(l) => Ok(l),
        None => Err(CrawlError::new(ErrorKind::Extraction, String::from_str("author link"))),
    }
}

} // verus!
