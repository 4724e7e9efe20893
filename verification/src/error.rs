use vstd::prelude::*;

verus! {

/// The kind of a crawl failure: which stage of the crawl went wrong.
#[derive(PartialEq, Eq, Structural, Clone, Copy, Debug)]
pub enum ErrorKind {
    /// A page could not be retrieved.
    Fetch,
    /// An expected structural element was absent from a parsed page.
    Extraction,
    /// A chapter page had no story-body block.
    MissingContent,
    /// A traversed chapter URL has no entry in the author's index.
    UnknownStory,
    /// A listing row's date string fits neither supported date format.
    DateParse,
    /// The output destination could not be created or written.
    Sink,
}

/// A failure of the crawl: its kind together with the offending text
/// (a URL, a date string, or the name of the missing element).
#[derive(Debug)]
pub struct CrawlError {
    pub kind: ErrorKind,
    pub context: String,
}

/// The human-readable label of an error kind.
pub open spec fn spec_kind_label(k: ErrorKind) -> Seq<char> {
    match k {
        ErrorKind::Fetch => "unable to retrieve "@,
        ErrorKind::Extraction => "missing page element: "@,
        ErrorKind::MissingContent => "page had no story block: "@,
        ErrorKind::UnknownStory => "story not in the author's index: "@,
        ErrorKind::DateParse => "unreadable date: "@,
        ErrorKind::Sink => "unable to write output: "@,
    }
}

impl CrawlError {
    pub fn new(kind: ErrorKind, context: String) -> (r: CrawlError)
        ensures
            r.kind == kind,
            r.context == context,
    {
        CrawlError { kind, context }
    }

    /// Renders the error as one line: its kind's label, then its context.
    pub fn message(&self) -> (r: String)
        ensures
            r@ == spec_kind_label(self.kind) + self.context@,
    {
        let mut s = match self.kind {
            ErrorKind::Fetch => String::from_str("unable to retrieve "),
            ErrorKind::Extraction => String::from_str("missing page element: "),
            ErrorKind::MissingContent => String::from_str("page had no story block: "),
            ErrorKind::UnknownStory => String::from_str("story not in the author's index: "),
            ErrorKind::DateParse => String::from_str("unreadable date: "),
            ErrorKind::Sink => String::from_str("unable to write output: "),
        };
        s.append(self.context.as_str());
        s
    }
}

} // verus!
