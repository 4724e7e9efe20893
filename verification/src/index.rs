use vstd::prelude::*;

use crate::date::{spec_parse_mdy, Date};
use crate::error::{CrawlError, ErrorKind};
use crate::extract::{author_name_of, extract_author_name, extract_story_rows, story_rows_of};

verus! {

/// One published title of an author's listing page: its display name, its
/// description, its detail URL (the lookup key), and its publication date.
#[derive(Debug)]
pub struct Title {
    pub name: String,
    pub desc: String,
    pub url: String,
    pub date: Date,
}

/// The mathematical shape of a listing title.
pub ghost struct TitleV {
    pub name: Seq<char>,
    pub desc: Seq<char>,
    pub url: Seq<char>,
    pub date: Date,
}

impl DeepView for Title {
    type V = TitleV;

    open spec fn deep_view(&self) -> TitleV {
        TitleV { name: self.name@, desc: self.desc@, url: self.url@, date: self.date }
    }
}

/// An author's index: the display name and the published titles in
/// listing order.
#[derive(Debug)]
pub struct AuthorPage {
    pub name: String,
    pub titles: Vec<Title>,
}

/// The mathematical shape of an author's index.
pub ghost struct AuthorPageV {
    pub name: Seq<char>,
    pub titles: Seq<TitleV>,
}

impl DeepView for AuthorPage {
    type V = AuthorPageV;

    open spec fn deep_view(&self) -> AuthorPageV {
        AuthorPageV { name: self.name@, titles: self.titles.deep_view() }
    }
}

/// What one listing row yields: its title, or an extraction error for a
/// row missing a field, or a date-parse error for a date that does not
/// read as `MM/DD/YY`.
pub open spec fn spec_build_title(
    row: (Option<Seq<char>>, Option<Seq<char>>, Option<Seq<char>>, Option<Seq<char>>),
) -> Result<TitleV, ErrorKind> {
    match row {
        (Some(name), Some(url), Some(desc), Some(date_s)) => match spec_parse_mdy(date_s) {
            Some(d) => Ok(TitleV { name, desc, url, date: d }),
            None => Err(ErrorKind::DateParse),
        },
        _ => Err(ErrorKind::Extraction),
    }
}

/// The titles of the given rows in order, or the first row failure.
pub open spec fn spec_build_titles(
    rows: Seq<(Option<Seq<char>>, Option<Seq<char>>, Option<Seq<char>>, Option<Seq<char>>)>,
) -> Result<Seq<TitleV>, ErrorKind>
    decreases rows.len(),
{
    if rows.len() == 0 {
        Ok(Seq::empty())
    } else {
        match spec_build_title(rows[0]) {
            Err(k) => Err(k),
            Ok(t) => match spec_build_titles(rows.drop_first()) {
                Err(k) => Err(k),
                Ok(rest) => Ok(seq![t] + rest),
            },
        }
    }
}

/// The titles of rows known to build, in order.
pub open spec fn row_titles(
    rows: Seq<(Option<Seq<char>>, Option<Seq<char>>, Option<Seq<char>>, Option<Seq<char>>)>,
) -> Seq<TitleV> {
    rows.map_values(
        |r: (Option<Seq<char>>, Option<Seq<char>>, Option<Seq<char>>, Option<Seq<char>>)|
            spec_build_title(r)->Ok_0,
    )
}

proof fn lemma_build_titles_skip(
    rows: Seq<(Option<Seq<char>>, Option<Seq<char>>, Option<Seq<char>>, Option<Seq<char>>)>,
    i: int,
)
    requires
        0 <= i <= rows.len(),
        forall|j: int| 0 <= j < i ==> spec_build_title(rows[j]) is Ok,
    ensures
        spec_build_titles(rows) == (match spec_build_titles(rows.skip(i)) {
            Err(k) => Err::<Seq<TitleV>, ErrorKind>(k),
            Ok(rest) => Ok::<Seq<TitleV>, ErrorKind>(row_titles(rows.take(i)) + rest),
        }),
    decreases i,
{
    if i == 0 {
        assert(rows.skip(0) =~= rows);
        match spec_build_titles(rows) {
            Err(_) => {},
            Ok(rest) => {
                assert(rows.take(0) =~= Seq::<
                    (Option<Seq<char>>, Option<Seq<char>>, Option<Seq<char>>, Option<Seq<char>>),
                >::empty());
                assert(row_titles(rows.take(0)) + rest =~= rest);
            },
        }
    } else {
        lemma_build_titles_skip(rows.drop_first(), i - 1);
        assert(rows.drop_first().skip(i - 1) =~= rows.skip(i));
        let t0 = spec_build_title(rows[0])->Ok_0;
        match spec_build_titles(rows.skip(i)) {
            Err(_) => {},
            Ok(rest) => {
                assert(row_titles(rows.take(i)) =~= seq![t0] + row_titles(
                    rows.drop_first().take(i - 1),
                )) by {
                    assert forall|j: int| 0 <= j < i implies row_titles(rows.take(i))[j] == (
                    seq![t0] + row_titles(rows.drop_first().take(i - 1)))[j] by {
                        if j > 0 {
                            assert(rows.drop_first().take(i - 1)[j - 1] == rows[j]);
                        }
                    }
                }
                assert(seq![t0] + (row_titles(rows.drop_first().take(i - 1)) + rest) =~= (seq![t0]
                    + row_titles(rows.drop_first().take(i - 1))) + rest);
            },
        }
    }
}

/// What building the author index from a listing page yields: the author's
/// name and the built titles, or the first failure: a missing author name
/// or a bad row, in listing order.
pub open spec fn spec_get_stories(html: Seq<char>) -> Result<AuthorPageV, ErrorKind> {
    match author_name_of(html) {
        None => Err(ErrorKind::Extraction),
        Some(n) => match spec_build_titles(story_rows_of(html)) {
            Err(k) => Err(k),
            Ok(ts) => Ok(AuthorPageV { name: n, titles: ts }),
        },
    }
}

/// Builds the author's index from an already-fetched listing page: the
/// author's display name and one title per listing row, in listing order.
/// A missing author name or a row missing a field is an extraction error;
/// a row whose date does not read as `MM/DD/YY` is a date-parse error; no
/// partial index is produced.
pub fn get_stories(html: &str) -> (r: Result<AuthorPage, CrawlError>)
    ensures
        match r {
            Ok(ap) => spec_get_stories(html@) == Ok::<AuthorPageV, ErrorKind>(ap.deep_view()),
            Err(e) => spec_get_stories(html@) == Err::<AuthorPageV, ErrorKind>(e.kind),
        },
{
    let name = match extract_author_name(html) {
        Some(n) => n,
        None => {
            return Err(CrawlError::new(ErrorKind::Extraction, String::from_str("author name")));
        },
    };
    let rows = extract_story_rows(html);
    let ghost rv = story_rows_of(html@);
    let mut titles: Vec<Title> = Vec::new();
    let mut i: usize = 0;
    proof {
        assert(titles.deep_view() =~= row_titles(rv.take(0)));
    }
    while i < rows.len()
        invariant
            0 <= i <= rows.len(),
            author_name_of(html@) == Some(name@),
            rv == story_rows_of(html@),
            rows.deep_view() == rv,
            titles.deep_view() == row_titles(rv.take(i as int)),
            forall|j: int| 0 <= j < i ==> spec_build_title(rv[j]) is Ok,
        decreases rows.len() - i,
    {
        let ghost entry_titles = titles.deep_view();
        let row = &rows[i];
        proof {
            assert(rows.deep_view()[i as int] == rv[i as int]);
        }
        match (&row.0, &row.1, &row.2, &row.3) {
            (Some(nm), Some(u), Some(d), Some(ds)) => {
                let date = match Date::parse_mdy(ds.as_str()) {
                    Ok(dt) => dt,
                    Err(e) => {
                        proof {
                            assert(spec_build_title(rv[i as int]) == Err::<TitleV, ErrorKind>(
                                ErrorKind::DateParse,
                            ));
                            lemma_build_titles_skip(rv, i as int);
                            assert(rv.skip(i as int)[0] == rv[i as int]);
                        }
                        return Err(e);
                    },
                };
                let t = Title { name: nm.clone(), desc: d.clone(), url: u.clone(), date };
                proof {
                    assert(spec_build_title(rv[i as int]) == Ok::<TitleV, ErrorKind>(t.deep_view()));
                }
                titles.push(t);
                proof {
                    assert(titles.deep_view() =~= entry_titles.push(
                        spec_build_title(rv[i as int])->Ok_0,
                    ));
                    assert(row_titles(rv.take(i + 1)) =~= row_titles(rv.take(i as int)).push(
                        spec_build_title(rv[i as int])->Ok_0,
                    )) by {
                        assert forall|j: int| 0 <= j < i + 1 implies row_titles(rv.take(i + 1))[j]
                            == row_titles(rv.take(i as int)).push(
                            spec_build_title(rv[i as int])->Ok_0,
                        )[j] by {
                            assert(rv.take(i + 1)[j] == rv[j]);
                            if j < i {
                                assert(rv.take(i as int)[j] == rv[j]);
                            }
                        }
                    }
                }
            },
            _ => {
                proof {
                    assert(spec_build_title(rv[i as int]) == Err::<TitleV, ErrorKind>(
                        ErrorKind::Extraction,
                    ));
                    lemma_build_titles_skip(rv, i as int);
                    assert(rv.skip(i as int)[0] == rv[i as int]);
                }
                return Err(CrawlError::new(ErrorKind::Extraction, String::from_str("story row")));
            },
        }
        i += 1;
    }
    proof {
        lemma_build_titles_skip(rv, i as int);
        assert(rv.skip(i as int).len() == 0);
        assert(rv.take(i as int) =~= rv);
        match spec_build_titles(rv) {
            Err(_) => {},
            Ok(ts) => {
                assert(row_titles(rv) + Seq::<TitleV>::empty() =~= row_titles(rv));
            },
        }
    }
    Ok(AuthorPage { name, titles })
}

} // verus!
