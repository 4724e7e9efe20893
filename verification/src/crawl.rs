use vstd::prelude::*;

use crate::chapter::{
    concat_bodies, get_chapter, spec_walk, walk_gives_chapter, walk_gives_error,
};
use crate::error::{CrawlError, ErrorKind};
use crate::extract::{author_link_of, title_of};
use crate::index::{get_stories, spec_get_stories, AuthorPage, AuthorPageV, Title, TitleV};
use crate::page::get_author_link;
use crate::series::{
    heading_block, series_gives, series_gives_error, spec_heading_block, spec_series,
    traverse_series, ChapterSection, SectionV,
};
use crate::store::{spec_lookup, PageStore};

verus! {

/// The title of the author's index that a URL resolves to: the last listing
/// entry with that detail URL. Listing pages are expected to key each title
/// by a unique detail URL; with duplicate keys the last entry wins, a
/// known limitation kept from keyed-map resolution.
pub open spec fn spec_find_title(titles: Seq<TitleV>, url: Seq<char>) -> Option<TitleV>
    decreases titles.len(),
{
    if titles.len() == 0 {
        None
    } else if titles.last().url == url {
        Some(titles.last())
    } else {
        spec_find_title(titles.drop_last(), url)
    }
}

proof fn lemma_find_title_skip(titles: Seq<TitleV>, url: Seq<char>, i: int)
    requires
        0 <= i <= titles.len(),
        forall|j: int| i <= j < titles.len() ==> titles[j].url != url,
    ensures
        spec_find_title(titles, url) == spec_find_title(titles.take(i), url),
    decreases titles.len() - i,
{
    if i < titles.len() {
        lemma_find_title_skip(titles.drop_last(), url, i);
        assert(titles.drop_last().take(i) =~= titles.take(i));
    } else {
        assert(titles.take(i) =~= titles);
    }
}

/// Resolves a URL to its listing entry, scanning so that with duplicate
/// detail URLs the last listing entry wins.
pub fn find_title<'a>(titles: &'a Vec<Title>, url: &String) -> (r: Option<&'a Title>)
    ensures
        match r {
            Some(t) => spec_find_title(titles.deep_view(), url@) == Some(t.deep_view()),
            None => spec_find_title(titles.deep_view(), url@) is None,
        },
{
    let ghost tv = titles.deep_view();
    let mut i: usize = titles.len();
    while i > 0
        invariant
            0 <= i <= titles.len(),
            tv == titles.deep_view(),
            forall|j: int| i <= j < tv.len() ==> tv[j].url != url@,
        decreases i,
    {
        proof {
            assert(tv[i - 1] == titles.deep_view()[i - 1]);
        }
        if titles[i - 1].url == *url {
            proof {
                lemma_find_title_skip(tv, url@, i as int);
                assert(tv.take(i as int).last() == tv[i - 1]);
            }
            return Some(&titles[i - 1]);
        }
        i -= 1;
    }
    proof {
        lemma_find_title_skip(tv, url@, 0);
        assert(tv.take(0).len() == 0);
    }
    None
}

/// One named section handed to the document sink: its file name, its
/// combined title line, and its contents.
#[derive(Debug)]
pub struct Section {
    pub file_name: String,
    pub full_title: String,
    pub contents: String,
}

/// The mathematical shape of a sink section.
pub ghost struct SectionOutV {
    pub file_name: Seq<char>,
    pub full_title: Seq<char>,
    pub contents: Seq<char>,
}

impl DeepView for Section {
    type V = SectionOutV;

    open spec fn deep_view(&self) -> SectionOutV {
        SectionOutV {
            file_name: self.file_name@,
            full_title: self.full_title@,
            contents: self.contents@,
        }
    }
}

/// A finished crawl: the author's name and the ordered sections for the
/// document sink.
#[derive(Debug)]
pub struct CrawlOutput {
    pub author: String,
    pub sections: Vec<Section>,
}

/// The mathematical shape of a finished crawl.
pub ghost struct CrawlOutputV {
    pub author: Seq<char>,
    pub sections: Seq<SectionOutV>,
}

impl DeepView for CrawlOutput {
    type V = CrawlOutputV;

    open spec fn deep_view(&self) -> CrawlOutputV {
        CrawlOutputV { author: self.author@, sections: self.sections.deep_view() }
    }
}

/// The combined title line of a listing entry: its name, a line break,
/// its description.
pub open spec fn spec_full_title(t: TitleV) -> Seq<char> {
    t.name + "\n"@ + t.desc
}

/// The sink section of one emitted chapter resolved against a listing
/// entry: the chapter's heading with a fixed extension as file name, the
/// entry's combined title line, and the chapter's contents.
pub open spec fn spec_section_of(em: SectionV, t: TitleV) -> SectionOutV {
    SectionOutV {
        file_name: em.title + ".html"@,
        full_title: spec_full_title(t),
        contents: em.contents,
    }
}

/// The emitted chapters of a series resolved against the author's index,
/// in order, or an unknown-story failure at the first chapter whose URL
/// has no listing entry.
pub open spec fn spec_resolve(ems: Seq<SectionV>, titles: Seq<TitleV>) -> Result<
    Seq<SectionOutV>,
    ErrorKind,
>
    decreases ems.len(),
{
    if ems.len() == 0 {
        Ok(Seq::empty())
    } else {
        match spec_find_title(titles, ems[0].url) {
            None => Err(ErrorKind::UnknownStory),
            Some(t) => match spec_resolve(ems.drop_first(), titles) {
                Err(k) => Err(k),
                Ok(rest) => Ok(seq![spec_section_of(ems[0], t)] + rest),
            },
        }
    }
}

proof fn lemma_resolve_skip(ems: Seq<SectionV>, titles: Seq<TitleV>, i: int)
    requires
        0 <= i <= ems.len(),
        forall|j: int| 0 <= j < i ==> spec_find_title(titles, ems[j].url) is Some,
    ensures
        spec_resolve(ems, titles) == (match spec_resolve(ems.skip(i), titles) {
            Err(k) => Err::<Seq<SectionOutV>, ErrorKind>(k),
            Ok(rest) => Ok::<Seq<SectionOutV>, ErrorKind>(resolved_prefix(ems.take(i), titles) + rest),
        }),
    decreases i,
{
    if i == 0 {
        assert(ems.skip(0) =~= ems);
        match spec_resolve(ems, titles) {
            Err(_) => {},
            Ok(rest) => {
                assert(resolved_prefix(ems.take(0), titles) + rest =~= rest);
            },
        }
    } else {
        lemma_resolve_skip(ems.drop_first(), titles, i - 1);
        assert(ems.drop_first().skip(i - 1) =~= ems.skip(i));
        let s0 = spec_section_of(ems[0], spec_find_title(titles, ems[0].url)->Some_0);
        match spec_resolve(ems.skip(i), titles) {
            Err(_) => {},
            Ok(rest) => {
                assert(resolved_prefix(ems.take(i), titles) =~= seq![s0] + resolved_prefix(
                    ems.drop_first().take(i - 1),
                    titles,
                )) by {
                    assert forall|j: int| 0 <= j < i implies resolved_prefix(ems.take(i), titles)[j]
                        == (seq![s0] + resolved_prefix(ems.drop_first().take(i - 1), titles))[j] by {
                        if j > 0 {
                            assert(ems.drop_first().take(i - 1)[j - 1] == ems[j]);
                        }
                    }
                }
                assert(seq![s0] + (resolved_prefix(ems.drop_first().take(i - 1), titles) + rest)
                    =~= (seq![s0] + resolved_prefix(ems.drop_first().take(i - 1), titles)) + rest);
            },
        }
    }
}

/// The resolved sections of emitted chapters known to resolve.
pub open spec fn resolved_prefix(ems: Seq<SectionV>, titles: Seq<TitleV>) -> Seq<SectionOutV> {
    ems.map_values(|em: SectionV| spec_section_of(em, spec_find_title(titles, em.url)->Some_0))
}

/// Builds the combined title line of a listing entry.
pub fn full_title_line(t: &Title) -> (r: String)
    ensures
        r@ == spec_full_title(t.deep_view()),
{
    let mut s = String::new();
    s.append(t.name.as_str());
    s.append("\n");
    s.append(t.desc.as_str());
    proof {
        assert(s@ =~= spec_full_title(t.deep_view()));
    }
    s
}

/// Appends the fixed section-file extension to a chapter heading.
pub fn section_file_name(title: &String) -> (r: String)
    ensures
        r@ == title@ + ".html"@,
{
    let mut s = String::new();
    s.append(title.as_str());
    s.append(".html");
    proof {
        assert(s@ =~= title@ + ".html"@);
    }
    s
}

/// What a whole crawl yields, given `fuel` for the underlying page and
/// series walks: the author's name and the sink sections, or the error
/// that stops the crawl, or nothing when the fuel runs out first. The
/// crawl fetches the initial page, follows its author link, builds the
/// author's index, then walks one chapter or the whole series and resolves
/// each emitted chapter against the index; `heading` prepends the heading
/// block in single-chapter mode, as the series mode always does.
pub open spec fn spec_crawl(
    store: Seq<(Seq<char>, Seq<char>)>,
    initial: Seq<char>,
    series: bool,
    heading: bool,
    fuel: nat,
) -> Option<Result<CrawlOutputV, ErrorKind>> {
    match spec_lookup(store, initial) {
        None => Some(Err(ErrorKind::Fetch)),
        Some(h0) => match author_link_of(h0) {
            None => Some(Err(ErrorKind::Extraction)),
            Some(al) => match spec_lookup(store, al) {
                None => Some(Err(ErrorKind::Fetch)),
                Some(ah) => match spec_get_stories(ah) {
                    Err(k) => Some(Err(k)),
                    Ok(apv) => if series {
                        match spec_series(store, initial, Seq::empty(), fuel) {
                            None => None,
                            Some(Err(k)) => Some(Err(k)),
                            Some(Ok(ems)) => match spec_resolve(ems, apv.titles) {
                                Err(k) => Some(Err(k)),
                                Ok(secs) => Some(
                                    Ok(CrawlOutputV { author: apv.name, sections: secs }),
                                ),
                            },
                        }
                    } else {
                        match spec_walk(store, initial, true, Seq::empty(), fuel) {
                            None => None,
                            Some(Err(k)) => Some(Err(k)),
                            Some(Ok(chain)) => match spec_find_title(apv.titles, initial) {
                                None => Some(Err(ErrorKind::UnknownStory)),
                                Some(t) => Some(
                                    Ok(
                                        CrawlOutputV {
                                            author: apv.name,
                                            sections: seq![
                                                SectionOutV {
                                                    file_name: Seq::empty(),
                                                    full_title: spec_full_title(t),
                                                    contents: if heading {
                                                        spec_heading_block(
                                                            title_of(chain[0])->Some_0,
                                                            concat_bodies(chain),
                                                        )
                                                    } else {
                                                        concat_bodies(chain)
                                                    },
                                                },
                                            ],
                                        },
                                    ),
                                ),
                            },
                        }
                    },
                },
            },
        },
    }
}

/// Some fueled crawl yields exactly the output `out`.
pub open spec fn crawl_gives(
    store: Seq<(Seq<char>, Seq<char>)>,
    initial: Seq<char>,
    series: bool,
    heading: bool,
    fuel: nat,
    out: CrawlOutput,
) -> bool {
    spec_crawl(store, initial, series, heading, fuel) == Some(
        Ok::<CrawlOutputV, ErrorKind>(out.deep_view()),
    )
}

/// Some fueled crawl stops with the error kind `k`.
pub open spec fn crawl_gives_error(
    store: Seq<(Seq<char>, Seq<char>)>,
    initial: Seq<char>,
    series: bool,
    heading: bool,
    fuel: nat,
    k: ErrorKind,
) -> bool {
    spec_crawl(store, initial, series, heading, fuel) == Some(Err::<CrawlOutputV, ErrorKind>(k))
}

/// The contract of a crawl: its result is exactly what some fueled crawl
/// yields.
pub open spec fn crawl_post(
    store: Seq<(Seq<char>, Seq<char>)>,
    initial: Seq<char>,
    series: bool,
    heading: bool,
    r: Result<CrawlOutput, CrawlError>,
) -> bool {
    match r {
        Ok(out) => exists|fuel: nat| #[trigger] crawl_gives(
            store,
            initial,
            series,
            heading,
            fuel,
            out,
        ),
        Err(e) => exists|fuel: nat| #[trigger] crawl_gives_error(
            store,
            initial,
            series,
            heading,
            fuel,
            e.kind,
        ),
    }
}

/// Runs one whole crawl over the store: fetches the initial page, follows
/// its author link, builds the author's index, walks one chapter or the
/// whole series, resolves every emitted chapter against the index by its
/// URL — a miss is an unknown-story failure and nothing is produced — and
/// returns the author's name with the ordered sink sections. `heading`
/// prepends the heading block in single-chapter mode, as the series mode
/// always does.
#[verifier::loop_isolation(false)]
pub fn crawl(store: &PageStore, initial_url: &String, series: bool, heading: bool) -> (r: Result<
    CrawlOutput,
    CrawlError,
>)
    ensures
        crawl_post(store@, initial_url@, series, heading, r),
{
    let ghost sv = store@;
    let ghost init = initial_url@;
    let first_html = match store.get(initial_url) {
        Some(h) => h,
        None => {
            let rr = Err::<CrawlOutput, CrawlError>(
                CrawlError::new(ErrorKind::Fetch, initial_url.clone()),
            );
            proof {
                assert(crawl_gives_error(sv, init, series, heading, 0, ErrorKind::Fetch));
                assert(crawl_post(sv, init, series, heading, rr));
            }
            return rr;
        },
    };
    let author_link = match get_author_link(first_html.as_str()) {
        Ok(l) => l,
        Err(e) => {
            proof {
                assert(crawl_gives_error(sv, init, series, heading, 0, e.kind));
            }
            let rr = Err::<CrawlOutput, CrawlError>(e);
            proof {
                assert(crawl_post(sv, init, series, heading, rr));
            }
            return rr;
        },
    };
    let author_html = match store.get(&author_link) {
        Some(h) => h,
        None => {
            let rr = Err::<CrawlOutput, CrawlError>(
                CrawlError::new(ErrorKind::Fetch, author_link.clone()),
            );
            proof {
                assert(crawl_gives_error(sv, init, series, heading, 0, ErrorKind::Fetch));
                assert(crawl_post(sv, init, series, heading, rr));
            }
            return rr;
        },
    };
    let author_page = match get_stories(author_html.as_str()) {
        Ok(ap) => ap,
        Err(e) => {
            proof {
                assert(crawl_gives_error(sv, init, series, heading, 0, e.kind));
            }
            let rr = Err::<CrawlOutput, CrawlError>(e);
            proof {
                assert(crawl_post(sv, init, series, heading, rr));
            }
            return rr;
        },
    };
    let ghost apv = author_page.deep_view();
    if series {
        let ems = match traverse_series(store, initial_url) {
            Ok(ems) => ems,
            Err(e) => {
                proof {
                    let f1 = choose|f: nat| series_gives_error(sv, init, f, e.kind);
                    assert(series_gives_error(sv, init, f1, e.kind));
                    assert(crawl_gives_error(sv, init, series, heading, f1, e.kind));
                }
                let rr = Err::<CrawlOutput, CrawlError>(e);
                proof {
                    assert(crawl_post(sv, init, series, heading, rr));
                }
                return rr;
            },
        };
        let ghost f1 = choose|f: nat| series_gives(sv, init, f, ems);
        proof {
            assert(series_gives(sv, init, f1, ems));
        }
        let ghost emv = ems.deep_view();
        let mut sections: Vec<Section> = Vec::new();
        let mut i: usize = 0;
        proof {
            assert(sections.deep_view() =~= resolved_prefix(emv.take(0), apv.titles));
        }
        while i < ems.len()
            invariant
                0 <= i <= ems.len(),
                emv == ems.deep_view(),
                apv == author_page.deep_view(),
                sections.deep_view() == resolved_prefix(emv.take(i as int), apv.titles),
                forall|j: int| 0 <= j < i ==> spec_find_title(apv.titles, emv[j].url) is Some,
            decreases ems.len() - i,
        {
            let ghost entry_sections = sections.deep_view();
            let em = &ems[i];
            proof {
                assert(ems.deep_view()[i as int] == emv[i as int]);
            }
            let entry = match find_title(&author_page.titles, &em.url) {
                Some(t) => t,
                None => {
                    proof {
                        lemma_resolve_skip(emv, apv.titles, i as int);
                        assert(emv.skip(i as int)[0] == emv[i as int]);
                        assert(spec_resolve(emv, apv.titles) == Err::<Seq<SectionOutV>, ErrorKind>(
                            ErrorKind::UnknownStory,
                        ));
                        assert(crawl_gives_error(
                            sv,
                            init,
                            series,
                            heading,
                            f1,
                            ErrorKind::UnknownStory,
                        ));
                    }
                    let rr = Err::<CrawlOutput, CrawlError>(
                        CrawlError::new(ErrorKind::UnknownStory, em.url.clone()),
                    );
                    proof {
                        assert(crawl_post(sv, init, series, heading, rr));
                    }
                    return rr;
                },
            };
            let section = Section {
                file_name: section_file_name(&em.title),
                full_title: full_title_line(entry),
                contents: em.contents.clone(),
            };
            proof {
                assert(section.deep_view() == spec_section_of(
                    emv[i as int],
                    spec_find_title(apv.titles, emv[i as int].url)->Some_0,
                ));
            }
            sections.push(section);
            proof {
                assert(sections.deep_view() =~= entry_sections.push(
                    spec_section_of(
                        emv[i as int],
                        spec_find_title(apv.titles, emv[i as int].url)->Some_0,
                    ),
                ));
                assert(resolved_prefix(emv.take(i + 1), apv.titles) =~= resolved_prefix(
                    emv.take(i as int),
                    apv.titles,
                ).push(
                    spec_section_of(
                        emv[i as int],
                        spec_find_title(apv.titles, emv[i as int].url)->Some_0,
                    ),
                )) by {
                    assert forall|j: int| 0 <= j < i + 1 implies resolved_prefix(
                        emv.take(i + 1),
                        apv.titles,
                    )[j] == resolved_prefix(emv.take(i as int), apv.titles).push(
                        spec_section_of(
                            emv[i as int],
                            spec_find_title(apv.titles, emv[i as int].url)->Some_0,
                        ),
                    )[j] by {
                        assert(emv.take(i + 1)[j] == emv[j]);
                        if j < i {
                            assert(emv.take(i as int)[j] == emv[j]);
                        }
                    }
                }
            }
            i += 1;
        }
        let out = CrawlOutput { author: author_page.name, sections };
        proof {
            lemma_resolve_skip(emv, apv.titles, i as int);
            assert(emv.skip(i as int).len() == 0);
            assert(emv.take(i as int) =~= emv);
            assert(resolved_prefix(emv, apv.titles) + Seq::<SectionOutV>::empty() =~= resolved_prefix(
                emv,
                apv.titles,
            ));
            assert(spec_resolve(emv, apv.titles) == Ok::<Seq<SectionOutV>, ErrorKind>(
                out.sections.deep_view(),
            ));
            assert(crawl_gives(sv, init, series, heading, f1, out));
        }
        let rr = Ok::<CrawlOutput, CrawlError>(out);
        proof {
            assert(crawl_gives(sv, init, series, heading, f1, rr->Ok_0));
            assert(crawl_post(sv, init, series, heading, rr));
        }
        rr
    } else {
        let c = match get_chapter(store, initial_url) {
            Ok(c) => c,
            Err(e) => {
                proof {
                    let f1 = choose|f: nat| walk_gives_error(sv, init, f, e.kind);
                    assert(walk_gives_error(sv, init, f1, e.kind));
                    assert(crawl_gives_error(sv, init, series, heading, f1, e.kind));
                }
                let rr = Err::<CrawlOutput, CrawlError>(e);
                proof {
                    assert(crawl_post(sv, init, series, heading, rr));
                }
                return rr;
            },
        };
        let ghost f1 = choose|f: nat| walk_gives_chapter(sv, init, f, c);
        let ghost chain = choose|chain: Seq<Seq<char>>|
            spec_walk(sv, init, true, Seq::empty(), f1) == Some(
                Ok::<Seq<Seq<char>>, ErrorKind>(chain),
            );
        proof {
            assert(walk_gives_chapter(sv, init, f1, c));
            assert(spec_walk(sv, init, true, Seq::empty(), f1) == Some(
                Ok::<Seq<Seq<char>>, ErrorKind>(chain),
            ));
        }
        let entry = match find_title(&author_page.titles, initial_url) {
            Some(t) => t,
            None => {
                proof {
                    assert(crawl_gives_error(
                        sv,
                        init,
                        series,
                        heading,
                        f1,
                        ErrorKind::UnknownStory,
                    ));
                }
                let rr = Err::<CrawlOutput, CrawlError>(
                    CrawlError::new(ErrorKind::UnknownStory, initial_url.clone()),
                );
                proof {
                    assert(crawl_post(sv, init, series, heading, rr));
                }
                return rr;
            },
        };
        let contents = if heading {
            // An assembled chapter always carries a title: its first page
            // had one, or the assembly would have failed.
            let t = match &c.title {
                Some(t) => t.clone(),
                None => {
                    proof {
                        assert(false);
                    }
                    String::new()
                },
            };
            heading_block(t.as_str(), c.body.as_str())
        } else {
            c.body
        };
        let out = CrawlOutput {
            author: author_page.name,
            sections: vec![
                Section {
                    file_name: String::new(),
                    full_title: full_title_line(entry),
                    contents,
                },
            ],
        };
        proof {
            assert(out.sections.deep_view() =~= seq![out.sections[0].deep_view()]);
            assert(crawl_gives(sv, init, series, heading, f1, out));
        }
        let rr = Ok::<CrawlOutput, CrawlError>(out);
        proof {
            assert(crawl_gives(sv, init, series, heading, f1, rr->Ok_0));
            assert(crawl_post(sv, init, series, heading, rr));
        }
        rr
    }
}

/// The concatenation of the sections' contents, in order: the flat,
/// non-packaged output artifact.
pub open spec fn spec_flatten(secs: Seq<SectionOutV>) -> Seq<char>
    decreases secs.len(),
{
    if secs.len() == 0 {
        Seq::empty()
    } else {
        secs[0].contents + spec_flatten(secs.drop_first())
    }
}

proof fn lemma_flatten_push(secs: Seq<SectionOutV>, x: SectionOutV)
    ensures
        spec_flatten(secs.push(x)) == spec_flatten(secs) + x.contents,
    decreases secs.len(),
{
    let p = secs.push(x);
    assert(p[0] == if secs.len() == 0 {
        x
    } else {
        secs[0]
    });
    assert(spec_flatten(p) == p[0].contents + spec_flatten(p.drop_first()));
    if secs.len() == 0 {
        assert(p.drop_first() =~= Seq::<SectionOutV>::empty());
        assert(x.contents + Seq::<char>::empty() =~= x.contents);
        assert(Seq::<char>::empty() + x.contents =~= x.contents);
    } else {
        lemma_flatten_push(secs.drop_first(), x);
        assert(p.drop_first() =~= secs.drop_first().push(x));
        assert(spec_flatten(secs) == secs[0].contents + spec_flatten(secs.drop_first()));
        assert(secs[0].contents + (spec_flatten(secs.drop_first()) + x.contents) =~= (
        secs[0].contents + spec_flatten(secs.drop_first())) + x.contents);
    }
}

/// Concatenates the sections' contents into the flat output artifact.
pub fn flatten_output(out: &CrawlOutput) -> (r: String)
    ensures
        r@ == spec_flatten(out.sections.deep_view()),
{
    let ghost secs = out.sections.deep_view();
    let mut s = String::new();
    let mut i: usize = 0;
    proof {
        assert(secs.take(0) =~= Seq::<SectionOutV>::empty());
    }
    while i < out.sections.len()
        invariant
            0 <= i <= out.sections.len(),
            secs == out.sections.deep_view(),
            s@ == spec_flatten(secs.take(i as int)),
        decreases out.sections.len() - i,
    {
        s.append(out.sections[i].contents.as_str());
        proof {
            lemma_flatten_push(secs.take(i as int), secs[i as int]);
            assert(secs.take(i as int).push(secs[i as int]) =~= secs.take(i + 1));
            assert(out.sections.deep_view()[i as int] == secs[i as int]);
        }
        i += 1;
    }
    proof {
        assert(secs.take(i as int) =~= secs);
    }
    s
}

} // verus!
