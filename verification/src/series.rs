use vstd::prelude::*;

use crate::chapter::{
    concat_bodies, get_chapter, lemma_walk_fuel_mono, spec_walk, store_urls, walk_gives_chapter,
    walk_gives_error,
};
use crate::error::{CrawlError, ErrorKind};
use crate::extract::{extract_series_links, series_links_of, title_of};
use crate::store::{lemma_lookup_index, spec_lookup, vec_contains_string, PageStore};

verus! {

/// The trailing path segment of a URL: what follows the last slash, or the
/// whole string where there is none.
pub open spec fn spec_last_segment(u: Seq<char>) -> Seq<char>
    decreases u.len(),
{
    if u.len() == 0 {
        Seq::empty()
    } else if u.last() == '/' {
        Seq::empty()
    } else {
        spec_last_segment(u.drop_last()).push(u.last())
    }
}

proof fn lemma_last_segment_suffix(u: Seq<char>, i: int)
    requires
        0 <= i <= u.len(),
        i > 0 ==> u[i - 1] == '/',
        forall|j: int| i <= j < u.len() ==> u[j] != '/',
    ensures
        spec_last_segment(u) == u.subrange(i, u.len() as int),
    decreases u.len() - i,
{
    if u.len() == 0 {
        assert(u.subrange(0, 0) =~= Seq::<char>::empty());
    } else if i == u.len() {
        assert(u.last() == '/');
        assert(u.subrange(i, u.len() as int) =~= Seq::<char>::empty());
    } else {
        assert(u.last() != '/');
        lemma_last_segment_suffix(u.drop_last(), i);
        assert(u.drop_last().subrange(i, u.drop_last().len() as int) =~= u.subrange(
            i,
            u.len() - 1,
        ));
        assert(u.subrange(i, u.len() - 1).push(u.last()) =~= u.subrange(i, u.len() as int));
    }
}

/// The trailing path segment of a URL.
pub fn last_path_segment(u: &str) -> (r: String)
    ensures
        r@ == spec_last_segment(u@),
{
    let n = u.unicode_len();
    let mut i: usize = n;
    while i > 0 && u.get_char(i - 1) != '/'
        invariant
            0 <= i <= n,
            n == u@.len(),
            forall|j: int| i <= j < n ==> u@[j] != '/',
        decreases i,
    {
        i -= 1;
    }
    proof {
        lemma_last_segment_suffix(u@, i as int);
    }
    let seg = u.substring_char(i, n);
    String::from_str(seg)
}

/// The heading shown for a chapter: its extracted title where there is
/// one, else the trailing path segment of the URL, else a fixed
/// placeholder where that segment is empty.
pub open spec fn spec_heading_title(title: Option<Seq<char>>, url: Seq<char>) -> Seq<char> {
    match title {
        Some(t) => t,
        None => if spec_last_segment(url).len() > 0 {
            spec_last_segment(url)
        } else {
            "Unknown story"@
        },
    }
}

/// Synthesizes the heading for a chapter from its extracted title, falling
/// back to the trailing path segment of the URL, then to a fixed
/// placeholder.
pub fn synth_heading(title: &Option<String>, url: &String) -> (r: String)
    ensures
        r@ == spec_heading_title(title.deep_view(), url@),
{
    match title {
        Some(t) => t.clone(),
        None => {
            let seg = last_path_segment(url.as_str());
            if seg.unicode_len() > 0 {
                seg
            } else {
                String::from_str("Unknown story")
            }
        },
    }
}

/// A chapter body with its heading prepended as a heading block.
pub open spec fn spec_heading_block(title: Seq<char>, body: Seq<char>) -> Seq<char> {
    "<h1>"@ + title + "</h1>"@ + body
}

/// Prepends a heading block to a chapter body.
pub fn heading_block(title: &str, body: &str) -> (r: String)
    ensures
        r@ == spec_heading_block(title@, body@),
{
    let mut s = String::new();
    s.append("<h1>");
    s.append(title);
    s.append("</h1>");
    s.append(body);
    proof {
        assert(s@ =~= spec_heading_block(title@, body@));
    }
    s
}

/// The first of the links, in order, that is not yet in `seen`.
pub open spec fn spec_first_unvisited(links: Seq<Seq<char>>, seen: Seq<Seq<char>>) -> Option<
    Seq<char>,
>
    decreases links.len(),
{
    if links.len() == 0 {
        None
    } else if !seen.contains(links[0]) {
        Some(links[0])
    } else {
        spec_first_unvisited(links.drop_first(), seen)
    }
}

proof fn lemma_first_unvisited_skip(links: Seq<Seq<char>>, seen: Seq<Seq<char>>, i: int)
    requires
        0 <= i <= links.len(),
        forall|j: int| 0 <= j < i ==> seen.contains(links[j]),
    ensures
        spec_first_unvisited(links, seen) == spec_first_unvisited(links.skip(i), seen),
    decreases i,
{
    if i > 0 {
        lemma_first_unvisited_skip(links.drop_first(), seen, i - 1);
        assert(links.drop_first().skip(i - 1) =~= links.skip(i));
    } else {
        assert(links.skip(0) =~= links);
    }
}

/// What a first-unvisited choice returns is never already seen.
pub proof fn lemma_first_unvisited_not_in(links: Seq<Seq<char>>, seen: Seq<Seq<char>>)
    ensures
        spec_first_unvisited(links, seen) matches Some(l) ==> !seen.contains(l),
    decreases links.len(),
{
    if links.len() > 0 && seen.contains(links[0]) {
        lemma_first_unvisited_not_in(links.drop_first(), seen);
    }
}

/// Picks the next chapter of a series from a chapter's last page: the first
/// series link, in document order, that is not already in `seen`.
pub fn get_next_chapter(html: &str, seen: &Vec<String>) -> (r: Option<String>)
    ensures
        r.deep_view() == spec_first_unvisited(series_links_of(html@), seen.deep_view()),
{
    let links = extract_series_links(html);
    let ghost lv = series_links_of(html@);
    let mut i: usize = 0;
    while i < links.len()
        invariant
            0 <= i <= links.len(),
            lv == series_links_of(html@),
            links.deep_view() == lv,
            forall|j: int| 0 <= j < i ==> seen.deep_view().contains(lv[j]),
        decreases links.len() - i,
    {
        if !vec_contains_string(seen, &links[i]) {
            let out: Option<String> = Some(links[i].clone());
            proof {
                lemma_first_unvisited_skip(lv, seen.deep_view(), i as int);
                assert(lv.skip(i as int).len() > 0);
                assert(lv.skip(i as int)[0] == lv[i as int]);
                assert(lv[i as int] == links.deep_view()[i as int]);
                assert(!seen.deep_view().contains(lv.skip(i as int)[0]));
                assert(spec_first_unvisited(lv.skip(i as int), seen.deep_view()) == Some(
                    lv[i as int],
                ));
                assert(spec_first_unvisited(lv, seen.deep_view()) == Some(lv[i as int]));
                assert(out.deep_view() == Some(lv[i as int]));
            }
            return out;
        }
        i += 1;
    }
    proof {
        lemma_first_unvisited_skip(lv, seen.deep_view(), i as int);
        assert(lv.skip(i as int).len() == 0);
    }
    None
}

/// One emitted chapter of a series walk: the chapter's URL, its synthesized
/// heading, and its body with the heading block prepended.
#[derive(Debug)]
pub struct ChapterSection {
    pub url: String,
    pub title: String,
    pub contents: String,
}

/// The mathematical shape of an emitted chapter.
pub ghost struct SectionV {
    pub url: Seq<char>,
    pub title: Seq<char>,
    pub contents: Seq<char>,
}

impl DeepView for ChapterSection {
    type V = SectionV;

    open spec fn deep_view(&self) -> SectionV {
        SectionV { url: self.url@, title: self.title@, contents: self.contents@ }
    }
}

/// What the series traversal yields from `url` on, with `visited` already
/// walked and `fuel` more chapters allowed: the emitted sections in walk
/// order, or the error that stops it, or nothing when the fuel runs out
/// first. Each chapter is assembled by a page walk; the next chapter is the
/// first series link of the chapter's last page that is not yet visited;
/// traversal is done when no such link remains.
pub open spec fn spec_series(
    store: Seq<(Seq<char>, Seq<char>)>,
    url: Seq<char>,
    visited: Seq<Seq<char>>,
    fuel: nat,
) -> Option<Result<Seq<SectionV>, ErrorKind>>
    decreases fuel,
{
    match spec_walk(store, url, true, Seq::empty(), fuel) {
        None => None,
        Some(Err(k)) => Some(Err(k)),
        Some(Ok(chain)) => {
            let title = title_of(chain[0])->Some_0;
            let section = SectionV {
                url,
                title,
                contents: spec_heading_block(title, concat_bodies(chain)),
            };
            let new_visited = visited.push(url);
            match spec_first_unvisited(series_links_of(chain.last()), new_visited) {
                None => Some(Ok(seq![section])),
                Some(next) => if fuel == 0 {
                    None
                } else {
                    match spec_series(store, next, new_visited, (fuel - 1) as nat) {
                        None => None,
                        Some(Err(k)) => Some(Err(k)),
                        Some(Ok(rest)) => Some(Ok(seq![section] + rest)),
                    }
                },
            }
        },
    }
}

/// A series walk that ends within its fuel ends the same way with any
/// more fuel.
pub proof fn lemma_series_fuel_mono(
    store: Seq<(Seq<char>, Seq<char>)>,
    url: Seq<char>,
    visited: Seq<Seq<char>>,
    f1: nat,
    f2: nat,
)
    requires
        f1 <= f2,
        spec_series(store, url, visited, f1) is Some,
    ensures
        spec_series(store, url, visited, f2) == spec_series(store, url, visited, f1),
    decreases f1,
{
    match spec_walk(store, url, true, Seq::empty(), f1) {
        None => {},
        Some(Err(_)) => {
            lemma_walk_fuel_mono(store, url, true, Seq::empty(), f1, f2);
        },
        Some(Ok(chain)) => {
            lemma_walk_fuel_mono(store, url, true, Seq::empty(), f1, f2);
            match spec_first_unvisited(series_links_of(chain.last()), visited.push(url)) {
                None => {},
                Some(next) => {
                    lemma_series_fuel_mono(
                        store,
                        next,
                        visited.push(url),
                        (f1 - 1) as nat,
                        (f2 - 1) as nat,
                    );
                },
            }
        },
    }
}

/// Law: a series walk that succeeds visits every chapter exactly once.
/// The emitted sections start at the given URL, carry pairwise distinct
/// URLs, and never revisit a URL already in `visited`: a URL appearing
/// twice in the series link graph ends the traversal instead of looping.
pub proof fn lemma_series_visits_each_url_once(
    store: Seq<(Seq<char>, Seq<char>)>,
    url: Seq<char>,
    visited: Seq<Seq<char>>,
    fuel: nat,
    out: Seq<SectionV>,
)
    requires
        !visited.contains(url),
        spec_series(store, url, visited, fuel) == Some(Ok::<Seq<SectionV>, ErrorKind>(out)),
    ensures
        out.len() > 0 && out[0].url == url,
        forall|i: int, j: int| 0 <= i < j < out.len() ==> out[i].url != out[j].url,
        forall|i: int| 0 <= i < out.len() ==> !visited.contains(#[trigger] out[i].url),
    decreases fuel,
{
    broadcast use vstd::seq_lib::lemma_seq_contains_after_push;

    let walked = spec_walk(store, url, true, Seq::empty(), fuel);
    match walked {
        Some(Ok(chain)) => {
            let new_visited = visited.push(url);
            match spec_first_unvisited(series_links_of(chain.last()), new_visited) {
                None => {},
                Some(next) => {
                    lemma_first_unvisited_not_in(series_links_of(chain.last()), new_visited);
                    let rest = spec_series(store, next, new_visited, (fuel - 1) as nat)->Some_0
                        ->Ok_0;
                    lemma_series_visits_each_url_once(
                        store,
                        next,
                        new_visited,
                        (fuel - 1) as nat,
                        rest,
                    );
                    assert forall|i: int, j: int| 0 <= i < j < out.len() implies out[i].url
                        != out[j].url by {
                        if i > 0 {
                            assert(out[i] == rest[i - 1] && out[j] == rest[j - 1]);
                        } else {
                            assert(out[j] == rest[j - 1]);
                            assert(!new_visited.contains(rest[j - 1].url));
                        }
                    }
                    assert forall|i: int| 0 <= i < out.len() implies !visited.contains(
                        #[trigger] out[i].url,
                    ) by {
                        if i > 0 {
                            assert(out[i] == rest[i - 1]);
                            assert(!new_visited.contains(rest[i - 1].url));
                        }
                    }
                },
            }
        },
        _ => {},
    }
}

/// Prefixing a series outcome with already-emitted sections.
pub open spec fn lift_series(
    prefix: Seq<SectionV>,
    res: Result<Seq<SectionV>, ErrorKind>,
) -> Result<Seq<SectionV>, ErrorKind> {
    match res {
        Ok(rest) => Ok(prefix + rest),
        Err(e) => Err(e),
    }
}

/// Some fueled series walk from `url` with nothing visited emits exactly
/// the sections `out`.
pub open spec fn series_gives(
    store: Seq<(Seq<char>, Seq<char>)>,
    url: Seq<char>,
    fuel: nat,
    out: Vec<ChapterSection>,
) -> bool {
    spec_series(store, url, Seq::empty(), fuel) == Some(
        Ok::<Seq<SectionV>, ErrorKind>(out.deep_view()),
    )
}

/// Some fueled series walk from `url` with nothing visited stops with the
/// error kind `k`.
pub open spec fn series_gives_error(
    store: Seq<(Seq<char>, Seq<char>)>,
    url: Seq<char>,
    fuel: nat,
    k: ErrorKind,
) -> bool {
    spec_series(store, url, Seq::empty(), fuel) == Some(Err::<Seq<SectionV>, ErrorKind>(k))
}

/// Walks a series of chapters from `initial_url` on: assembles each
/// chapter, prepends its heading block, and follows the first not yet
/// visited series link of the chapter's last page, so that a cycle in the
/// series graph ends the traversal instead of looping. The result is
/// exactly what some fueled series walk yields.
/// The contract of a series traversal: its result is exactly what some
/// fueled series walk from the initial URL yields.
pub open spec fn traverse_post(
    store: Seq<(Seq<char>, Seq<char>)>,
    url: Seq<char>,
    r: Result<Vec<ChapterSection>, CrawlError>,
) -> bool {
    match r {
        Ok(out) => exists|fuel: nat| #[trigger] series_gives(store, url, fuel, out),
        Err(e) => exists|fuel: nat| #[trigger] series_gives_error(store, url, fuel, e.kind),
    }
}

pub fn traverse_series(store: &PageStore, initial_url: &String) -> (r: Result<
    Vec<ChapterSection>,
    CrawlError,
>)
    ensures
        traverse_post(store@, initial_url@, r),
{
    let ghost sv = store@;
    let ghost init = initial_url@;
    let mut seen: Vec<String> = Vec::new();
    let mut out: Vec<ChapterSection> = Vec::new();
    let mut url: String = initial_url.clone();
    let ghost mut steps: nat = 0;
    proof {
        assert(seen.deep_view() =~= Seq::<Seq<char>>::empty());
        assert(out.deep_view() =~= Seq::<SectionV>::empty());
        assert forall|f: nat|
            (#[trigger] spec_series(sv, init, Seq::empty(), f)) is Some implies spec_series(
            sv,
            init,
            Seq::empty(),
            f + 0,
        ) == Some(lift_series(Seq::empty(), spec_series(sv, init, Seq::empty(), f)->Some_0)) by {
            match spec_series(sv, init, Seq::empty(), f)->Some_0 {
                Ok(rest) => {
                    assert(Seq::<SectionV>::empty() + rest =~= rest);
                },
                Err(_) => {},
            }
        }
    }
    loop
        invariant
            sv == store@,
            init == initial_url@,
            !seen.deep_view().contains(url@),
            forall|f: nat|
                (#[trigger] spec_series(sv, url@, seen.deep_view(), f)) is Some ==> spec_series(
                    sv,
                    init,
                    Seq::empty(),
                    f + steps,
                ) == Some(
                    lift_series(out.deep_view(), spec_series(sv, url@, seen.deep_view(), f)->Some_0),
                ),
        decreases store_urls(sv).difference(seen.deep_view().to_set()).len(),
    {
        let ghost entry_url = url@;
        let ghost entry_seen = seen.deep_view();
        let ghost entry_out = out.deep_view();
        let ghost entry_steps = steps;
        seen.push(url.clone());
        proof {
            assert(seen.deep_view() =~= entry_seen.push(entry_url));
        }
        let c = match get_chapter(store, &url) {
            Ok(c) => c,
            Err(e) => {
                proof {
                    let f1 = choose|f: nat| walk_gives_error(sv, entry_url, f, e.kind);
                    assert(walk_gives_error(sv, entry_url, f1, e.kind));
                    assert(spec_series(sv, entry_url, entry_seen, f1) == Some(
                        Err::<Seq<SectionV>, ErrorKind>(e.kind),
                    ));
                    assert(spec_series(sv, init, Seq::empty(), f1 + entry_steps) == Some(
                        Err::<Seq<SectionV>, ErrorKind>(e.kind),
                    ));
                    assert(series_gives_error(sv, init, f1 + entry_steps, e.kind));
                    assert(traverse_post(sv, init, Err::<Vec<ChapterSection>, CrawlError>(e)));
                }
                return Err(e);
            },
        };
        let ghost f1 = choose|f: nat| walk_gives_chapter(sv, entry_url, f, c);
        proof {
            assert(walk_gives_chapter(sv, entry_url, f1, c));
        }
        let heading = synth_heading(&c.title, initial_url);
        let contents = heading_block(heading.as_str(), c.body.as_str());
        let section = ChapterSection { url: url.clone(), title: heading, contents };
        let ghost section_v = section.deep_view();
        out.push(section);
        proof {
            assert(out.deep_view() =~= entry_out.push(section_v));
            let chain = choose|chain: Seq<Seq<char>>|
                spec_walk(sv, entry_url, true, Seq::empty(), f1) == Some(
                    Ok::<Seq<Seq<char>>, ErrorKind>(chain),
                );
            assert(spec_walk(sv, entry_url, true, Seq::empty(), f1) == Some(
                Ok::<Seq<Seq<char>>, ErrorKind>(chain),
            ));
            assert(section_v.title == title_of(chain[0])->Some_0);
            assert(section_v.contents == spec_heading_block(
                title_of(chain[0])->Some_0,
                concat_bodies(chain),
            ));
        }
        match get_next_chapter(c.last.as_str(), &seen) {
            Some(n) => {
                proof {
                    broadcast use vstd::set::group_set_axioms, vstd::seq_lib::seq_to_set_is_finite, vstd::seq_lib::lemma_seq_contains_after_push;

                    let chain = choose|chain: Seq<Seq<char>>|
                        spec_walk(sv, entry_url, true, Seq::empty(), f1) == Some(
                            Ok::<Seq<Seq<char>>, ErrorKind>(chain),
                        );
                    let seen_new = seen.deep_view();
                    assert(spec_first_unvisited(series_links_of(chain.last()), seen_new) == Some(
                        n@,
                    ));
                    lemma_first_unvisited_not_in(series_links_of(chain.last()), seen_new);
                    assert(!seen_new.contains(n@));
                    steps = entry_steps + f1 + 1;
                    assert forall|f: nat|
                        (#[trigger] spec_series(sv, n@, seen_new, f)) is Some implies spec_series(
                        sv,
                        init,
                        Seq::empty(),
                        f + steps,
                    ) == Some(
                        lift_series(out.deep_view(), spec_series(sv, n@, seen_new, f)->Some_0),
                    ) by {
                        let res = spec_series(sv, n@, seen_new, f)->Some_0;
                        lemma_series_fuel_mono(sv, n@, seen_new, f, f + f1);
                        lemma_walk_fuel_mono(
                            sv,
                            entry_url,
                            true,
                            Seq::empty(),
                            f1,
                            (f + f1 + 1) as nat,
                        );
                        assert(spec_series(sv, entry_url, entry_seen, (f + f1 + 1) as nat) == (
                        match res {
                            Err(k) => Some(Err::<Seq<SectionV>, ErrorKind>(k)),
                            Ok(rest) => Some(Ok::<Seq<SectionV>, ErrorKind>(seq![section_v] + rest)),
                        }));
                        assert(spec_series(sv, init, Seq::empty(), ((f + f1 + 1) + entry_steps) as nat)
                            == Some(
                            lift_series(
                                entry_out,
                                spec_series(sv, entry_url, entry_seen, (f + f1 + 1) as nat)->Some_0,
                            ),
                        ));
                        assert((f + f1 + 1) + entry_steps == f + steps);
                        match res {
                            Err(_) => {},
                            Ok(rest) => {
                                assert(entry_out + (seq![section_v] + rest) =~= out.deep_view()
                                    + rest);
                            },
                        }
                    }
                    // The walked URL leaves the unvisited set, so the loop measure falls.
                    assert(spec_lookup(sv, entry_url) is Some);
                    let j = lemma_lookup_index(sv, entry_url);
                    assert(sv.map_values(|p: (Seq<char>, Seq<char>)| p.0)[j] == entry_url);
                    assert(sv.map_values(|p: (Seq<char>, Seq<char>)| p.0).contains(entry_url));
                    assert(store_urls(sv).contains(entry_url));
                    assert(seen_new.to_set() =~= entry_seen.to_set().insert(entry_url));
                    assert(store_urls(sv).difference(seen_new.to_set()) =~= store_urls(
                        sv,
                    ).difference(entry_seen.to_set()).remove(entry_url));
                    assert(store_urls(sv).difference(entry_seen.to_set()).contains(entry_url));
                    assert(store_urls(sv).finite());
                    assert(store_urls(sv).difference(entry_seen.to_set()).finite());
                    assert(store_urls(sv).difference(entry_seen.to_set()).remove(entry_url).len()
                        == store_urls(sv).difference(entry_seen.to_set()).len() - 1);
                }
                url = n;
            },
            None => {
                proof {
                    let chain = choose|chain: Seq<Seq<char>>|
                        spec_walk(sv, entry_url, true, Seq::empty(), f1) == Some(
                            Ok::<Seq<Seq<char>>, ErrorKind>(chain),
                        );
                    let seen_new = seen.deep_view();
                    assert(spec_first_unvisited(series_links_of(chain.last()), seen_new) is None);
                    assert(spec_series(sv, entry_url, entry_seen, f1) == Some(
                        Ok::<Seq<SectionV>, ErrorKind>(seq![section_v]),
                    ));
                    assert(spec_series(sv, init, Seq::empty(), f1 + entry_steps) == Some(
                        lift_series(entry_out, Ok(seq![section_v])),
                    ));
                    assert(entry_out + seq![section_v] =~= out.deep_view());
                    assert(series_gives(sv, init, f1 + entry_steps, out));
                    let rr = Ok::<Vec<ChapterSection>, CrawlError>(out);
                    assert(rr->Ok_0 == out);
                    assert(series_gives(sv, init, f1 + entry_steps, rr->Ok_0));
                    assert(traverse_post(sv, init, rr));
                }
                return Ok(out);
            },
        }
    }
}

} // verus!
