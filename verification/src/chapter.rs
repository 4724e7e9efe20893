use vstd::prelude::*;

use crate::error::{CrawlError, ErrorKind};
use crate::extract::{body_of, next_page_of, title_of};
use crate::page::{get_contents, get_title};
use crate::store::{lemma_lookup_index, spec_lookup, vec_contains_string, PageStore};

verus! {

/// The growing state of one chapter assembly: whether the first page has
/// been consumed, the title captured there, and the body accumulated so far.
#[derive(Debug)]
pub struct ChapterBuild {
    pub started: bool,
    pub title: Option<String>,
    pub body: String,
}

/// One assembled chapter: its title, its accumulated body, and the text of
/// its last page, which the series traversal reads for series links.
#[derive(Debug)]
pub struct ChapterResult {
    pub title: Option<String>,
    pub body: String,
    pub last: String,
}

/// The story-body fragment of a page, or empty where there is none.
pub open spec fn body_or_empty(html: Seq<char>) -> Seq<char> {
    match body_of(html) {
        Some(b) => b,
        None => Seq::empty(),
    }
}

/// The ordered concatenation of the story bodies of a page chain.
pub open spec fn concat_bodies(chain: Seq<Seq<char>>) -> Seq<char>
    decreases chain.len(),
{
    if chain.len() == 0 {
        Seq::empty()
    } else {
        body_or_empty(chain[0]) + concat_bodies(chain.drop_first())
    }
}

proof fn lemma_concat_push(chain: Seq<Seq<char>>, x: Seq<char>)
    ensures
        concat_bodies(chain.push(x)) == concat_bodies(chain) + body_or_empty(x),
    decreases chain.len(),
{
    let p = chain.push(x);
    assert(p.len() == chain.len() + 1);
    assert(p[0] == if chain.len() == 0 {
        x
    } else {
        chain[0]
    });
    assert(concat_bodies(p) == body_or_empty(p[0]) + concat_bodies(p.drop_first()));
    if chain.len() == 0 {
        assert(p.drop_first() =~= Seq::<Seq<char>>::empty());
        assert(concat_bodies(p.drop_first()) == Seq::<char>::empty());
        assert(concat_bodies(chain) == Seq::<char>::empty());
        assert(body_or_empty(x) + Seq::<char>::empty() =~= body_or_empty(x));
        assert(Seq::<char>::empty() + body_or_empty(x) =~= body_or_empty(x));
    } else {
        lemma_concat_push(chain.drop_first(), x);
        assert(p.drop_first() =~= chain.drop_first().push(x));
        assert(concat_bodies(chain) == body_or_empty(chain[0]) + concat_bodies(chain.drop_first()));
        assert(body_or_empty(chain[0]) + (concat_bodies(chain.drop_first()) + body_or_empty(x))
            =~= (body_or_empty(chain[0]) + concat_bodies(chain.drop_first())) + body_or_empty(x));
    }
}

/// What the pagination loop yields from `url` on, given `fuel` more
/// "next page" steps to take: the chain of page texts it walks, or the
/// error that stops it, or nothing when the fuel runs out first. `first`
/// marks the first page of the chapter, where the title must be
/// extractable; `visited` holds the pages already walked in this chapter,
/// and reaching one of them again is rejected as a malformed pagination
/// cycle.
pub open spec fn spec_walk(
    store: Seq<(Seq<char>, Seq<char>)>,
    url: Seq<char>,
    first: bool,
    visited: Seq<Seq<char>>,
    fuel: nat,
) -> Option<Result<Seq<Seq<char>>, ErrorKind>>
    decreases fuel,
{
    if visited.contains(url) {
        Some(Err(ErrorKind::Extraction))
    } else {
        match spec_lookup(store, url) {
            None => Some(Err(ErrorKind::Fetch)),
            Some(html) => if first && title_of(html) is None {
                Some(Err(ErrorKind::Extraction))
            } else if body_of(html) is None {
                Some(Err(ErrorKind::MissingContent))
            } else {
                match next_page_of(html) {
                    None => Some(Ok(seq![html])),
                    Some(n) => if fuel == 0 {
                        None
                    } else {
                        match spec_walk(store, n, false, visited.push(url), (fuel - 1) as nat) {
                            None => None,
                            Some(Err(e)) => Some(Err(e)),
                            Some(Ok(rest)) => Some(Ok(seq![html] + rest)),
                        }
                    },
                }
            },
        }
    }
}

/// A walk that ends within its fuel ends the same way with any more fuel.
pub proof fn lemma_walk_fuel_mono(
    store: Seq<(Seq<char>, Seq<char>)>,
    url: Seq<char>,
    first: bool,
    visited: Seq<Seq<char>>,
    f1: nat,
    f2: nat,
)
    requires
        f1 <= f2,
        spec_walk(store, url, first, visited, f1) is Some,
    ensures
        spec_walk(store, url, first, visited, f2) == spec_walk(store, url, first, visited, f1),
    decreases f1,
{
    if !visited.contains(url) {
        match spec_lookup(store, url) {
            None => {},
            Some(html) => {
                if !(first && title_of(html) is None) && body_of(html) is Some {
                    match next_page_of(html) {
                        None => {},
                        Some(n) => {
                            lemma_walk_fuel_mono(
                                store,
                                n,
                                false,
                                visited.push(url),
                                (f1 - 1) as nat,
                                (f2 - 1) as nat,
                            );
                        },
                    }
                }
            },
        }
    }
}

/// Prefixing a walk outcome with already-walked pages.
pub open spec fn lift_walk(
    prefix: Seq<Seq<char>>,
    res: Result<Seq<Seq<char>>, ErrorKind>,
) -> Result<Seq<Seq<char>>, ErrorKind> {
    match res {
        Ok(rest) => Ok(prefix + rest),
        Err(e) => Err(e),
    }
}

/// The set of URLs the store has pages for.
pub open spec fn store_urls(store: Seq<(Seq<char>, Seq<char>)>) -> Set<Seq<char>> {
    store.map_values(|p: (Seq<char>, Seq<char>)| p.0).to_set()
}

impl ChapterBuild {
    /// A chapter assembly that has consumed nothing yet.
    pub fn new() -> (r: ChapterBuild)
        ensures
            !r.started,
            r.title is None,
            r.body@ == Seq::<char>::empty(),
    {
        ChapterBuild { started: false, title: None, body: String::new() }
    }
}

/// One pagination step of the Chapter Assembler: consumes one fetched page,
/// captures the title on the first page, appends the page's story body, and
/// returns the "next page" link to follow, if any. A first page without a
/// title is an extraction error; a page without a story body is a
/// missing-content error; either leaves the state untouched.
pub fn chapter_step(st: &mut ChapterBuild, html: &str) -> (r: Result<Option<String>, CrawlError>)
    ensures
        match r {
            Ok(next) => {
                &&& !(!old(st).started && title_of(html@) is None)
                &&& body_of(html@) is Some
                &&& final(st).started
                &&& (old(st).started ==> final(st).title == old(st).title)
                &&& (!old(st).started ==> final(st).title.deep_view() == title_of(html@))
                &&& final(st).body@ == old(st).body@ + body_of(html@)->Some_0
                &&& next.deep_view() == next_page_of(html@)
            },
            Err(e) => {
                &&& *final(st) == *old(st)
                &&& ((!old(st).started && title_of(html@) is None) || body_of(html@) is None)
                &&& (if !old(st).started && title_of(html@) is None {
                    e.kind == ErrorKind::Extraction
                } else {
                    e.kind == ErrorKind::MissingContent && body_of(html@) is None
                })
            },
        },
{
    let mut new_title: Option<String> = None;
    if !st.started {
        match get_title(html) {
            Ok(t) => {
                new_title = Some(t);
            },
            Err(e) => {
                return Err(e);
            },
        }
    }
    match get_contents(html) {
        Ok((frag, next)) => {
            if !st.started {
                st.title = new_title;
            }
            st.started = true;
            st.body.append(frag.as_str());
            Ok(next)
        },
        Err(e) => Err(e),
    }
}

/// Some fueled walk from `url` yields exactly the pages whose title, body
/// concatenation and last page the chapter result `c` carries.
pub open spec fn walk_gives_chapter(
    store: Seq<(Seq<char>, Seq<char>)>,
    url: Seq<char>,
    fuel: nat,
    c: ChapterResult,
) -> bool {
    spec_walk(store, url, true, Seq::empty(), fuel) matches Some(Ok(chain)) && chain.len() > 0
        && title_of(chain[0]) is Some && c.title.deep_view() == title_of(chain[0]) && c.body@
        == concat_bodies(chain) && c.last@ == chain.last()
}

/// Some fueled walk from `url` stops with the error kind `k`.
pub open spec fn walk_gives_error(
    store: Seq<(Seq<char>, Seq<char>)>,
    url: Seq<char>,
    fuel: nat,
    k: ErrorKind,
) -> bool {
    spec_walk(store, url, true, Seq::empty(), fuel) == Some(Err::<Seq<Seq<char>>, ErrorKind>(k))
}

/// Assembles one chapter from its first page on, following "next page"
/// links through the store: the result is exactly what some fueled walk
/// from `initial_url` yields, its body the ordered concatenation of the
/// walked pages' bodies in walk order. A "next page" link back to a page
/// already walked in this chapter indicates a malformed pagination cycle
/// and is rejected as an extraction error.
pub fn get_chapter(store: &PageStore, initial_url: &String) -> (r: Result<
    ChapterResult,
    CrawlError,
>)
    ensures
        match r {
            Ok(c) => exists|fuel: nat| #[trigger] walk_gives_chapter(
                store@,
                initial_url@,
                fuel,
                c,
            ),
            Err(e) => exists|fuel: nat| #[trigger] walk_gives_error(
                store@,
                initial_url@,
                fuel,
                e.kind,
            ),
        },
{
    let ghost sv = store@;
    let ghost init = initial_url@;
    let mut st = ChapterBuild::new();
    let mut cursor: String = initial_url.clone();
    let mut seen: Vec<String> = Vec::new();
    let ghost mut prefix: Seq<Seq<char>> = Seq::empty();
    let ghost mut cur_first: bool = true;
    proof {
        broadcast use vstd::set::group_set_axioms, vstd::seq_lib::seq_to_set_is_finite;

        assert(seen.deep_view() =~= Seq::<Seq<char>>::empty());
        assert forall|f: nat|
            (#[trigger] spec_walk(sv, init, true, Seq::empty(), f)) is Some implies spec_walk(
            sv,
            init,
            true,
            Seq::empty(),
            f + 0,
        ) == Some(lift_walk(Seq::empty(), spec_walk(sv, init, true, Seq::empty(), f)->Some_0)) by {
            match spec_walk(sv, init, true, Seq::empty(), f)->Some_0 {
                Ok(rest) => {
                    assert(Seq::<Seq<char>>::empty() + rest =~= rest);
                },
                Err(_) => {},
            }
        }
    }
    loop
        invariant
            sv == store@,
            init == initial_url@,
            st.started <==> prefix.len() > 0,
            cur_first <==> !st.started,
            st.body@ == concat_bodies(prefix),
            prefix.len() > 0 ==> title_of(prefix[0]) is Some && st.title.deep_view() == title_of(
                prefix[0],
            ),
            prefix.len() == 0 ==> st.title is None,
            forall|f: nat|
                (#[trigger] spec_walk(sv, cursor@, cur_first, seen.deep_view(), f)) is Some
                    ==> spec_walk(sv, init, true, Seq::empty(), f + prefix.len()) == Some(
                    lift_walk(prefix, spec_walk(sv, cursor@, cur_first, seen.deep_view(), f)->Some_0),
                ),
        decreases store_urls(sv).difference(seen.deep_view().to_set()).len(),
    {
        let ghost entry_cursor = cursor@;
        let ghost entry_first = cur_first;
        let ghost entry_seen = seen.deep_view();
        let ghost entry_prefix = prefix;
        if vec_contains_string(&seen, &cursor) {
            proof {
                assert(spec_walk(sv, entry_cursor, entry_first, entry_seen, 0) == Some(
                    Err::<Seq<Seq<char>>, ErrorKind>(ErrorKind::Extraction),
                ));
                assert(spec_walk(sv, init, true, Seq::empty(), 0 + entry_prefix.len()) == Some(
                    Err::<Seq<Seq<char>>, ErrorKind>(ErrorKind::Extraction),
                ));
                assert(walk_gives_error(sv, init, entry_prefix.len(), ErrorKind::Extraction));
            }
            return Err(CrawlError::new(ErrorKind::Extraction, cursor));
        }
        let html = match store.get(&cursor) {
            Some(h) => h,
            None => {
                proof {
                    assert(spec_walk(sv, entry_cursor, entry_first, entry_seen, 0) == Some(
                        Err::<Seq<Seq<char>>, ErrorKind>(ErrorKind::Fetch),
                    ));
                    assert(spec_walk(sv, init, true, Seq::empty(), 0 + entry_prefix.len()) == Some(
                        Err::<Seq<Seq<char>>, ErrorKind>(ErrorKind::Fetch),
                    ));
                    assert(walk_gives_error(sv, init, entry_prefix.len(), ErrorKind::Fetch));
                }
                return Err(CrawlError::new(ErrorKind::Fetch, cursor));
            },
        };
        seen.push(cursor.clone());
        proof {
            assert(seen.deep_view() =~= entry_seen.push(entry_cursor));
        }
        let next = match chapter_step(&mut st, html.as_str()) {
            Ok(n) => n,
            Err(e) => {
                proof {
                    assert(spec_walk(sv, entry_cursor, entry_first, entry_seen, 0) == Some(
                        Err::<Seq<Seq<char>>, ErrorKind>(e.kind),
                    ));
                    assert(spec_walk(sv, init, true, Seq::empty(), 0 + entry_prefix.len()) == Some(
                        Err::<Seq<Seq<char>>, ErrorKind>(e.kind),
                    ));
                    assert(walk_gives_error(sv, init, entry_prefix.len(), e.kind));
                }
                return Err(e);
            },
        };
        match next {
            Some(n) => {
                proof {
                    broadcast use vstd::set::group_set_axioms, vstd::seq_lib::seq_to_set_is_finite, vstd::seq_lib::lemma_seq_contains_after_push;

                    prefix = entry_prefix.push(html@);
                    cur_first = false;
                    lemma_concat_push(entry_prefix, html@);
                    let seen_new = seen.deep_view();
                    assert forall|f: nat|
                        (#[trigger] spec_walk(sv, n@, false, seen_new, f)) is Some implies spec_walk(
                        sv,
                        init,
                        true,
                        Seq::empty(),
                        f + prefix.len(),
                    ) == Some(lift_walk(prefix, spec_walk(sv, n@, false, seen_new, f)->Some_0)) by {
                        let res = spec_walk(sv, n@, false, seen_new, f)->Some_0;
                        assert(spec_walk(sv, entry_cursor, entry_first, entry_seen, f + 1) == (
                        match res {
                            Err(e) => Some(Err::<Seq<Seq<char>>, ErrorKind>(e)),
                            Ok(rest) => Some(Ok::<Seq<Seq<char>>, ErrorKind>(seq![html@] + rest)),
                        }));
                        assert(spec_walk(sv, init, true, Seq::empty(), (f + 1) + entry_prefix.len())
                            == Some(
                            lift_walk(
                                entry_prefix,
                                spec_walk(sv, entry_cursor, entry_first, entry_seen, f + 1)->Some_0,
                            ),
                        ));
                        assert((f + 1) + entry_prefix.len() == f + prefix.len());
                        match res {
                            Err(_) => {},
                            Ok(rest) => {
                                assert(entry_prefix + (seq![html@] + rest) =~= prefix + rest);
                            },
                        }
                    }
                    // The walked URL leaves the unvisited set, so the loop measure falls.
                    let j = lemma_lookup_index(sv, entry_cursor);
                    assert(sv.map_values(|p: (Seq<char>, Seq<char>)| p.0)[j] == entry_cursor);
                    assert(sv.map_values(|p: (Seq<char>, Seq<char>)| p.0).contains(entry_cursor));
                    assert(store_urls(sv).contains(entry_cursor));
                    assert(seen.deep_view().to_set() =~= entry_seen.to_set().insert(entry_cursor));
                    assert(store_urls(sv).difference(seen.deep_view().to_set())
                        =~= store_urls(sv).difference(entry_seen.to_set()).remove(entry_cursor));
                    assert(store_urls(sv).difference(entry_seen.to_set()).contains(entry_cursor));
                    assert(store_urls(sv).finite());
                    assert(store_urls(sv).difference(entry_seen.to_set()).finite());
                    assert(store_urls(sv).difference(entry_seen.to_set()).remove(entry_cursor).len()
                        == store_urls(sv).difference(entry_seen.to_set()).len() - 1);
                }
                cursor = n;
            },
            None => {
                let result = ChapterResult { title: st.title, body: st.body, last: html.clone() };
                proof {
                    let chain = entry_prefix.push(html@);
                    assert(spec_walk(sv, entry_cursor, entry_first, entry_seen, 0) == Some(
                        Ok::<Seq<Seq<char>>, ErrorKind>(seq![html@]),
                    ));
                    assert(spec_walk(sv, init, true, Seq::empty(), 0 + entry_prefix.len()) == Some(
                        lift_walk(entry_prefix, Ok(seq![html@])),
                    ));
                    assert(entry_prefix + seq![html@] =~= chain);
                    lemma_concat_push(entry_prefix, html@);
                    assert(chain[0] == if entry_prefix.len() > 0 {
                        entry_prefix[0]
                    } else {
                        html@
                    });
                    assert(chain.last() == html@);
                    assert(walk_gives_chapter(sv, init, entry_prefix.len(), result));
                }
                return Ok(result);
            },
        }
    }
}

} // verus!
