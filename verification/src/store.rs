use vstd::prelude::*;

verus! {

/// One already-retrieved page: its URL and its raw text.
#[derive(Debug)]
pub struct PageEntry {
    pub url: String,
    pub html: String,
}

/// The pages a crawl works on, keyed by URL. Retrieval itself is the
/// caller's concern: the crawl logic only looks pages up here. URLs are
/// expected to appear once; with duplicates the first entry wins.
#[derive(Debug)]
pub struct PageStore {
    pub pages: Vec<PageEntry>,
}

impl PageEntry {
    /// The entry as a URL/text pair.
    pub open spec fn view(self) -> (Seq<char>, Seq<char>) {
        (self.url@, self.html@)
    }
}

/// The first page text recorded under `url`, if any.
pub open spec fn spec_lookup(pages: Seq<(Seq<char>, Seq<char>)>, url: Seq<char>) -> Option<
    Seq<char>,
>
    decreases pages.len(),
{
    if pages.len() == 0 {
        None
    } else if pages[0].0 == url {
        Some(pages[0].1)
    } else {
        spec_lookup(pages.drop_first(), url)
    }
}

/// A lookup skips any prefix that holds no match.
proof fn lemma_lookup_skip(pages: Seq<(Seq<char>, Seq<char>)>, url: Seq<char>, i: int)
    requires
        0 <= i <= pages.len(),
        forall|j: int| 0 <= j < i ==> pages[j].0 != url,
    ensures
        spec_lookup(pages, url) == spec_lookup(pages.skip(i), url),
    decreases i,
{
    if i > 0 {
        lemma_lookup_skip(pages.drop_first(), url, i - 1);
        assert(pages.drop_first().skip(i - 1) =~= pages.skip(i));
    } else {
        assert(pages.skip(0) =~= pages);
    }
}

/// A successful lookup names an entry of the store.
pub proof fn lemma_lookup_index(pages: Seq<(Seq<char>, Seq<char>)>, url: Seq<char>) -> (j: int)
    requires
        spec_lookup(pages, url) is Some,
    ensures
        0 <= j < pages.len(),
        pages[j].0 == url,
        pages[j].1 == spec_lookup(pages, url)->Some_0,
    decreases pages.len(),
{
    if pages[0].0 == url {
        0
    } else {
        let j = lemma_lookup_index(pages.drop_first(), url) + 1;
        assert(pages.drop_first()[j - 1] == pages[j]);
        j
    }
}

/// Whether a vector of strings holds a given string.
pub fn vec_contains_string(v: &Vec<String>, s: &String) -> (b: bool)
    ensures
        b == v.deep_view().contains(s@),
{
    let mut i: usize = 0;
    while i < v.len()
        invariant
            0 <= i <= v.len(),
            forall|j: int| 0 <= j < i ==> v.deep_view()[j] != s@,
        decreases v.len() - i,
    {
        if v[i] == *s {
            proof {
                assert(v.deep_view()[i as int] == s@);
            }
            return true;
        }
        i += 1;
    }
    proof {
        assert(forall|j: int| 0 <= j < v.deep_view().len() ==> v.deep_view()[j] != s@);
    }
    false
}

impl PageStore {
    /// The store as a sequence of URL/text pairs.
    pub open spec fn view(&self) -> Seq<(Seq<char>, Seq<char>)> {
        self.pages@.map_values(|e: PageEntry| e.view())
    }

    /// An empty store.
    pub fn new() -> (r: PageStore)
        ensures
            r@ == Seq::<(Seq<char>, Seq<char>)>::empty(),
    {
        let r = PageStore { pages: Vec::new() };
        proof {
            assert(r@ =~= Seq::<(Seq<char>, Seq<char>)>::empty());
        }
        r
    }

    /// Records a page under its URL.
    pub fn insert(&mut self, url: String, html: String)
        ensures
            final(self)@ == old(self)@.push((url@, html@)),
    {
        let ghost old_view = self@;
        self.pages.push(PageEntry { url, html });
        proof {
            assert(self@ =~= old_view.push((self.pages@.last().url@, self.pages@.last().html@)));
        }
    }

    /// Looks the text of a page up by its URL.
    pub fn get<'a>(&'a self, url: &String) -> (r: Option<&'a String>)
        ensures
            match r {
                Some(h) => spec_lookup(self@, url@) == Some(h@),
                None => spec_lookup(self@, url@) is None,
            },
    {
        let mut i: usize = 0;
        while i < self.pages.len()
            invariant
                0 <= i <= self.pages.len(),
                forall|j: int| 0 <= j < i ==> self@[j].0 != url@,
            decreases self.pages.len() - i,
        {
            proof {
                assert(self@[i as int] == self.pages@[i as int].view());
            }
            if self.pages[i].url == *url {
                proof {
                    lemma_lookup_skip(self@, url@, i as int);
                    assert(self@.skip(i as int)[0] == self@[i as int]);
                }
                return Some(&self.pages[i].html);
            }
            i += 1;
        }
        proof {
            lemma_lookup_skip(self@, url@, i as int);
            assert(self@.skip(i as int).len() == 0);
        }
        None
    }
}

} // verus!
