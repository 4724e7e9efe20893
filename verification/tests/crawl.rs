use liter2::{
    crawl, flatten_output, get_author_link, get_chapter, get_contents, get_next_chapter,
    get_stories, get_title, synth_heading, traverse_series, Date, ErrorKind, PageStore,
};

fn chapter_page(
    title: Option<&str>,
    body: Option<&str>,
    next: Option<&str>,
    series_links: &[&str],
    author_link: Option<&str>,
) -> String {
    let mut html = String::new();
    if let Some(t) = title {
        html.push_str(&format!("<div class=\"b-story-header\"><h1>{}</h1></div>", t));
    }
    if let Some(a) = author_link {
        html.push_str(&format!(
            "<div class=\"b-story-user-y\"><a href=\"{}\">author</a></div>",
            a
        ));
    }
    if let Some(b) = body {
        html.push_str(&format!("<div class=\"b-story-body-x\">{}</div>", b));
    }
    if let Some(n) = next {
        html.push_str(&format!("<a class=\"b-pager-next\" href=\"{}\">next</a>", n));
    }
    if !series_links.is_empty() {
        html.push_str("<div id=\"b-series\">");
        for l in series_links {
            html.push_str(&format!("<a class=\"ser_link\" href=\"{}\">s</a>", l));
        }
        html.push_str("</div>");
    }
    html
}

fn author_page(name: &str, rows: &[(&str, &str, &str, &str)]) -> String {
    let mut html = format!("<a class=\"contactheader\">{}</a><table>", name);
    for (title, url, desc, date) in rows {
        html.push_str(&format!(
            "<tr class=\"sl\"><td><a href=\"{}\">{}</a></td><td>{}</td><td>x</td><td>{}</td></tr>",
            url, title, desc, date
        ));
    }
    html.push_str("</table>");
    html
}

#[test]
fn chapter_assembles_three_pages_in_order() {
    let mut store = PageStore::new();
    store.insert(
        "u1".to_string(),
        chapter_page(Some("Chapter One"), Some("<p>one</p>"), Some("u2"), &[], None),
    );
    store.insert(
        "u2".to_string(),
        chapter_page(None, Some("<p>two</p>"), Some("u3"), &[], None),
    );
    store.insert(
        "u3".to_string(),
        chapter_page(None, Some("<p>three</p>"), None, &[], None),
    );
    let c = get_chapter(&store, &"u1".to_string()).unwrap();
    assert_eq!(Some("Chapter One".to_string()), c.title);
    assert_eq!("<p>one</p><p>two</p><p>three</p>", c.body);
}

#[test]
fn chapter_missing_body_fails() {
    let mut store = PageStore::new();
    store.insert(
        "u1".to_string(),
        chapter_page(Some("T"), None, None, &[], None),
    );
    let e = get_chapter(&store, &"u1".to_string()).unwrap_err();
    assert_eq!(ErrorKind::MissingContent, e.kind);
}

#[test]
fn chapter_missing_title_fails() {
    let mut store = PageStore::new();
    store.insert(
        "u1".to_string(),
        chapter_page(None, Some("<p>x</p>"), None, &[], None),
    );
    let e = get_chapter(&store, &"u1".to_string()).unwrap_err();
    assert_eq!(ErrorKind::Extraction, e.kind);
}

#[test]
fn chapter_unfetched_page_fails() {
    let store = PageStore::new();
    let e = get_chapter(&store, &"u1".to_string()).unwrap_err();
    assert_eq!(ErrorKind::Fetch, e.kind);
}

#[test]
fn chapter_pagination_cycle_is_rejected() {
    let mut store = PageStore::new();
    store.insert(
        "u1".to_string(),
        chapter_page(Some("T"), Some("<p>a</p>"), Some("u2"), &[], None),
    );
    store.insert(
        "u2".to_string(),
        chapter_page(None, Some("<p>b</p>"), Some("u1"), &[], None),
    );
    let e = get_chapter(&store, &"u1".to_string()).unwrap_err();
    assert_eq!(ErrorKind::Extraction, e.kind);
}

#[test]
fn series_cycle_visits_each_chapter_once_and_terminates() {
    let mut store = PageStore::new();
    store.insert(
        "A".to_string(),
        chapter_page(Some("A"), Some("<p>a</p>"), None, &["B"], None),
    );
    store.insert(
        "B".to_string(),
        chapter_page(Some("B"), Some("<p>b</p>"), None, &["A"], None),
    );
    let out = traverse_series(&store, &"A".to_string()).unwrap();
    assert_eq!(2, out.len());
    assert_eq!("A", out[0].url);
    assert_eq!("B", out[1].url);
    assert_eq!("<h1>A</h1><p>a</p>", out[0].contents);
    assert_eq!("<h1>B</h1><p>b</p>", out[1].contents);
}

#[test]
fn series_tie_break_takes_first_unvisited_link() {
    let html = chapter_page(None, None, None, &["X", "Y", "Z"], None);
    let seen = vec!["X".to_string()];
    assert_eq!(Some("Y".to_string()), get_next_chapter(&html, &seen));
    let none_left = vec!["X".to_string(), "Y".to_string(), "Z".to_string()];
    assert_eq!(None, get_next_chapter(&html, &none_left));
}

#[test]
fn series_traversal_follows_first_unvisited_in_document_order() {
    let mut store = PageStore::new();
    store.insert(
        "A".to_string(),
        chapter_page(Some("A"), Some("<p>a</p>"), None, &["A", "Y", "Z"], None),
    );
    store.insert(
        "Y".to_string(),
        chapter_page(Some("Y"), Some("<p>y</p>"), None, &[], None),
    );
    let out = traverse_series(&store, &"A".to_string()).unwrap();
    assert_eq!(2, out.len());
    assert_eq!("Y", out[1].url);
}

#[test]
fn author_index_is_built_from_listing_rows() {
    let html = author_page(
        "WriterPerson",
        &[
            ("Story One", "u1", "first one", "10/03/17"),
            ("Story Two", "u2", "second one", "03/17/97"),
        ],
    );
    let ap = get_stories(&html).unwrap();
    assert_eq!("WriterPerson", ap.name);
    assert_eq!(2, ap.titles.len());
    assert_eq!("Story One", ap.titles[0].name);
    assert_eq!("u1", ap.titles[0].url);
    assert_eq!("first one", ap.titles[0].desc);
    assert_eq!(
        Date {
            year: 2017,
            month: 10,
            day: 3,
        },
        ap.titles[0].date
    );
    assert_eq!("u2", ap.titles[1].url);
}

#[test]
fn author_index_bad_date_fails() {
    let html = author_page("W", &[("S", "u1", "d", "not a date")]);
    assert_eq!(ErrorKind::DateParse, get_stories(&html).unwrap_err().kind);
}

#[test]
fn author_index_missing_name_fails() {
    let html = "<table></table>".to_string();
    assert_eq!(ErrorKind::Extraction, get_stories(&html).unwrap_err().kind);
}

#[test]
fn heading_falls_back_to_path_segment_then_placeholder() {
    assert_eq!("Real", synth_heading(&Some("Real".to_string()), &"http://x/abc".to_string()));
    assert_eq!("abc", synth_heading(&None, &"http://x/abc".to_string()));
    assert_eq!("Unknown story", synth_heading(&None, &"http://x/abc/".to_string()));
}

#[test]
fn unknown_story_aborts_crawl_with_no_output() {
    let mut store = PageStore::new();
    store.insert(
        "u1".to_string(),
        chapter_page(Some("Intro"), Some("<p>Hello</p>"), None, &[], Some("author")),
    );
    store.insert(
        "author".to_string(),
        author_page("W", &[("Other", "u9", "d", "10/03/17")]),
    );
    let e = crawl(&store, &"u1".to_string(), false, false).unwrap_err();
    assert_eq!(ErrorKind::UnknownStory, e.kind);
    let e2 = crawl(&store, &"u1".to_string(), true, false).unwrap_err();
    assert_eq!(ErrorKind::UnknownStory, e2.kind);
}

#[test]
fn single_chapter_crawl_with_and_without_heading() {
    let mut store = PageStore::new();
    store.insert(
        "u1".to_string(),
        chapter_page(Some("Intro"), Some("<p>Hello</p>"), None, &[], Some("author")),
    );
    store.insert(
        "author".to_string(),
        author_page("W", &[("Intro", "u1", "a greeting", "10/03/17")]),
    );
    let with_heading = crawl(&store, &"u1".to_string(), false, true).unwrap();
    assert_eq!("<h1>Intro</h1><p>Hello</p>", flatten_output(&with_heading));
    let without = crawl(&store, &"u1".to_string(), false, false).unwrap();
    assert_eq!("<p>Hello</p>", flatten_output(&without));
    assert_eq!("W", without.author);
    assert_eq!("Intro\na greeting", without.sections[0].full_title);
}

#[test]
fn series_crawl_resolves_each_chapter_and_names_sections() {
    let mut store = PageStore::new();
    store.insert(
        "A".to_string(),
        chapter_page(Some("Part One"), Some("<p>a</p>"), None, &["B"], Some("author")),
    );
    store.insert(
        "B".to_string(),
        chapter_page(Some("Part Two"), Some("<p>b</p>"), None, &["A"], None),
    );
    store.insert(
        "author".to_string(),
        author_page(
            "W",
            &[
                ("Part One", "A", "start", "10/03/17"),
                ("Part Two", "B", "end", "10/04/17"),
            ],
        ),
    );
    let out = crawl(&store, &"A".to_string(), true, false).unwrap();
    assert_eq!("W", out.author);
    assert_eq!(2, out.sections.len());
    assert_eq!("Part One.html", out.sections[0].file_name);
    assert_eq!("Part One\nstart", out.sections[0].full_title);
    assert_eq!("<h1>Part One</h1><p>a</p>", out.sections[0].contents);
    assert_eq!("Part Two.html", out.sections[1].file_name);
    assert_eq!(
        "<h1>Part One</h1><p>a</p><h1>Part Two</h1><p>b</p>",
        flatten_output(&out)
    );
}

#[test]
fn crawl_without_author_link_fails_extraction() {
    let mut store = PageStore::new();
    store.insert(
        "u1".to_string(),
        chapter_page(Some("Intro"), Some("<p>Hello</p>"), None, &[], None),
    );
    let e = crawl(&store, &"u1".to_string(), false, false).unwrap_err();
    assert_eq!(ErrorKind::Extraction, e.kind);
}

#[test]
fn page_extraction_reads_title_body_next_and_author_link() {
    let html = chapter_page(
        Some("Intro"),
        Some("<p>Hello</p>"),
        Some("u2"),
        &[],
        Some("author"),
    );
    assert_eq!("Intro", get_title(&html).unwrap());
    let (body, next) = get_contents(&html).unwrap();
    assert_eq!("<p>Hello</p>", body);
    assert_eq!(Some("u2".to_string()), next);
    assert_eq!("author", get_author_link(&html).unwrap());
    let bare = "<p>nothing here</p>";
    assert_eq!(ErrorKind::Extraction, get_title(bare).unwrap_err().kind);
    assert_eq!(ErrorKind::MissingContent, get_contents(bare).unwrap_err().kind);
    assert_eq!(ErrorKind::Extraction, get_author_link(bare).unwrap_err().kind);
}

#[test]
fn error_messages_carry_kind_and_context() {
    let e = Date::parse_mdy("1/2/17").unwrap_err();
    assert_eq!("unreadable date: 1/2/17", e.message());
    let store = PageStore::new();
    let f = get_chapter(&store, &"u9".to_string()).unwrap_err();
    assert_eq!("unable to retrieve u9", f.message());
}
