use vstd::prelude::*;

mod chapter;
mod crawl;
mod date;
mod error;
mod extract;
mod index;
mod page;
mod series;
mod store;

pub use chapter::{
    body_or_empty, chapter_step, concat_bodies, get_chapter, lemma_walk_fuel_mono, spec_walk,
    walk_gives_chapter, walk_gives_error, ChapterBuild, ChapterResult,
};
pub use crawl::{
    crawl, crawl_gives, crawl_gives_error, crawl_post, find_title, flatten_output,
    full_title_line, section_file_name, spec_crawl, spec_find_title, spec_flatten,
    spec_full_title, spec_resolve, spec_section_of, CrawlOutput, CrawlOutputV, Section,
    SectionOutV,
};
pub use date::{
    digit_char, digit_val, four_digit_val, is_digit, lemma_format_parse_round_trip,
    spec_format_ymd, spec_parse_mdy, spec_parse_ymd, two_digit_val, Date,
};
pub use error::{spec_kind_label, CrawlError, ErrorKind};
pub use extract::{
    author_link_of, author_name_of, body_of, next_page_of, series_links_of, story_rows_of,
    title_of,
};
pub use index::{
    get_stories, spec_build_title, spec_build_titles, spec_get_stories, AuthorPage, AuthorPageV,
    Title, TitleV,
};
pub use page::{get_author_link, get_contents, get_title};
pub use series::{
    get_next_chapter, heading_block, last_path_segment, lemma_series_fuel_mono,
    lemma_series_visits_each_url_once, series_gives, series_gives_error, spec_first_unvisited,
    spec_heading_block, spec_heading_title, spec_last_segment, spec_series, synth_heading,
    traverse_post, traverse_series, ChapterSection, SectionV,
};
pub use store::{spec_lookup, PageEntry, PageStore};

verus! {

} // verus!
