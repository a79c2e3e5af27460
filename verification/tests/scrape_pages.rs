use roster_messenger::errors::ScrapeError;
use roster_messenger::scrape::{
    extract_players, page_count_from, page_count_from_fetch, page_count_from_html,
    paginator_number_texts, row_first_link_texts, ScrapeJob, ScrapeStep,
};
use roster_messenger::SCRAPE_DELAY_MS;

const LISTING: &str = "<html><body>\
<div class=\"paginator\"><a class=\"number\" href=\"#\">1</a>\
<a class=\"number\" href=\"#\">2</a><a class=\"number\" href=\"#\">7</a></div>\
<table><tr class=\"pla\"><td>Player</td></tr>\
<tr class=\"pla\"><td><a href=\"#\">alice</a></td></tr>\
<tr class=\"pla\"><td><a href=\"#\">bob</a></td></tr></table>\
</body></html>";

#[test]
fn rows_keep_first_link_text_per_row() {
    let rows = row_first_link_texts(LISTING);
    assert_eq!(rows.len(), 3);
    assert!(rows[0].is_none());
    assert_eq!(rows[1].as_deref(), Some("alice"));
    assert_eq!(rows[2].as_deref(), Some("bob"));
}

#[test]
fn extract_skips_the_header_row() {
    let rows = row_first_link_texts(LISTING);
    let players = extract_players(&rows, 1).unwrap();
    assert_eq!(players, vec!["alice".to_string(), "bob".to_string()]);
}

#[test]
fn extract_rejects_a_page_without_rows() {
    let rows: Vec<Option<String>> = Vec::new();
    assert!(matches!(extract_players(&rows, 4), Err(ScrapeError::Malformed(4))));
}

#[test]
fn extract_rejects_a_linkless_row() {
    let rows = vec![Some("Player".to_string()), Some("alice".to_string()), None];
    assert!(matches!(extract_players(&rows, 2), Err(ScrapeError::Malformed(2))));
}

#[test]
fn paginator_gives_the_highest_page_number() {
    let texts = paginator_number_texts(LISTING);
    assert!(texts.is_some());
    assert_eq!(page_count_from(texts).unwrap(), 7);
}

#[test]
fn no_paginator_means_one_page() {
    let bare = "<html><body><p>nothing here</p></body></html>";
    let texts = paginator_number_texts(bare);
    assert!(texts.is_none());
    assert_eq!(page_count_from(texts).unwrap(), 1);
}

#[test]
fn empty_paginator_means_one_page() {
    let html = "<html><body><div class=\"paginator\"></div></body></html>";
    let texts = paginator_number_texts(html);
    assert_eq!(texts.as_ref().map(|v| v.len()), Some(0));
    assert_eq!(page_count_from(texts).unwrap(), 1);
}

#[test]
fn non_numeric_paginator_link_is_malformed() {
    let html = "<html><body><div class=\"paginator\">\
<a class=\"number\" href=\"#\">2</a><a class=\"number\" href=\"#\">next</a>\
</div></body></html>";
    let texts = paginator_number_texts(html);
    assert!(matches!(page_count_from(texts), Err(ScrapeError::Malformed(1))));
}

#[test]
fn scrape_range_fetches_each_page_once_with_the_delay() {
    let pages: u32 = 3;
    let mut job = ScrapeJob::begin(1, pages + 1);
    let mut fetched: Vec<u32> = Vec::new();
    loop {
        match job.next_step() {
            ScrapeStep::Fetch(p) => {
                fetched.push(p);
                let rows = vec![Some("Player".to_string()), Some(format!("p{}", p))];
                let delay = job.on_page_rows(&rows).unwrap();
                assert!(delay >= 300);
                assert_eq!(delay, SCRAPE_DELAY_MS);
            },
            ScrapeStep::Done => break,
        }
    }
    assert_eq!(fetched, vec![1, 2, 3]);
    let roster = job.into_roster();
    assert_eq!(roster, vec!["p1".to_string(), "p2".to_string(), "p3".to_string()]);
}

#[test]
fn page_count_reads_the_paginator_from_html() {
    assert_eq!(page_count_from_html(LISTING).unwrap(), 7);
    assert_eq!(page_count_from_html("<html><body></body></html>").unwrap(), 1);
}

#[test]
fn unfetchable_page_one_means_no_paginator() {
    assert!(matches!(page_count_from_fetch(None), Err(ScrapeError::MissingPaginator)));
    assert_eq!(page_count_from_fetch(Some(LISTING)).unwrap(), 7);
}

#[test]
fn scrape_reads_real_pages() {
    let mut job = ScrapeJob::begin(1, 2);
    let delay = job.on_page(LISTING).unwrap();
    assert_eq!(delay, SCRAPE_DELAY_MS);
    assert_eq!(job.into_roster(), vec!["alice".to_string(), "bob".to_string()]);
}

#[test]
fn a_page_without_roster_rows_is_malformed_html() {
    let mut job = ScrapeJob::begin(3, 4);
    let bare = "<html><body><p>maintenance</p></body></html>";
    assert!(matches!(job.on_page(bare), Err(ScrapeError::Malformed(3))));
}

#[test]
fn malformed_page_aborts_the_scrape_in_place() {
    let mut job = ScrapeJob::begin(1, 3);
    let good = vec![Some("Player".to_string()), Some("alice".to_string())];
    assert_eq!(job.on_page_rows(&good).unwrap(), SCRAPE_DELAY_MS);
    let bad: Vec<Option<String>> = Vec::new();
    assert!(matches!(job.on_page_rows(&bad), Err(ScrapeError::Malformed(2))));
    assert_eq!(job.next_step(), ScrapeStep::Fetch(2));
}
