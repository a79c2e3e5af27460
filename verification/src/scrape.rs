//! The paginated scrape that builds the roster.
//!
//! The structural reading of a listing page — its roster rows and its
//! paginator links — is a narrow capability of the `scraper` crate; what a
//! page's rows mean, how the paginator bounds the page range, and how the
//! pages assemble into one ordered roster is verified here. Page fetching is
//! the caller's: a `ScrapeJob` names the page it wants next and the caller
//! hands the fetched rows back.

use vstd::prelude::*;

use crate::errors::ScrapeError;
use crate::numbers::{parse_u32, parse_u32_spec};

verus! {

/// What the `scraper` crate extracts from a listing page's HTML: for each
/// roster row (class `pla`), in document order, the first text of the row's
/// first link, or nothing where the row has no link or no text. The result
/// depends on the HTML text alone.
pub uninterp spec fn row_texts_of(html: Seq<char>) -> Seq<Option<Seq<char>>>;

/// Relies on `scraper`'s `Html::parse_document`, `Selector::parse` and
/// `select`: reads the roster rows of a listing page, keeping each row's
/// first link text, in document order.
#[verifier::external_body]
pub fn row_first_link_texts(html: &str) -> (r: Vec<Option<String>>)
    ensures
        r.deep_view() == row_texts_of(html@),
{
    let doc = scraper::Html::parse_document(html);
    let rows = scraper::Selector::parse(".pla").unwrap();
    let link = scraper::Selector::parse("a").unwrap();
    doc.select(&rows).map(
        |row| row.select(&link).next().and_then(|a| a.text().next().map(|t| t.to_string())),
    ).collect()
}

/// What the `scraper` crate extracts from the pagination control: the texts
/// of the page-number links of the first paginator, in document order, or
/// nothing where the page has no paginator. The result depends on the HTML
/// text alone.
pub uninterp spec fn paginator_texts_of(html: Seq<char>) -> Option<Seq<Seq<char>>>;

/// Relies on `scraper`'s `Html::parse_document`, `Selector::parse` and
/// `select`: reads the page-number link texts of a listing page's paginator.
#[verifier::external_body]
pub fn paginator_number_texts(html: &str) -> (r: Option<Vec<String>>)
    ensures
        match r {
            Some(v) => paginator_texts_of(html@) == Some(v.deep_view()),
            None => paginator_texts_of(html@) is None,
        },
{
    let doc = scraper::Html::parse_document(html);
    let pag = scraper::Selector::parse("div.paginator").unwrap();
    let num = scraper::Selector::parse("a.number").unwrap();
    doc.select(&pag).next().map(
        |p| p.select(&num).map(|el| el.text().next().unwrap_or("").to_string()).collect(),
    )
}

/// What a page's rows yield: every row after the first (a header row) must
/// carry a link text, and those texts are the page's players in row order;
/// a page with no rows at all, or with a linkless row, is malformed.
pub open spec fn extract_spec(rows: Seq<Option<Seq<char>>>) -> Option<Seq<Seq<char>>> {
    if rows.len() >= 1 && (forall|i: int| 1 <= i < rows.len() ==> (#[trigger] rows[i]) is Some) {
        Some(Seq::new((rows.len() - 1) as nat, |i: int| rows[i + 1].unwrap()))
    } else {
        None
    }
}

/// The players of one page, from its rows: the header row is skipped, each
/// later row contributes its link text, and a page whose expected structure
/// is absent aborts the scrape as malformed.
pub fn extract_players(rows: &Vec<Option<String>>, page: u32) -> (r: Result<
    Vec<String>,
    ScrapeError,
>)
    ensures
        match r {
            Ok(v) => extract_spec(rows.deep_view()) == Some(v.deep_view()),
            Err(e) => extract_spec(rows.deep_view()) is None && e == ScrapeError::Malformed(page),
        },
{
    if rows.len() == 0 {
        return Err(ScrapeError::Malformed(page));
    }
    let mut out: Vec<String> = Vec::new();
    let mut i: usize = 1;
    while i < rows.len()
        invariant
            1 <= i <= rows@.len(),
            rows@.len() >= 1,
            forall|k: int| 1 <= k < i ==> (#[trigger] rows.deep_view()[k]) is Some,
            out.deep_view() =~= Seq::new((i - 1) as nat, |k: int| rows.deep_view()[k + 1].unwrap()),
        decreases rows@.len() - i,
    {
        match &rows[i] {
            Some(name) => {
                let ghost before = out.deep_view();
                out.push(name.clone());
                proof {
                    assert(rows.deep_view()[i as int] == rows@[i as int].deep_view());
                    assert(rows.deep_view()[i as int].unwrap() == name@);
                    assert(out.deep_view() =~= before.push(name@));
                    assert(out.deep_view() =~= Seq::new(
                        i as nat,
                        |k: int| rows.deep_view()[k + 1].unwrap(),
                    ));
                }
            },
            None => {
                proof {
                    assert(rows.deep_view()[i as int] is None);
                }
                return Err(ScrapeError::Malformed(page));
            },
        }
        i = i + 1;
    }
    Ok(out)
}

/// What the paginator means: the highest page number among its links, at
/// least 1; no paginator at all is a single-page roster; a link text that is
/// not a number is malformed.
pub open spec fn max_page_spec(texts: Seq<Seq<char>>) -> Option<u32>
    decreases texts.len(),
{
    if texts.len() == 0 {
        Some(1u32)
    } else {
        match (max_page_spec(texts.drop_last()), parse_u32_spec(texts.last())) {
            (Some(m), Some(v)) => Some(if v > m {
                v
            } else {
                m
            }),
            _ => None,
        }
    }
}

/// The page count from the attempt on listing page 1: a page 1 that could
/// not be fetched or read at all is the one `MissingPaginator` failure; a
/// fetched page is judged by its paginator as `page_count_from_html` says.
pub fn page_count_from_fetch(page1: Option<&str>) -> (r: Result<u32, ScrapeError>)
    ensures
        match page1 {
            None => r == Err::<u32, ScrapeError>(ScrapeError::MissingPaginator),
            Some(html) => match paginator_texts_of(html@) {
                None => r == Ok::<u32, ScrapeError>(1u32),
                Some(ts) => match max_page_spec(ts) {
                    Some(m) => r == Ok::<u32, ScrapeError>(m),
                    None => r == Err::<u32, ScrapeError>(ScrapeError::Malformed(1u32)),
                },
            },
        },
{
    match page1 {
        None => Err(ScrapeError::MissingPaginator),
        Some(html) => page_count_from_html(html),
    }
}

/// The page count of the listing, from page 1's HTML: the highest page
/// number among the paginator's links, 1 if no paginator or no numbered
/// link is present, malformed if a link is not a number.
pub fn page_count_from_html(html: &str) -> (r: Result<u32, ScrapeError>)
    ensures
        match paginator_texts_of(html@) {
            None => r == Ok::<u32, ScrapeError>(1u32),
            Some(ts) => match max_page_spec(ts) {
                Some(m) => r == Ok::<u32, ScrapeError>(m),
                None => r == Err::<u32, ScrapeError>(ScrapeError::Malformed(1u32)),
            },
        },
{
    page_count_from(paginator_number_texts(html))
}

/// The page count of the listing, from page 1's paginator links: the highest
/// page number found, 1 if no paginator or no numbered link is present.
pub fn page_count_from(texts: Option<Vec<String>>) -> (r: Result<u32, ScrapeError>)
    ensures
        match texts {
            None => r == Ok::<u32, ScrapeError>(1u32),
            Some(ts) => match max_page_spec(ts.deep_view()) {
                Some(m) => r == Ok::<u32, ScrapeError>(m),
                None => r == Err::<u32, ScrapeError>(ScrapeError::Malformed(1u32)),
            },
        },
{
    match texts {
        None => Ok(1),
        Some(ts) => {
            let mut m: u32 = 1;
            let mut i: usize = 0;
            while i < ts.len()
                invariant
                    texts == Some(ts),
                    i <= ts@.len(),
                    max_page_spec(ts.deep_view().take(i as int)) == Some(m),
                decreases ts@.len() - i,
            {
                let ghost pre = ts.deep_view().take(i as int);
                match parse_u32(ts[i].as_str()) {
                    Some(v) => {
                        if v > m {
                            m = v;
                        }
                    },
                    None => {
                        proof {
                            lemma_max_page_prefix_none(ts.deep_view(), i as int);
                        }
                        return Err(ScrapeError::Malformed(1));
                    },
                }
                proof {
                    assert(ts.deep_view().take(i as int + 1).drop_last() =~= pre);
                    assert(ts.deep_view().take(i as int + 1).last() == ts@[i as int]@);
                }
                i = i + 1;
            }
            proof {
                assert(ts.deep_view().take(ts@.len() as int) =~= ts.deep_view());
            }
            Ok(m)
        },
    }
}

/// A link text that is no number makes the whole paginator malformed,
/// whatever follows it.
proof fn lemma_max_page_prefix_none(texts: Seq<Seq<char>>, i: int)
    requires
        0 <= i < texts.len(),
        parse_u32_spec(texts[i]) is None,
    ensures
        max_page_spec(texts) is None,
    decreases texts.len(),
{
    if i == texts.len() - 1 {
        assert(texts.last() == texts[i]);
    } else {
        assert(texts.drop_last()[i] == texts[i]);
        lemma_max_page_prefix_none(texts.drop_last(), i);
    }
}

// ---------------------------------------------------------------------------
// The scrape loop as a state machine.
// ---------------------------------------------------------------------------

/// What the scrape asks its driver to do next.
#[derive(Debug, Clone, Copy, PartialEq, Eq, Structural)]
pub enum ScrapeStep {
    /// Fetch the listing page with this number and hand its rows back.
    Fetch(u32),
    /// Every page of the range was read; the roster is complete.
    Done,
}

/// One scrape over a half-open page range, assembling the roster page by
/// page in page-then-row order.
pub struct ScrapeJob {
    /// The next page to fetch.
    pub next_page: u32,
    /// The end of the range, exclusive.
    pub end: u32,
    /// The players gathered so far, in page-then-row order.
    pub players: Vec<String>,
}

impl ScrapeJob {
    /// The players gathered so far, in page-then-row order.
    pub open spec fn gathered(&self) -> Seq<Seq<char>> {
        self.players.deep_view()
    }

    /// How many page fetches remain.
    pub open spec fn pages_left(&self) -> int {
        if self.next_page < self.end {
            self.end - self.next_page
        } else {
            0
        }
    }

    /// A scrape over the pages `start` (inclusive) up to `end` (exclusive),
    /// with nothing gathered yet.
    pub fn begin(start: u32, end: u32) -> (j: Self)
        ensures
            j.next_page == start,
            j.end == end,
            j.gathered() == Seq::<Seq<char>>::empty(),
    {
        let j = ScrapeJob { next_page: start, end, players: Vec::new() };
        proof {
            assert(j.gathered() =~= Seq::<Seq<char>>::empty());
        }
        j
    }

    /// What to do next: fetch the next page of the range, or stop.
    pub fn next_step(&self) -> (a: ScrapeStep)
        ensures
            self.pages_left() > 0 ==> a == ScrapeStep::Fetch(self.next_page),
            self.pages_left() == 0 ==> a == ScrapeStep::Done,
    {
        if self.next_page < self.end {
            ScrapeStep::Fetch(self.next_page)
        } else {
            ScrapeStep::Done
        }
    }

    /// Takes the HTML of the page just fetched and reads its rows through
    /// the `scraper` capability, then proceeds as `on_page_rows` does.
    pub fn on_page(&mut self, html: &str) -> (r: Result<u64, ScrapeError>)
        requires
            old(self).pages_left() > 0,
        ensures
            final(self).end == old(self).end,
            match extract_spec(row_texts_of(html@)) {
                Some(ps) => r == Ok::<u64, ScrapeError>(crate::SCRAPE_DELAY_MS)
                    && final(self).next_page == old(self).next_page + 1
                    && final(self).gathered() == old(self).gathered() + ps
                    && final(self).pages_left() == old(self).pages_left() - 1,
                None => r == Err::<u64, ScrapeError>(ScrapeError::Malformed(old(self).next_page))
                    && final(self).next_page == old(self).next_page
                    && final(self).gathered() == old(self).gathered(),
            },
    {
        let rows = row_first_link_texts(html);
        self.on_page_rows(&rows)
    }

    /// Takes the rows of the page just fetched. On a well-formed page its
    /// players are appended in row order, the job advances to the next page,
    /// and the driver owes the scrape delay before the next fetch; a
    /// malformed page aborts the whole scrape unchanged, rather than letting
    /// a partial roster pass as complete.
    pub fn on_page_rows(&mut self, rows: &Vec<Option<String>>) -> (r: Result<u64, ScrapeError>)
        requires
            old(self).pages_left() > 0,
        ensures
            final(self).end == old(self).end,
            match crate::scrape::extract_spec(rows.deep_view()) {
                Some(ps) => r == Ok::<u64, ScrapeError>(crate::SCRAPE_DELAY_MS)
                    && final(self).next_page == old(self).next_page + 1
                    && final(self).gathered() == old(self).gathered() + ps
                    && final(self).pages_left() == old(self).pages_left() - 1,
                None => r == Err::<u64, ScrapeError>(ScrapeError::Malformed(old(self).next_page))
                    && final(self).next_page == old(self).next_page
                    && final(self).gathered() == old(self).gathered(),
            },
    {
        match extract_players(rows, self.next_page) {
            Ok(mut found) => {
                let ghost before = self.players.deep_view();
                let ghost found_view = found.deep_view();
                self.players.append(&mut found);
                self.next_page = self.next_page + 1;
                proof {
                    assert(self.gathered() =~= before + found_view);
                }
                Ok(crate::SCRAPE_DELAY_MS)
            },
            Err(e) => Err(e),
        }
    }

    /// The finished roster, in page-then-row order.
    pub fn into_roster(self) -> (v: Vec<String>)
        requires
            self.pages_left() == 0,
        ensures
            v.deep_view() == self.gathered(),
    {
        self.players
    }
}

/// The pages a full run over the range fetches, in order.
pub open spec fn pages_fetched(start: int, end: int) -> Seq<int>
    decreases end - start,
{
    if start < end {
        seq![start] + pages_fetched(start + 1, end)
    } else {
        Seq::empty()
    }
}

/// Scraping the half-open range `start..end` issues exactly `end - start`
/// page fetches, one per page of the range, in ascending order, with the
/// scrape delay owed between consecutive fetches.
pub proof fn lemma_scrape_fetch_count(start: int, end: int)
    requires
        start <= end,
    ensures
        pages_fetched(start, end).len() == end - start,
        forall|k: int| 0 <= k < end - start ==> pages_fetched(start, end)[k] == start + k,
    decreases end - start,
{
    if start < end {
        lemma_scrape_fetch_count(start + 1, end);
        assert forall|k: int| 0 <= k < end - start implies pages_fetched(start, end)[k] == start
            + k by {
            if k > 0 {
                assert(pages_fetched(start, end)[k] == pages_fetched(start + 1, end)[k - 1]);
            }
        }
    }
}

} // verus!
