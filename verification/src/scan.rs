//! The scan as a machine: each step takes the body of the page that was
//! asked for and says what to report and what to fetch next. Fetching is
//! left to the caller.

use crate::config::{Config, ConfigView};
use crate::date::{not_before, CalendarDate};
use crate::error::ScanError;
use crate::markup::{
    class_texts, entry_links, join_url, option_views, resolved_url, select_class_texts,
    select_entry_links,
};
use crate::number::{decimal, decimal_text, integer_in, parse_int};
use crate::report::{parse_report, report_in, VulnerabilityReport, VulnerabilityReportView};
use crate::text::{concat_all, trim, trimmed};
use vstd::prelude::*;
use vstd::string::StringExecFns;

verus! {

/// What a scan waits for.
#[derive(Clone, Debug, PartialEq, Eq)]
enum Waiting {
    Listing,
    Page { last_page: i32, page: i32 },
    Report { last_page: i32, page: i32, links: Vec<Option<String>>, entry: usize, url: String },
}

/// What a scan waits for.
#[verifier::ext_equal]
pub enum WaitingView {
    /// The first listing page, which tells the number of pages.
    Listing,
    /// Listing page `page` of a listing whose indicator says `last_page`.
    Page { last_page: int, page: int },
    /// The report at `url`: entry `entry` of the links `links` that listing
    /// page `page` holds.
    Report {
        last_page: int,
        page: int,
        links: Seq<Option<Seq<char>>>,
        entry: int,
        url: Seq<char>,
    },
}

/// A scan in progress: it has asked for a page and waits for its body.
#[derive(Clone, Debug, PartialEq, Eq)]
pub struct Scanner {
    config: Config,
    cutoff: CalendarDate,
    waiting: Waiting,
}

/// What a `Scanner` holds.
#[verifier::ext_equal]
pub struct ScannerView {
    pub config: ConfigView,
    pub cutoff: (int, int, int),
    pub waiting: WaitingView,
}

/// What follows a step of a scan.
#[derive(Debug, PartialEq, Eq)]
pub enum Next {
    /// The scan goes on: the body of the page at `request` is to be handed
    /// to `scanner`.
    Fetch { scanner: Scanner, request: String },
    /// The scan is over, in order.
    Finished,
    /// The scan is over, by a failure.
    Failed { error: ScanError },
}

/// What a `Next` holds.
#[verifier::ext_equal]
pub enum NextView {
    Fetch { scanner: ScannerView, request: Seq<char> },
    Finished,
    Failed { error: ScanError },
}

/// One step of a scan: the report to be reported, if the step has one, and
/// what follows.
#[derive(Debug, PartialEq, Eq)]
pub struct Step {
    pub report: Option<VulnerabilityReport>,
    pub next: Next,
}

/// What a `Step` holds.
#[verifier::ext_equal]
pub struct StepView {
    pub report: Option<VulnerabilityReportView>,
    pub next: NextView,
}

/// The view of a report that may be absent.
pub open spec fn report_view(report: Option<VulnerabilityReport>) -> Option<
    VulnerabilityReportView,
> {
    match report {
        Some(r) => Some(r@),
        None => None,
    }
}

/// The view of a body that may be absent.
pub open spec fn body_view(fetched: Option<&str>) -> Option<Seq<char>> {
    match fetched {
        Some(body) => Some(body@),
        None => None,
    }
}

impl View for Waiting {
    type V = WaitingView;

    closed spec fn view(&self) -> WaitingView {
        match self {
            Waiting::Listing => WaitingView::Listing,
            Waiting::Page { last_page, page } => WaitingView::Page {
                last_page: *last_page as int,
                page: *page as int,
            },
            Waiting::Report { last_page, page, links, entry, url } => WaitingView::Report {
                last_page: *last_page as int,
                page: *page as int,
                links: option_views(links@),
                entry: *entry as int,
                url: url@,
            },
        }
    }
}

impl View for Scanner {
    type V = ScannerView;

    closed spec fn view(&self) -> ScannerView {
        ScannerView { config: self.config@, cutoff: self.cutoff.ymd(), waiting: self.waiting@ }
    }
}

impl View for Next {
    type V = NextView;

    open spec fn view(&self) -> NextView {
        match self {
            Next::Fetch { scanner, request } => NextView::Fetch {
                scanner: scanner@,
                request: request@,
            },
            Next::Finished => NextView::Finished,
            Next::Failed { error } => NextView::Failed { error: *error },
        }
    }
}

impl View for Step {
    type V = StepView;

    open spec fn view(&self) -> StepView {
        StepView { report: report_view(self.report), next: self.next@ }
    }
}

impl ScannerView {
    /// The page that is waited for lies before the last page, and the
    /// report that is waited for belongs to an entry of its page.
    pub open spec fn wf(self) -> bool {
        match self.waiting {
            WaitingView::Listing => true,
            WaitingView::Page { last_page, page } => 1 <= page < last_page <= i32::MAX,
            WaitingView::Report { last_page, page, links, entry, url } => {
                &&& 1 <= page < last_page <= i32::MAX
                &&& 0 <= entry < links.len()
            },
        }
    }
}

/// The number of pages that the scan `s` has read from the first listing
/// page; 0 while it still waits for that page.
pub open spec fn stated_pages(s: ScannerView) -> int {
    match s.waiting {
        WaitingView::Listing => 0,
        WaitingView::Page { last_page, page } => last_page,
        WaitingView::Report { last_page, page, links, entry, url } => last_page,
    }
}

/// The number of pages that the first listing page `markup` states: the
/// text of its last-page indicator, trimmed and read as a whole number.
pub open spec fn page_count_in(markup: Seq<char>) -> Option<int> {
    integer_in(trimmed(class_texts(markup, "span"@, "last-page"@).flatten()))
}

/// The links of the entries of the listing page `markup`, one for each
/// entry in the order of the page; `None` for an entry without a link.
pub open spec fn links_in(markup: Seq<char>) -> Seq<Option<Seq<char>>> {
    entry_links(markup, "li"@, "class"@, "strip"@, "title"@, "a"@, "href"@)
}

/// Listing page `page` is scanned: it lies from 1 up to, and not including,
/// the number that the indicator states, and within the limit of the
/// settings.
pub open spec fn page_wanted(config: ConfigView, last_page: int, page: int) -> bool {
    &&& 1 <= page < last_page
    &&& config.max_pages matches Some(limit) ==> page <= limit
}

/// The address of listing page `page`.
pub open spec fn page_address(config: ConfigView, page: int) -> Option<Seq<char>> {
    resolved_url(config.listing_url + "/"@, "page/"@ + decimal(page as nat))
}

/// What follows when the scan turns to listing page `page`: the end of
/// the scan if that page is not wanted, else a request for it.
pub open spec fn turn_to_page(
    config: ConfigView,
    cutoff: (int, int, int),
    last_page: int,
    page: int,
) -> NextView {
    if !page_wanted(config, last_page, page) {
        NextView::Finished
    } else {
        match page_address(config, page) {
            None => NextView::Failed { error: ScanError::PageUrl },
            Some(address) => NextView::Fetch {
                scanner: ScannerView {
                    config,
                    cutoff,
                    waiting: WaitingView::Page { last_page, page },
                },
                request: address,
            },
        }
    }
}

/// What follows when the scan turns to entry `entry` of listing page
/// `page`: a request for the report of that entry or, past the last entry,
/// the turn to the next page.
pub open spec fn turn_to_entry(
    config: ConfigView,
    cutoff: (int, int, int),
    last_page: int,
    page: int,
    links: Seq<Option<Seq<char>>>,
    entry: int,
) -> NextView {
    if !(0 <= entry < links.len()) {
        turn_to_page(config, cutoff, last_page, page + 1)
    } else {
        match links[entry] {
            None => NextView::Failed { error: ScanError::EntryLink },
            Some(link) => match resolved_url(config.site_url, link) {
                None => NextView::Failed { error: ScanError::EntryUrl },
                Some(address) => NextView::Fetch {
                    scanner: ScannerView {
                        config,
                        cutoff,
                        waiting: WaitingView::Report {
                            last_page,
                            page,
                            links,
                            entry,
                            url: address,
                        },
                    },
                    request: address,
                },
            },
        }
    }
}

/// The step of the scan `s` when the page it waits for was fetched with
/// the body `fetched`, or could not be fetched (`None`). A report is
/// reported where its day of last update is the cutoff or later; an older
/// one ends the scan.
pub open spec fn step_of(s: ScannerView, fetched: Option<Seq<char>>) -> StepView {
    match fetched {
        None => StepView { report: None, next: NextView::Failed { error: ScanError::Transport } },
        Some(body) => match s.waiting {
            WaitingView::Listing => StepView {
                report: None,
                next: match page_count_in(body) {
                    None => NextView::Failed { error: ScanError::PageCount },
                    Some(last_page) => turn_to_page(s.config, s.cutoff, last_page, 1),
                },
            },
            WaitingView::Page { last_page, page } => StepView {
                report: None,
                next: turn_to_entry(s.config, s.cutoff, last_page, page, links_in(body), 0),
            },
            WaitingView::Report { last_page, page, links, entry, url } => match report_in(
                body,
                url,
            ) {
                Err(error) => StepView { report: None, next: NextView::Failed { error } },
                Ok(report) => if not_before(report.last_update, s.cutoff) {
                    StepView {
                        report: Some(report),
                        next: turn_to_entry(
                            s.config,
                            s.cutoff,
                            last_page,
                            page,
                            links,
                            entry + 1,
                        ),
                    }
                } else {
                    StepView { report: None, next: NextView::Finished }
                },
            },
        },
    }
}

/// Pages are taken in rising order from page 1 and entries in the order of
/// their page: a step that goes on moves from the first listing page to
/// page 1, from a page to its first entry, and from an entry to the next
/// entry of the same page or, after the last one, to the next page.
pub proof fn lemma_step_order(s: ScannerView, fetched: Option<Seq<char>>)
    requires
        s.wf(),
    ensures
        step_of(s, fetched).next matches NextView::Fetch { scanner, .. } ==> match s.waiting {
            WaitingView::Listing => {
                &&& fetched is Some
                &&& scanner.waiting == (WaitingView::Page {
                    last_page: page_count_in(fetched->0)->0,
                    page: 1,
                })
            },
            WaitingView::Page { last_page, page } => {
                ||| scanner.waiting == (WaitingView::Page { last_page, page: page + 1 })
                ||| {
                    &&& fetched is Some
                    &&& scanner.waiting is Report
                    &&& scanner.waiting->Report_last_page == last_page
                    &&& scanner.waiting->Report_page == page
                    &&& scanner.waiting->Report_links == links_in(fetched->0)
                    &&& scanner.waiting->Report_entry == 0
                }
            },
            WaitingView::Report { last_page, page, links, entry, url } => {
                ||| scanner.waiting == (WaitingView::Page { last_page, page: page + 1 })
                ||| {
                    &&& scanner.waiting is Report
                    &&& scanner.waiting->Report_last_page == last_page
                    &&& scanner.waiting->Report_page == page
                    &&& scanner.waiting->Report_links == links
                    &&& scanner.waiting->Report_entry == entry + 1
                }
            },
        },
{
}

/// Only pages from 1 up to, and not including, the stated number of pages
/// are asked for: a scan that waits for a page or for one of its reports is
/// on such a page.
pub proof fn lemma_page_before_last(s: ScannerView, fetched: Option<Seq<char>>)
    requires
        s.wf(),
    ensures
        step_of(s, fetched).next matches NextView::Fetch { scanner, .. } ==> match scanner.waiting {
            WaitingView::Listing => false,
            WaitingView::Page { last_page, page } => 1 <= page < last_page && page_wanted(
                s.config,
                last_page,
                page,
            ),
            WaitingView::Report { last_page, page, links, entry, url } => 1 <= page < last_page
                && 0 <= entry < links.len(),
        },
{
}

/// Reads the number of pages from the first listing page.
pub fn page_count(markup: &str) -> (r: Result<i32, ScanError>)
    ensures
        match r {
            Ok(n) => page_count_in(markup@) == Some(n as int),
            Err(e) => e == ScanError::PageCount && page_count_in(markup@) is None,
        },
{
    let texts = select_class_texts(markup, "span", "last-page");
    let indicator = trim(concat_all(&texts).as_str());
    match parse_int(indicator.as_str()) {
        Some(n) => Ok(n),
        None => Err(ScanError::PageCount),
    }
}

/// Reads the links of the entries of a listing page.
pub fn listing_links(markup: &str) -> (r: Vec<Option<String>>)
    ensures
        option_views(r@) == links_in(markup@),
{
    select_entry_links(markup, "li", "class", "strip", "title", "a", "href")
}

/// Tells whether listing page `page` is to be scanned.
pub fn wants_page(config: &Config, last_page: i32, page: i32) -> (r: bool)
    ensures
        r == page_wanted(config@, last_page as int, page as int),
{
    1 <= page && page < last_page && match config.max_pages {
        Some(limit) => page as i64 <= limit as i64,
        None => true,
    }
}

/// Forms the address of listing page `page`.
pub fn page_url(config: &Config, page: u32) -> (r: Result<String, ScanError>)
    ensures
        match r {
            Ok(address) => page_address(config@, page as int) == Some(address@),
            Err(e) => e == ScanError::PageUrl && page_address(config@, page as int) is None,
        },
{
    let mut base = config.listing_url.clone();
    base.append("/");
    let mut path = String::from_str("page/");
    path.append(decimal_text(page).as_str());
    match join_url(base.as_str(), path.as_str()) {
        Ok(address) => Ok(address),
        Err(_) => Err(ScanError::PageUrl),
    }
}

/// Resolves the link of a listing entry against the site.
pub fn entry_url(config: &Config, link: &str) -> (r: Result<String, ScanError>)
    ensures
        match r {
            Ok(address) => resolved_url(config@.site_url, link@) == Some(address@),
            Err(e) => e == ScanError::EntryUrl && resolved_url(config@.site_url, link@) is None,
        },
{
    match join_url(config.site_url.as_str(), link) {
        Ok(address) => Ok(address),
        Err(_) => Err(ScanError::EntryUrl),
    }
}

impl Scanner {
    /// See `ScannerView::wf`.
    pub open spec fn wf(&self) -> bool {
        self@.wf()
    }

    /// Starts a scan. The second result is the address of the first page to
    /// fetch; its body goes to `advance`.
    pub fn new(config: Config, cutoff: CalendarDate) -> (r: (Scanner, String))
        ensures
            r.0@ == (ScannerView {
                config: config@,
                cutoff: cutoff.ymd(),
                waiting: WaitingView::Listing,
            }),
            r.0.wf(),
            r.1@ == config@.listing_url,
    {
        let request = config.listing_url.clone();
        (Scanner { config, cutoff, waiting: Waiting::Listing }, request)
    }

    /// The number of pages that the listing states, once it is known.
    pub fn last_page(&self) -> (r: Option<i32>)
        ensures
            match r {
                Some(n) => !(self@.waiting is Listing) && n == stated_pages(self@),
                None => self@.waiting is Listing,
            },
    {
        match &self.waiting {
            Waiting::Listing => None,
            Waiting::Page { last_page, page } => Some(*last_page),
            Waiting::Report { last_page, page, links, entry, url } => Some(*last_page),
        }
    }

    /// Tells whether the page that is waited for is a listing page after the
    /// first.
    pub fn awaits_page(&self) -> (r: bool)
        ensures
            r == (self@.waiting is Page),
    {
        match &self.waiting {
            Waiting::Page { last_page, page } => true,
            _ => false,
        }
    }

    /// The cutoff of this scan.
    pub fn cutoff(&self) -> (r: CalendarDate)
        ensures
            r.ymd() == self@.cutoff,
    {
        self.cutoff
    }

    fn turn_to_page(config: Config, cutoff: CalendarDate, last_page: i32, page: i32) -> (r: Next)
        ensures
            r@ == turn_to_page(config@, cutoff.ymd(), last_page as int, page as int),
            r matches Next::Fetch { scanner, .. } ==> scanner.wf(),
    {
        if !wants_page(&config, last_page, page) {
            return Next::Finished;
        }
        let request = match page_url(&config, page as u32) {
            Ok(address) => address,
            Err(error) => { return Next::Failed { error }; },
        };
        let scanner = Scanner { config, cutoff, waiting: Waiting::Page { last_page, page } };
        Next::Fetch { scanner, request }
    }

    fn turn_to_entry(
        config: Config,
        cutoff: CalendarDate,
        last_page: i32,
        page: i32,
        links: Vec<Option<String>>,
        entry: usize,
    ) -> (r: Next)
        requires
            1 <= page < last_page,
        ensures
            r@ == turn_to_entry(
                config@,
                cutoff.ymd(),
                last_page as int,
                page as int,
                option_views(links@),
                entry as int,
            ),
            r matches Next::Fetch { scanner, .. } ==> scanner.wf(),
    {
        if entry >= links.len() {
            return Self::turn_to_page(config, cutoff, last_page, page + 1);
        }
        let request = match &links[entry] {
            None => { return Next::Failed { error: ScanError::EntryLink }; },
            Some(link) => match entry_url(&config, link.as_str()) {
                Ok(address) => address,
                Err(error) => { return Next::Failed { error }; },
            },
        };
        let url = request.clone();
        let scanner = Scanner {
            config,
            cutoff,
            waiting: Waiting::Report { last_page, page, links, entry, url },
        };
        Next::Fetch { scanner, request }
    }

    /// Takes the body of the page that was asked for, or `None` if it could
    /// not be fetched, and makes the next step of the scan.
    pub fn advance(self, fetched: Option<&str>) -> (step: Step)
        requires
            self.wf(),
        ensures
            step@ == step_of(self@, body_view(fetched)),
            step.next matches Next::Fetch { scanner, .. } ==> scanner.wf(),
            step.report matches Some(report) ==> report.last_update.wf(),
    {
        let body = match fetched {
            Some(body) => body,
            None => {
                return Step { report: None, next: Next::Failed { error: ScanError::Transport } };
            },
        };
        let Scanner { config, cutoff, waiting } = self;
        match waiting {
            Waiting::Listing => {
                let next = match page_count(body) {
                    Ok(last_page) => Self::turn_to_page(config, cutoff, last_page, 1),
                    Err(error) => Next::Failed { error },
                };
                Step { report: None, next }
            },
            Waiting::Page { last_page, page } => {
                let links = listing_links(body);
                Step {
                    report: None,
                    next: Self::turn_to_entry(config, cutoff, last_page, page, links, 0),
                }
            },
            Waiting::Report { last_page, page, links, entry, url } => {
                assert(entry < links.len());
                let report = match parse_report(body, url.as_str()) {
                    Ok(report) => report,
                    Err(error) => { return Step { report: None, next: Next::Failed { error } }; },
                };
                if report.last_update.at_least(&cutoff) {
                    let next = Self::turn_to_entry(
                        config,
                        cutoff,
                        last_page,
                        page,
                        links,
                        entry + 1,
                    );
                    Step { report: Some(report), next }
                } else {
                    Step { report: None, next: Next::Finished }
                }
            },
        }
    }
}

} // verus!
