//! A scan run to its end over pages that were saved beforehand.

use crate::config::Config;
use crate::date::{not_before, CalendarDate};
use crate::error::ScanError;
use crate::report::{VulnerabilityReport, VulnerabilityReportView};
use crate::scan::{report_view, step_of, Next, NextView, Scanner, ScannerView, WaitingView};
use vstd::prelude::*;

verus! {

/// A page that was fetched earlier: its address and its body.
#[derive(Clone, Debug, PartialEq, Eq)]
pub struct SavedPage {
    pub url: String,
    pub body: String,
}

/// What a `SavedPage` holds.
#[verifier::ext_equal]
pub struct SavedPageView {
    pub url: Seq<char>,
    pub body: Seq<char>,
}

impl View for SavedPage {
    type V = SavedPageView;

    open spec fn view(&self) -> SavedPageView {
        SavedPageView { url: self.url@, body: self.body@ }
    }
}

/// How a scan went: the reports in the order in which they were reported,
/// the addresses in the order in which they were fetched, and the failure
/// that ended the scan, if one did.
#[derive(Debug, PartialEq, Eq)]
pub struct Outcome {
    pub reports: Vec<VulnerabilityReport>,
    pub requests: Vec<String>,
    pub error: Option<ScanError>,
}

/// What an `Outcome` holds.
#[verifier::ext_equal]
pub struct OutcomeView {
    pub reports: Seq<VulnerabilityReportView>,
    pub requests: Seq<Seq<char>>,
    pub error: Option<ScanError>,
}

/// The views of saved pages.
pub open spec fn page_views(pages: Seq<SavedPage>) -> Seq<SavedPageView> {
    pages.map_values(|p: SavedPage| p@)
}

/// The views of reports.
pub open spec fn report_views(reports: Seq<VulnerabilityReport>) -> Seq<VulnerabilityReportView> {
    reports.map_values(|r: VulnerabilityReport| r@)
}

/// The views of addresses.
pub open spec fn request_views(requests: Seq<String>) -> Seq<Seq<char>> {
    requests.map_values(|r: String| r@)
}

impl View for Outcome {
    type V = OutcomeView;

    open spec fn view(&self) -> OutcomeView {
        OutcomeView {
            reports: report_views(self.reports@),
            requests: request_views(self.requests@),
            error: self.error,
        }
    }
}

/// The body of the first of `pages` that has the address `url`.
pub open spec fn saved_body(pages: Seq<SavedPageView>, url: Seq<char>) -> Option<Seq<char>>
    decreases pages.len(),
{
    if pages.len() == 0 {
        None
    } else if pages.first().url == url {
        Some(pages.first().body)
    } else {
        saved_body(pages.drop_first(), url)
    }
}

/// 1 while the number of pages is not known yet, then 0.
pub open spec fn listing_ahead(s: ScannerView) -> int {
    if s.waiting is Listing {
        1
    } else {
        0
    }
}

/// The number of listing pages from the current one to the last.
pub open spec fn pages_ahead(s: ScannerView) -> int {
    match s.waiting {
        WaitingView::Listing => 0,
        WaitingView::Page { last_page, page } => last_page - page,
        WaitingView::Report { last_page, page, links, entry, url } => last_page - page,
    }
}

/// 1 while the entries of the current page are not known yet, then 0.
pub open spec fn page_ahead(s: ScannerView) -> int {
    if s.waiting is Page {
        1
    } else {
        0
    }
}

/// The number of entries of the current page from the current one on.
pub open spec fn entries_ahead(s: ScannerView) -> int {
    match s.waiting {
        WaitingView::Report { last_page, page, links, entry, url } => links.len() - entry,
        _ => 0,
    }
}

/// A report that may be absent, as a sequence of one or none.
pub open spec fn reported(report: Option<VulnerabilityReportView>) -> Seq<VulnerabilityReportView> {
    match report {
        Some(r) => seq![r],
        None => Seq::empty(),
    }
}

/// How the scan `s`, which has asked for `request`, goes when every page is
/// taken from `pages` and an address that `pages` lacks counts as a failed
/// fetch.
pub open spec fn run_of(s: ScannerView, request: Seq<char>, pages: Seq<SavedPageView>) -> OutcomeView
    decreases listing_ahead(s), pages_ahead(s), page_ahead(s), entries_ahead(s),
    when s.wf()
    via run_of_decreases
{
    let step = step_of(s, saved_body(pages, request));
    match step.next {
        NextView::Failed { error } => OutcomeView {
            reports: reported(step.report),
            requests: seq![request],
            error: Some(error),
        },
        NextView::Finished => OutcomeView {
            reports: reported(step.report),
            requests: seq![request],
            error: None,
        },
        NextView::Fetch { scanner, request: next } => {
            let rest = run_of(scanner, next, pages);
            OutcomeView {
                reports: reported(step.report) + rest.reports,
                requests: seq![request] + rest.requests,
                error: rest.error,
            }
        },
    }
}

#[via_fn]
proof fn run_of_decreases(s: ScannerView, request: Seq<char>, pages: Seq<SavedPageView>) {
    lemma_step_goes_ahead(s, saved_body(pages, request));
}

/// A step that goes on leaves a scan that is well formed and closer to its
/// end.
pub proof fn lemma_step_goes_ahead(s: ScannerView, fetched: Option<Seq<char>>)
    requires
        s.wf(),
    ensures
        step_of(s, fetched).next matches NextView::Fetch { scanner, .. } ==> {
            &&& scanner.wf()
            &&& scanner.config == s.config
            &&& scanner.cutoff == s.cutoff
            &&& decreases_to!(
                listing_ahead(s), pages_ahead(s), page_ahead(s), entries_ahead(s)
                => listing_ahead(scanner), pages_ahead(scanner), page_ahead(scanner), entries_ahead(scanner))
        },
{
}

/// What a step reports, if anything, was last updated on the cutoff day or
/// later.
pub proof fn lemma_step_report_meets_cutoff(s: ScannerView, fetched: Option<Seq<char>>)
    ensures
        step_of(s, fetched).report matches Some(r) ==> not_before(r.last_update, s.cutoff),
{
}

/// Every report of a scan was last updated on the cutoff day or later.
pub proof fn lemma_reports_meet_cutoff(
    s: ScannerView,
    request: Seq<char>,
    pages: Seq<SavedPageView>,
)
    requires
        s.wf(),
    ensures
        forall|i: int|
            0 <= i < run_of(s, request, pages).reports.len() ==> not_before(
                (#[trigger] run_of(s, request, pages).reports[i]).last_update,
                s.cutoff,
            ),
    decreases listing_ahead(s), pages_ahead(s), page_ahead(s), entries_ahead(s),
{
    let fetched = saved_body(pages, request);
    lemma_step_goes_ahead(s, fetched);
    lemma_step_report_meets_cutoff(s, fetched);
    if let NextView::Fetch { scanner, request: next } = step_of(s, fetched).next {
        lemma_reports_meet_cutoff(scanner, next, pages);
    }
}

/// A scan whose report is older than the cutoff ends there: it reports
/// nothing more and fetches nothing more, whatever entries and pages follow.
pub proof fn lemma_older_report_ends_scan(
    s: ScannerView,
    request: Seq<char>,
    pages: Seq<SavedPageView>,
)
    requires
        s.wf(),
        s.waiting is Report,
        saved_body(pages, request) matches Some(body) && crate::report::report_in(
            body,
            s.waiting->Report_url,
        ) matches Ok(report) && !not_before(report.last_update, s.cutoff),
    ensures
        run_of(s, request, pages) == (OutcomeView {
            reports: Seq::empty(),
            requests: seq![request],
            error: None,
        }),
{
}

/// A failure ends the scan at once: nothing is fetched after the page on
/// which a step fails, and what that step reports is the last report.
pub proof fn lemma_failure_ends_scan(s: ScannerView, request: Seq<char>, pages: Seq<SavedPageView>)
    requires
        s.wf(),
        step_of(s, saved_body(pages, request)).next is Failed,
    ensures
        run_of(s, request, pages) == (OutcomeView {
            reports: reported(step_of(s, saved_body(pages, request)).report),
            requests: seq![request],
            error: Some(step_of(s, saved_body(pages, request)).next->error),
        }),
{
}

/// Two scans from the same state over saved pages that answer every address
/// alike go the same way: the same reports in the same order, the same
/// addresses fetched, the same end.
pub proof fn lemma_same_pages_same_outcome(
    s: ScannerView,
    request: Seq<char>,
    pages: Seq<SavedPageView>,
    again: Seq<SavedPageView>,
)
    requires
        s.wf(),
        forall|url: Seq<char>| #[trigger] saved_body(pages, url) == saved_body(again, url),
    ensures
        run_of(s, request, pages) == run_of(s, request, again),
    decreases listing_ahead(s), pages_ahead(s), page_ahead(s), entries_ahead(s),
{
    let fetched = saved_body(pages, request);
    assert(fetched == saved_body(again, request));
    lemma_step_goes_ahead(s, fetched);
    if let NextView::Fetch { scanner, request: next } = step_of(s, fetched).next {
        lemma_same_pages_same_outcome(scanner, next, pages, again);
    }
}

/// Finds the body that `pages` holds for the address `url`.
pub fn find_page<'a>(pages: &'a Vec<SavedPage>, url: &String) -> (r: Option<&'a str>)
    ensures
        match r {
            Some(body) => saved_body(page_views(pages@), url@) == Some(body@),
            None => saved_body(page_views(pages@), url@) is None,
        },
{
    let ghost all = page_views(pages@);
    let mut i: usize = 0;
    assert(all.skip(0) =~= all);
    while i < pages.len()
        invariant
            i <= pages.len(),
            all == page_views(pages@),
            saved_body(all, url@) == saved_body(all.skip(i as int), url@),
        decreases pages.len() - i,
    {
        proof {
            assert(all.skip(i as int).first() == pages@[i as int]@);
            assert(all.skip(i as int).drop_first() =~= all.skip(i + 1));
        }
        if pages[i].url == *url {
            return Some(pages[i].body.as_str());
        }
        i += 1;
    }
    None
}

/// Runs a scan to its end over saved pages. An address that `pages` lacks
/// counts as a page that could not be fetched.
pub fn replay(config: Config, cutoff: CalendarDate, pages: &Vec<SavedPage>) -> (out: Outcome)
    ensures
        out@ == run_of(
            ScannerView { config: config@, cutoff: cutoff.ymd(), waiting: WaitingView::Listing },
            config@.listing_url,
            page_views(pages@),
        ),
{
    let ghost start = ScannerView {
        config: config@,
        cutoff: cutoff.ymd(),
        waiting: WaitingView::Listing,
    };
    let ghost first = config@.listing_url;
    let ghost saved = page_views(pages@);
    let (mut scanner, mut request) = Scanner::new(config, cutoff);
    let mut reports: Vec<VulnerabilityReport> = Vec::new();
    let mut requests: Vec<String> = Vec::new();
    loop
        invariant
            scanner.wf(),
            start.wf(),
            start == (ScannerView {
                config: config@,
                cutoff: cutoff.ymd(),
                waiting: WaitingView::Listing,
            }),
            first == config@.listing_url,
            saved == page_views(pages@),
            run_of(start, first, saved).reports == report_views(reports@) + run_of(
                scanner@,
                request@,
                saved,
            ).reports,
            run_of(start, first, saved).requests == request_views(requests@) + run_of(
                scanner@,
                request@,
                saved,
            ).requests,
            run_of(start, first, saved).error == run_of(scanner@, request@, saved).error,
        decreases
                listing_ahead(scanner@),
                pages_ahead(scanner@),
                page_ahead(scanner@),
                entries_ahead(scanner@),
    {
        let ghost before = scanner@;
        let ghost asked = request@;
        let ghost reports_before = report_views(reports@);
        let ghost requests_before = request_views(requests@);
        proof {
            lemma_step_goes_ahead(before, saved_body(saved, asked));
        }
        let body = find_page(pages, &request);
        let step = scanner.advance(body);
        requests.push(request);
        assert(request_views(requests@) =~= requests_before + seq![asked]);
        let ghost shown = reported(report_view(step.report));
        if let Some(r) = step.report {
            reports.push(r);
        }
        assert(report_views(reports@) =~= reports_before + shown);
        match step.next {
            Next::Failed { error } => {
                let out = Outcome { reports, requests, error: Some(error) };
                assert(out@ =~= run_of(start, first, saved));
                return out;
            },
            Next::Finished => {
                let out = Outcome { reports, requests, error: None };
                assert(out@ =~= run_of(start, first, saved));
                return out;
            },
            Next::Fetch { scanner: next, request: next_request } => {
                scanner = next;
                request = next_request;
                let ghost rest = run_of(scanner@, request@, saved);
                assert(report_views(reports@) + rest.reports =~= reports_before + (shown
                    + rest.reports));
                assert(request_views(requests@) + rest.requests =~= requests_before + (seq![asked]
                    + rest.requests));
            },
        }
    }
}

} // verus!
